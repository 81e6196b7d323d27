//! Errors of the branch store.

use vstd::prelude::*;

use crate::text::{concat2, concat3, concat4};

verus! {

/// Why the branch store could not answer.
#[derive(Debug)]
pub enum BranchStoreError {
    Query(String),
    Corrupt { name: String, detail: String },
    NotFound(String),
    Delete { name: String, detail: String },
}

pub open spec fn branch_error_text(e: BranchStoreError) -> Seq<char> {
    match e {
        BranchStoreError::Query(detail) => "failed to query branch storage: "@ + detail@,
        BranchStoreError::Corrupt { name, detail } => "stored branch reference '"@ + name@
            + "' is corrupt: "@ + detail@,
        BranchStoreError::NotFound(name) => "branch '"@ + name@ + "' not found"@,
        BranchStoreError::Delete { name, detail } => "failed to delete branch '"@ + name@ + "': "@
            + detail@,
    }
}

impl BranchStoreError {
    /// The text of the error.
    pub fn to_string(&self) -> (r: String)
        ensures
            r@ == branch_error_text(*self),
    {
        match self {
            BranchStoreError::Query(detail) => concat2(
                "failed to query branch storage: ",
                detail.as_str(),
            ),
            BranchStoreError::Corrupt { name, detail } => concat4(
                "stored branch reference '",
                name.as_str(),
                "' is corrupt: ",
                detail.as_str(),
            ),
            BranchStoreError::NotFound(name) => concat3("branch '", name.as_str(), "' not found"),
            BranchStoreError::Delete { name, detail } => concat4(
                "failed to delete branch '",
                name.as_str(),
                "': ",
                detail.as_str(),
            ),
        }
    }
}

/// What is said of a branch that cannot be had ends with what was found out, or names the branch.
pub proof fn law_branch_errors_tell_the_cause(name: String, detail: String)
    ensures
        branch_error_text(BranchStoreError::Query(detail)) == "failed to query branch storage: "@ + detail@,
        branch_error_text(BranchStoreError::Corrupt { name, detail }) == "stored branch reference '"@ + name@
            + "' is corrupt: "@ + detail@,
        branch_error_text(BranchStoreError::NotFound(name)) == "branch '"@ + name@ + "' not found"@,
        branch_error_text(BranchStoreError::Delete { name, detail }) == "failed to delete branch '"@ + name@
            + "': "@ + detail@,
{
}

} // verus!
