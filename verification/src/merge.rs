//! Merging: whitespace-insensitive comparison, tree merges, conflict files and messages.

use vstd::prelude::*;

use crate::error::{CliError, CliErrorKind, ErrorView, StableErrorCode};
use crate::text::{concat2, concat3, concat4, concat5};

pub mod checks;
pub mod conflict;
pub mod content;
pub mod flow;
pub mod items;
pub mod options;
pub mod renames;
pub mod report;
pub mod staging;
pub mod stat;
pub mod steps;
pub mod three_way;
pub mod trees;
pub mod whitespace;
pub mod workdir;

verus! {

/// Why a merge did not go through.
#[derive(Debug)]
pub enum PullMergeError {
    MissingAction,
    ConflictingAction,
    SquashNoFf,
    SquashCommit,
    InvalidMergeFfConfig { value: String },
    InvalidMergeCommitConfig { value: String },
    InvalidDiffAlgorithm { value: String },
    InvalidCleanupMode { value: String },
    OctopusConflict { detail: String },
    DirectoryFileConflict { path: String },
    MessageFileRead { path: String, detail: String },
    SignoffIdentity,
    InvalidTarget(String),
    TargetLoad { commit_id: String, detail: String },
    CurrentLoad { commit_id: String, detail: String },
    History(String),
    VirtualMergeBase(String),
    UnrelatedHistories,
    Conflicts { paths: String },
    NoMergeInProgress,
    MergeInProgress,
    UnresolvedConflicts,
    DirtyWorktree,
    UntrackedOverwrite { path: String },
    NonFastForward { current: String, target: String },
    StateLoad(String),
    StateSave(String),
    StateCleanup(String),
    Autostash(String),
    Sign(String),
    UnsignedTarget { target: String },
    IndexLoad(String),
    IndexSave(String),
    SquashConflicts,
    TreeCreate(String),
    CommitSave(String),
    WorkdirReset(String),
    TreeLoad { tree_id: String, detail: String },
    ObjectLoad { object_id: String, detail: String },
    HeadResolve(String),
    HeadUpdate(String),
    Restore(String),
}

/// What a merge error says.
pub open spec fn merge_error_text(e: PullMergeError) -> Seq<char> {
    match e {
        PullMergeError::MissingAction => "merge requires a branch argument, --continue, or --abort"@,
        PullMergeError::ConflictingAction =>
            "merge accepts either a branch argument, --continue, or --abort"@,
        PullMergeError::SquashNoFf => "--squash cannot be combined with --no-ff"@,
        PullMergeError::SquashCommit => "--squash cannot be combined with --commit"@,
        PullMergeError::InvalidMergeFfConfig { value } => "invalid merge.ff value '"@ + value@ + "'"@,
        PullMergeError::InvalidMergeCommitConfig { value } => "invalid merge.commit value '"@ + value@
            + "'"@,
        PullMergeError::InvalidDiffAlgorithm { value } => "unknown diff algorithm '"@ + value@
            + "' (expected myers, histogram, patience, or minimal)"@,
        PullMergeError::InvalidCleanupMode { value } => "unknown cleanup mode '"@ + value@
            + "' (expected strip, whitespace, verbatim, scissors, or default)"@,
        PullMergeError::OctopusConflict { detail } => "octopus merge refused: "@ + detail@,
        PullMergeError::DirectoryFileConflict { path } => "directory/file conflict in merge: "@ + path@,
        PullMergeError::MessageFileRead { path, detail } => "failed to read merge message file '"@
            + path@ + "': "@ + detail@,
        PullMergeError::SignoffIdentity =>
            "merge --signoff requires configured user.name and user.email"@,
        PullMergeError::InvalidTarget(t) => t@ + " - not something we can merge"@,
        PullMergeError::TargetLoad { commit_id, detail } => "failed to load merge target '"@
            + commit_id@ + "': "@ + detail@,
        PullMergeError::CurrentLoad { commit_id, detail } => "failed to load current commit '"@
            + commit_id@ + "': "@ + detail@,
        PullMergeError::History(d) => "failed to inspect merge history: "@ + d@,
        PullMergeError::VirtualMergeBase(d) => "failed to synthesize recursive merge base: "@ + d@,
        PullMergeError::UnrelatedHistories => "refusing to merge unrelated histories"@,
        PullMergeError::Conflicts { paths } => "merge has conflicts in "@ + paths@,
        PullMergeError::NoMergeInProgress => "no merge in progress"@,
        PullMergeError::MergeInProgress => "merge already in progress"@,
        PullMergeError::UnresolvedConflicts =>
            "you must resolve all merge conflicts before continuing"@,
        PullMergeError::DirtyWorktree => "uncommitted changes, cannot merge"@,
        PullMergeError::UntrackedOverwrite { path } =>
            "untracked working tree file would be overwritten by merge: "@ + path@,
        PullMergeError::NonFastForward { current, target } =>
            "non-fast-forward merge refused (current "@ + current@ + ", target "@ + target@ + ")"@,
        PullMergeError::StateLoad(d) => "failed to load merge state: "@ + d@,
        PullMergeError::StateSave(d) => "failed to save merge state: "@ + d@,
        PullMergeError::StateCleanup(d) => "failed to clean up merge state: "@ + d@,
        PullMergeError::Autostash(d) => "autostash failed: "@ + d@,
        PullMergeError::Sign(d) => "failed to sign merge commit: "@ + d@,
        PullMergeError::UnsignedTarget { target } => "merge target '"@ + target@ + "' is not signed"@,
        PullMergeError::IndexLoad(d) => "failed to load index: "@ + d@,
        PullMergeError::IndexSave(d) => "failed to save index: "@ + d@,
        PullMergeError::SquashConflicts =>
            "squash merge has conflicts; resolve them and run 'libra commit' instead of 'libra merge --continue'"@,
        PullMergeError::TreeCreate(d) => "failed to create merge tree: "@ + d@,
        PullMergeError::CommitSave(d) => "failed to save merge commit: "@ + d@,
        PullMergeError::WorkdirReset(d) => "failed to reset working tree after merge: "@ + d@,
        PullMergeError::TreeLoad { tree_id, detail } => "failed to load tree '"@ + tree_id@ + "': "@
            + detail@,
        PullMergeError::ObjectLoad { object_id, detail } => "failed to load object '"@ + object_id@
            + "': "@ + detail@,
        PullMergeError::HeadResolve(d) => "failed to resolve HEAD state: "@ + d@,
        PullMergeError::HeadUpdate(d) => "failed to update HEAD during merge: "@ + d@,
        PullMergeError::Restore(d) => "failed to restore working tree after merge: "@ + d@,
    }
}

impl PullMergeError {
    /// What the error says.
    pub fn to_string(&self) -> (r: String)
        ensures
            r@ == merge_error_text(*self),
    {
        match self {
            PullMergeError::MissingAction =>
                "merge requires a branch argument, --continue, or --abort".to_owned(),
            PullMergeError::ConflictingAction =>
                "merge accepts either a branch argument, --continue, or --abort".to_owned(),
            PullMergeError::SquashNoFf => "--squash cannot be combined with --no-ff".to_owned(),
            PullMergeError::SquashCommit => "--squash cannot be combined with --commit".to_owned(),
            PullMergeError::InvalidMergeFfConfig { value } => concat3(
                "invalid merge.ff value '",
                value.as_str(),
                "'",
            ),
            PullMergeError::InvalidMergeCommitConfig { value } => concat3(
                "invalid merge.commit value '",
                value.as_str(),
                "'",
            ),
            PullMergeError::InvalidDiffAlgorithm { value } => concat3(
                "unknown diff algorithm '",
                value.as_str(),
                "' (expected myers, histogram, patience, or minimal)",
            ),
            PullMergeError::InvalidCleanupMode { value } => concat3(
                "unknown cleanup mode '",
                value.as_str(),
                "' (expected strip, whitespace, verbatim, scissors, or default)",
            ),
            PullMergeError::OctopusConflict { detail } => concat2(
                "octopus merge refused: ",
                detail.as_str(),
            ),
            PullMergeError::DirectoryFileConflict { path } => concat2(
                "directory/file conflict in merge: ",
                path.as_str(),
            ),
            PullMergeError::MessageFileRead { path, detail } => concat4(
                "failed to read merge message file '",
                path.as_str(),
                "': ",
                detail.as_str(),
            ),
            PullMergeError::SignoffIdentity =>
                "merge --signoff requires configured user.name and user.email".to_owned(),
            PullMergeError::InvalidTarget(t) => concat2(t.as_str(), " - not something we can merge"),
            PullMergeError::TargetLoad { commit_id, detail } => concat4(
                "failed to load merge target '",
                commit_id.as_str(),
                "': ",
                detail.as_str(),
            ),
            PullMergeError::CurrentLoad { commit_id, detail } => concat4(
                "failed to load current commit '",
                commit_id.as_str(),
                "': ",
                detail.as_str(),
            ),
            PullMergeError::History(d) => concat2("failed to inspect merge history: ", d.as_str()),
            PullMergeError::VirtualMergeBase(d) => concat2(
                "failed to synthesize recursive merge base: ",
                d.as_str(),
            ),
            PullMergeError::UnrelatedHistories => "refusing to merge unrelated histories".to_owned(),
            PullMergeError::Conflicts { paths } => concat2("merge has conflicts in ", paths.as_str()),
            PullMergeError::NoMergeInProgress => "no merge in progress".to_owned(),
            PullMergeError::MergeInProgress => "merge already in progress".to_owned(),
            PullMergeError::UnresolvedConflicts =>
                "you must resolve all merge conflicts before continuing".to_owned(),
            PullMergeError::DirtyWorktree => "uncommitted changes, cannot merge".to_owned(),
            PullMergeError::UntrackedOverwrite { path } => concat2(
                "untracked working tree file would be overwritten by merge: ",
                path.as_str(),
            ),
            PullMergeError::NonFastForward { current, target } => concat5(
                "non-fast-forward merge refused (current ",
                current.as_str(),
                ", target ",
                target.as_str(),
                ")",
            ),
            PullMergeError::StateLoad(d) => concat2("failed to load merge state: ", d.as_str()),
            PullMergeError::StateSave(d) => concat2("failed to save merge state: ", d.as_str()),
            PullMergeError::StateCleanup(d) => concat2("failed to clean up merge state: ", d.as_str()),
            PullMergeError::Autostash(d) => concat2("autostash failed: ", d.as_str()),
            PullMergeError::Sign(d) => concat2("failed to sign merge commit: ", d.as_str()),
            PullMergeError::UnsignedTarget { target } => concat3(
                "merge target '",
                target.as_str(),
                "' is not signed",
            ),
            PullMergeError::IndexLoad(d) => concat2("failed to load index: ", d.as_str()),
            PullMergeError::IndexSave(d) => concat2("failed to save index: ", d.as_str()),
            PullMergeError::SquashConflicts =>
                "squash merge has conflicts; resolve them and run 'libra commit' instead of 'libra merge --continue'".to_owned(),
            PullMergeError::TreeCreate(d) => concat2("failed to create merge tree: ", d.as_str()),
            PullMergeError::CommitSave(d) => concat2("failed to save merge commit: ", d.as_str()),
            PullMergeError::WorkdirReset(d) => concat2(
                "failed to reset working tree after merge: ",
                d.as_str(),
            ),
            PullMergeError::TreeLoad { tree_id, detail } => concat4(
                "failed to load tree '",
                tree_id.as_str(),
                "': ",
                detail.as_str(),
            ),
            PullMergeError::ObjectLoad { object_id, detail } => concat4(
                "failed to load object '",
                object_id.as_str(),
                "': ",
                detail.as_str(),
            ),
            PullMergeError::HeadResolve(d) => concat2("failed to resolve HEAD state: ", d.as_str()),
            PullMergeError::HeadUpdate(d) => concat2("failed to update HEAD during merge: ", d.as_str()),
            PullMergeError::Restore(d) => concat2(
                "failed to restore working tree after merge: ",
                d.as_str(),
            ),
        }
    }
}

/// The command error for a merge error.
pub open spec fn merge_error_view(e: PullMergeError) -> ErrorView {
    let text = merge_error_text(e);
    match e {
        PullMergeError::MissingAction
        | PullMergeError::ConflictingAction
        | PullMergeError::SquashNoFf
        | PullMergeError::SquashCommit
        | PullMergeError::InvalidMergeFfConfig { .. }
        | PullMergeError::InvalidMergeCommitConfig { .. }
        | PullMergeError::InvalidDiffAlgorithm { .. }
        | PullMergeError::InvalidCleanupMode { .. } => ErrorView::usage(text).coded(
            StableErrorCode::CliInvalidArguments,
        ),
        PullMergeError::InvalidTarget(_) => ErrorView::usage(text).coded(
            StableErrorCode::CliInvalidTarget,
        ),
        PullMergeError::SignoffIdentity => ErrorView::failure(text).coded(
            StableErrorCode::RepoStateInvalid,
        ).hint("configure user.name and user.email before using --signoff"@),
        PullMergeError::UnsignedTarget { .. } => ErrorView::failure(text).coded(
            StableErrorCode::RepoStateInvalid,
        ).hint("pass --no-verify-signatures to merge an unsigned commit"@),
        PullMergeError::UnrelatedHistories | PullMergeError::NoMergeInProgress =>
            ErrorView::failure(text).coded(StableErrorCode::RepoStateInvalid),
        PullMergeError::NonFastForward { .. } => ErrorView::failure(text).coded(
            StableErrorCode::ConflictOperationBlocked,
        ).hint("run 'libra pull' without --ff-only to allow a merge commit"@).hint(
            "or run 'libra pull --rebase' to replay local commits"@,
        ),
        PullMergeError::Conflicts { .. }
        | PullMergeError::SquashConflicts
        | PullMergeError::OctopusConflict { .. }
        | PullMergeError::DirectoryFileConflict { .. }
        | PullMergeError::DirtyWorktree
        | PullMergeError::UntrackedOverwrite { .. }
        | PullMergeError::MergeInProgress
        | PullMergeError::UnresolvedConflicts => ErrorView::failure(text).coded(
            StableErrorCode::ConflictOperationBlocked,
        ).hint("resolve conflicts, then run 'libra merge --continue'"@).hint(
            "or run 'libra merge --abort' to restore the pre-merge state"@,
        ),
        PullMergeError::TargetLoad { .. }
        | PullMergeError::CurrentLoad { .. }
        | PullMergeError::History(_)
        | PullMergeError::VirtualMergeBase(_)
        | PullMergeError::TreeLoad { .. }
        | PullMergeError::ObjectLoad { .. } => ErrorView::fatal(text).coded(
            StableErrorCode::RepoCorrupt,
        ),
        PullMergeError::MessageFileRead { .. }
        | PullMergeError::StateLoad(_)
        | PullMergeError::IndexLoad(_)
        | PullMergeError::HeadResolve(_) => ErrorView::fatal(text).coded(
            StableErrorCode::IoReadFailed,
        ),
        PullMergeError::StateSave(_)
        | PullMergeError::StateCleanup(_)
        | PullMergeError::Autostash(_)
        | PullMergeError::Sign(_)
        | PullMergeError::IndexSave(_)
        | PullMergeError::TreeCreate(_)
        | PullMergeError::CommitSave(_)
        | PullMergeError::WorkdirReset(_)
        | PullMergeError::HeadUpdate(_)
        | PullMergeError::Restore(_) => ErrorView::fatal(text).coded(
            StableErrorCode::IoWriteFailed,
        ),
    }
}

/// The command error that `merge` itself reports: conflicts say first how to go on.
pub open spec fn merge_command_error_view(e: PullMergeError) -> ErrorView {
    match e {
        PullMergeError::Conflicts { .. } => merge_error_view(e).first_hint(
            "resolve conflicts, then run 'libra merge --continue'"@,
        ).hint("or run 'libra merge --abort' to restore the pre-merge state"@),
        PullMergeError::SquashConflicts => ErrorView::failure(merge_error_text(e)).coded(
            StableErrorCode::ConflictOperationBlocked,
        ).first_hint("resolve conflicts, stage the result, then run 'libra commit'"@).hint(
            "squash merges do not support 'libra merge --continue'"@,
        ),
        _ => merge_error_view(e),
    }
}

impl CliError {
    /// The command error for a merge error.
    pub fn from_merge_error(error: &PullMergeError) -> (r: CliError)
        ensures
            r@ == merge_error_view(*error),
    {
        let text = error.to_string();
        match error {
            PullMergeError::MissingAction
            | PullMergeError::ConflictingAction
            | PullMergeError::SquashNoFf
            | PullMergeError::SquashCommit
            | PullMergeError::InvalidMergeFfConfig { .. }
            | PullMergeError::InvalidMergeCommitConfig { .. }
            | PullMergeError::InvalidDiffAlgorithm { .. }
            | PullMergeError::InvalidCleanupMode { .. } => CliError::command_usage(
                text,
            ).with_stable_code(StableErrorCode::CliInvalidArguments),
            PullMergeError::MessageFileRead { .. } => CliError::fatal(text).with_stable_code(
                StableErrorCode::IoReadFailed,
            ),
            PullMergeError::SignoffIdentity => CliError::failure(text).with_stable_code(
                StableErrorCode::RepoStateInvalid,
            ).with_hint("configure user.name and user.email before using --signoff"),
            PullMergeError::InvalidTarget(_) => CliError::command_usage(text).with_stable_code(
                StableErrorCode::CliInvalidTarget,
            ),
            PullMergeError::TargetLoad { .. }
            | PullMergeError::CurrentLoad { .. }
            | PullMergeError::History(_)
            | PullMergeError::VirtualMergeBase(_)
            | PullMergeError::TreeLoad { .. }
            | PullMergeError::ObjectLoad { .. } => CliError::fatal(text).with_stable_code(
                StableErrorCode::RepoCorrupt,
            ),
            PullMergeError::UnrelatedHistories => CliError::failure(text).with_stable_code(
                StableErrorCode::RepoStateInvalid,
            ),
            PullMergeError::NonFastForward { .. } => CliError::failure(text).with_stable_code(
                StableErrorCode::ConflictOperationBlocked,
            ).with_hint("run 'libra pull' without --ff-only to allow a merge commit").with_hint(
                "or run 'libra pull --rebase' to replay local commits",
            ),
            PullMergeError::Conflicts { .. }
            | PullMergeError::SquashConflicts
            | PullMergeError::OctopusConflict { .. }
            | PullMergeError::DirectoryFileConflict { .. }
            | PullMergeError::DirtyWorktree
            | PullMergeError::UntrackedOverwrite { .. }
            | PullMergeError::MergeInProgress
            | PullMergeError::UnresolvedConflicts => CliError::failure(text).with_stable_code(
                StableErrorCode::ConflictOperationBlocked,
            ).with_hint("resolve conflicts, then run 'libra merge --continue'").with_hint(
                "or run 'libra merge --abort' to restore the pre-merge state",
            ),
            PullMergeError::NoMergeInProgress => CliError::failure(text).with_stable_code(
                StableErrorCode::RepoStateInvalid,
            ),
            PullMergeError::StateLoad(_) | PullMergeError::IndexLoad(_) => CliError::fatal(
                text,
            ).with_stable_code(StableErrorCode::IoReadFailed),
            PullMergeError::StateSave(_)
            | PullMergeError::StateCleanup(_)
            | PullMergeError::Autostash(_)
            | PullMergeError::Sign(_)
            | PullMergeError::IndexSave(_)
            | PullMergeError::TreeCreate(_)
            | PullMergeError::CommitSave(_)
            | PullMergeError::WorkdirReset(_) => CliError::fatal(text).with_stable_code(
                StableErrorCode::IoWriteFailed,
            ),
            PullMergeError::UnsignedTarget { .. } => CliError::failure(text).with_stable_code(
                StableErrorCode::RepoStateInvalid,
            ).with_hint("pass --no-verify-signatures to merge an unsigned commit"),
            PullMergeError::HeadResolve(_) => CliError::fatal(text).with_stable_code(
                StableErrorCode::IoReadFailed,
            ),
            PullMergeError::HeadUpdate(_) | PullMergeError::Restore(_) => CliError::fatal(
                text,
            ).with_stable_code(StableErrorCode::IoWriteFailed),
        }
    }
}

/// The command error that `merge` reports.
pub fn merge_error_to_cli(error: PullMergeError) -> (r: CliError)
    ensures
        r@ == merge_command_error_view(error),
{
    match error {
        PullMergeError::Conflicts { .. } => CliError::from_merge_error(&error).with_priority_hint(
            "resolve conflicts, then run 'libra merge --continue'",
        ).with_hint("or run 'libra merge --abort' to restore the pre-merge state"),
        PullMergeError::SquashConflicts => CliError::failure(error.to_string()).with_stable_code(
            StableErrorCode::ConflictOperationBlocked,
        ).with_priority_hint(
            "resolve conflicts, stage the result, then run 'libra commit'",
        ).with_hint("squash merges do not support 'libra merge --continue'"),
        _ => CliError::from_merge_error(&error),
    }
}

/// An error of a merge is told with its own text. It is a wrong use of the command where the arguments
/// or settings are wrong, a refusal where the state does not allow the merge, and fatal where reading or
/// writing failed; a conflict, and whatever else blocks a merge, is told as such.
pub proof fn law_merge_errors_are_told(e: PullMergeError)
    ensures
        merge_error_view(e).message == merge_error_text(e),
        merge_command_error_view(e).message == merge_error_text(e),
        merge_command_error_view(e).kind == merge_error_view(e).kind,
        merge_command_error_view(e).code == merge_error_view(e).code,
        merge_error_view(e).exit is None && merge_command_error_view(e).exit is None,
        merge_error_view(e).code == Some(StableErrorCode::CliInvalidArguments) <==> e is MissingAction
            || e is ConflictingAction || e is SquashNoFf || e is SquashCommit || e is InvalidMergeFfConfig
            || e is InvalidMergeCommitConfig || e is InvalidDiffAlgorithm || e is InvalidCleanupMode,
        merge_error_view(e).code == Some(StableErrorCode::CliInvalidTarget) <==> e is InvalidTarget,
        merge_error_view(e).kind == CliErrorKind::CommandUsage <==> merge_error_view(e).code == Some(
            StableErrorCode::CliInvalidArguments,
        ) || e is InvalidTarget,
        merge_error_view(e).code == Some(StableErrorCode::RepoStateInvalid) <==> e is SignoffIdentity
            || e is UnsignedTarget || e is UnrelatedHistories || e is NoMergeInProgress,
        merge_error_view(e).code == Some(StableErrorCode::ConflictOperationBlocked) <==> e is NonFastForward
            || e is Conflicts || e is SquashConflicts || e is OctopusConflict || e is DirectoryFileConflict
            || e is DirtyWorktree || e is UntrackedOverwrite || e is MergeInProgress
            || e is UnresolvedConflicts,
        merge_error_view(e).kind == CliErrorKind::Failure <==> merge_error_view(e).code == Some(
            StableErrorCode::RepoStateInvalid,
        ) || merge_error_view(e).code == Some(StableErrorCode::ConflictOperationBlocked),
        merge_error_view(e).code == Some(StableErrorCode::RepoCorrupt) <==> e is TargetLoad || e is CurrentLoad
            || e is History || e is VirtualMergeBase || e is TreeLoad || e is ObjectLoad,
        merge_error_view(e).code == Some(StableErrorCode::IoReadFailed) <==> e is MessageFileRead
            || e is StateLoad || e is IndexLoad || e is HeadResolve,
        merge_error_view(e).code == Some(StableErrorCode::IoWriteFailed) <==> e is StateSave
            || e is StateCleanup || e is Autostash || e is Sign || e is IndexSave || e is TreeCreate
            || e is CommitSave || e is WorkdirReset || e is HeadUpdate || e is Restore,
        e is SquashConflicts ==> merge_command_error_view(e).hints.len() == 2,
        e is Conflicts ==> merge_command_error_view(e).hints[0]
            == "resolve conflicts, then run 'libra merge --continue'"@,
{
}

/// What an error of a merge says ends with what was found out.
pub proof fn law_merge_errors_tell_the_cause(e: PullMergeError)
    ensures
        match e {
            PullMergeError::History(d) | PullMergeError::VirtualMergeBase(d) | PullMergeError::StateLoad(d)
            | PullMergeError::StateSave(d) | PullMergeError::StateCleanup(d) | PullMergeError::Autostash(d)
            | PullMergeError::Sign(d) | PullMergeError::IndexLoad(d) | PullMergeError::IndexSave(d)
            | PullMergeError::TreeCreate(d) | PullMergeError::CommitSave(d) | PullMergeError::WorkdirReset(d)
            | PullMergeError::HeadResolve(d) | PullMergeError::HeadUpdate(d) | PullMergeError::Restore(d) =>
                d@.is_suffix_of(merge_error_text(e)),
            PullMergeError::TargetLoad { detail, .. } | PullMergeError::CurrentLoad { detail, .. }
            | PullMergeError::TreeLoad { detail, .. } | PullMergeError::ObjectLoad { detail, .. }
            | PullMergeError::MessageFileRead { detail, .. } | PullMergeError::OctopusConflict { detail } =>
                detail@.is_suffix_of(merge_error_text(e)),
            PullMergeError::Conflicts { paths } => merge_error_text(e) == "merge has conflicts in "@ + paths@,
            PullMergeError::DirectoryFileConflict { path } => merge_error_text(e)
                == "directory/file conflict in merge: "@ + path@,
            PullMergeError::UntrackedOverwrite { path } => merge_error_text(e)
                == "untracked working tree file would be overwritten by merge: "@ + path@,
            PullMergeError::InvalidTarget(t) => t@.is_prefix_of(merge_error_text(e)),
            PullMergeError::NonFastForward { current, target } => merge_error_text(e)
                == "non-fast-forward merge refused (current "@ + current@ + ", target "@ + target@ + ")"@,
            _ => true,
        },
{
}

} // verus!
