//! Why a clone fails, and what is told about it.

use vstd::prelude::*;

use crate::branch::{branch_error_text, BranchStoreError};
use crate::error::{detail_views, CliError, CliErrorKind, ErrorDetail, ErrorView, StableErrorCode};
use crate::text::{
    clone_texts, concat2, concat3, concat4, concat5, concat6, concat7, signed_decimal, signed_text,
    texts,
};

verus! {

/// What is wrong with how a remote was named.
#[derive(Debug, Clone, Copy, PartialEq, Eq, Structural)]
pub enum RemoteSpecErrorKind {
    MissingLocalRepo,
    InvalidLocalRepo,
    MalformedUrl,
    UnsupportedScheme,
}

/// How talking to a remote failed.
#[derive(Debug, Clone, Copy, PartialEq, Eq, Structural)]
pub enum DiscoveryFault {
    UnAuthorized,
    NetworkError,
    IOError,
    Other,
}

/// The step of a fetch that failed.
#[derive(Debug, Clone, Copy, PartialEq, Eq, Structural)]
pub enum FetchErrorKind {
    InvalidRemoteSpec(RemoteSpecErrorKind),
    Discovery(DiscoveryFault),
    ObjectFormatMismatch,
    FetchObjects,
    PacketRead,
    RemoteSideband,
    ChecksumMismatch,
    RemoteBranchNotFound,
    Other,
}

/// A failed fetch, and its text.
#[derive(Debug)]
pub struct FetchError {
    pub kind: FetchErrorKind,
    pub text: String,
}

/// Why the working tree could not be checked out.
#[derive(Debug)]
pub enum RestoreError {
    ResolveSource,
    ReferenceNotCommit,
    PathspecNotMatched(String),
    ReadIndex,
    ReadObject,
    ReadWorktree,
    InvalidPathEncoding,
    WriteWorktree,
    LfsDownload,
    LockedSource(String),
    LockedCurrentBranch(String),
}

/// An ignore file that could not be converted.
#[derive(Debug)]
pub struct IgnoreFileError {
    pub text: String,
    pub is_write: bool,
    pub recovery_hint: String,
}

pub open spec fn discovery_retry_hint() -> Seq<char> {
    "the remote did not complete discovery successfully; retry and inspect server/protocol settings"@
}

/// The command error for a remote that could not be reached.
pub open spec fn discover_error_view(e: FetchError) -> ErrorView {
    let failed = ErrorView::fatal("remote discovery failed: "@ + e.text@);
    match e.kind {
        FetchErrorKind::InvalidRemoteSpec(kind) => match kind {
            RemoteSpecErrorKind::MissingLocalRepo | RemoteSpecErrorKind::InvalidLocalRepo => ErrorView::fatal(
                e.text@,
            ).coded(StableErrorCode::RepoNotFound).hint(
                "use a valid libra repository path or a reachable remote URL"@,
            ),
            RemoteSpecErrorKind::MalformedUrl | RemoteSpecErrorKind::UnsupportedScheme => ErrorView::usage(
                e.text@,
            ).coded(StableErrorCode::CliInvalidTarget).hint(
                "check the clone URL or scheme, for example `https://`, `ssh`, or a local path"@,
            ),
        },
        FetchErrorKind::Discovery(fault) => match fault {
            DiscoveryFault::UnAuthorized => failed.coded(
                StableErrorCode::AuthPermissionDenied,
            ).hint("check SSH key / HTTP credentials and repository access rights"@),
            DiscoveryFault::NetworkError => failed.coded(StableErrorCode::NetworkUnavailable).hint(
                "check the remote host, DNS, VPN/proxy, and network connectivity"@,
            ),
            DiscoveryFault::IOError => failed.coded(StableErrorCode::IoReadFailed).hint(
                "check filesystem permissions and repository integrity"@,
            ),
            DiscoveryFault::Other => failed.coded(StableErrorCode::NetworkProtocol).hint(
                discovery_retry_hint(),
            ),
        },
        _ => failed.coded(StableErrorCode::NetworkProtocol).hint(discovery_retry_hint()),
    }
}

/// Map a fetch error of the discovery phase.
pub fn map_discover_remote_error(source: &FetchError) -> (r: CliError)
    ensures
        r@ == discover_error_view(*source),
{
    match source.kind {
        FetchErrorKind::InvalidRemoteSpec(kind) => match kind {
            RemoteSpecErrorKind::MissingLocalRepo | RemoteSpecErrorKind::InvalidLocalRepo => CliError::fatal(
                source.text.clone(),
            ).with_stable_code(StableErrorCode::RepoNotFound).with_hint(
                "use a valid libra repository path or a reachable remote URL",
            ),
            RemoteSpecErrorKind::MalformedUrl | RemoteSpecErrorKind::UnsupportedScheme => CliError::command_usage(
                source.text.clone(),
            ).with_stable_code(StableErrorCode::CliInvalidTarget).with_hint(
                "check the clone URL or scheme, for example `https://`, `ssh`, or a local path",
            ),
        },
        FetchErrorKind::Discovery(fault) => {
            let failed = CliError::fatal(
                concat2("remote discovery failed: ", source.text.as_str()),
            );
            match fault {
                DiscoveryFault::UnAuthorized => failed.with_stable_code(
                    StableErrorCode::AuthPermissionDenied,
                ).with_hint("check SSH key / HTTP credentials and repository access rights"),
                DiscoveryFault::NetworkError => failed.with_stable_code(
                    StableErrorCode::NetworkUnavailable,
                ).with_hint("check the remote host, DNS, VPN/proxy, and network connectivity"),
                DiscoveryFault::IOError => failed.with_stable_code(
                    StableErrorCode::IoReadFailed,
                ).with_hint("check filesystem permissions and repository integrity"),
                DiscoveryFault::Other => failed.with_stable_code(
                    StableErrorCode::NetworkProtocol,
                ).with_hint(
                    "the remote did not complete discovery successfully; retry and inspect server/protocol settings",
                ),
            }
        },
        _ => CliError::fatal(
            concat2("remote discovery failed: ", source.text.as_str()),
        ).with_stable_code(StableErrorCode::NetworkProtocol).with_hint(
            "the remote did not complete discovery successfully; retry and inspect server/protocol settings",
        ),
    }
}

/// The command error for a transfer that failed.
pub open spec fn fetch_error_view(e: FetchError) -> ErrorView {
    let fatal = ErrorView::fatal(e.text@);
    match e.kind {
        FetchErrorKind::ObjectFormatMismatch => fatal.coded(StableErrorCode::RepoStateInvalid).hint(
            "the remote and local repository use different object formats"@,
        ),
        FetchErrorKind::RemoteSideband | FetchErrorKind::ChecksumMismatch => fatal.coded(
            StableErrorCode::NetworkProtocol,
        ).hint("the remote transfer failed or returned corrupted data; retry the clone"@),
        FetchErrorKind::RemoteBranchNotFound => fatal.coded(StableErrorCode::RepoStateInvalid).hint(
            "the specified branch does not exist on the remote"@,
        ),
        _ => fatal.coded(StableErrorCode::NetworkUnavailable).hint(
            "network error during transfer; check connectivity and retry"@,
        ),
    }
}

/// Map a fetch error of the transfer phase.
pub fn map_fetch_error(source: &FetchError) -> (r: CliError)
    ensures
        r@ == fetch_error_view(*source),
{
    let fatal = CliError::fatal(source.text.clone());
    match source.kind {
        FetchErrorKind::ObjectFormatMismatch => fatal.with_stable_code(
            StableErrorCode::RepoStateInvalid,
        ).with_hint("the remote and local repository use different object formats"),
        FetchErrorKind::RemoteSideband | FetchErrorKind::ChecksumMismatch => fatal.with_stable_code(
            StableErrorCode::NetworkProtocol,
        ).with_hint("the remote transfer failed or returned corrupted data; retry the clone"),
        FetchErrorKind::RemoteBranchNotFound => fatal.with_stable_code(
            StableErrorCode::RepoStateInvalid,
        ).with_hint("the specified branch does not exist on the remote"),
        _ => fatal.with_stable_code(StableErrorCode::NetworkUnavailable).with_hint(
            "network error during transfer; check connectivity and retry",
        ),
    }
}

/// What is said of a checkout that failed, and its code; the hint repeats the text.
pub open spec fn repeated(text: Seq<char>, code: StableErrorCode) -> ErrorView {
    ErrorView::fatal(text).coded(code).hint(text)
}

fn repeated_error(text: &str, code: StableErrorCode) -> (r: CliError)
    ensures
        r@ == repeated(text@, code),
{
    CliError::fatal(text.to_owned()).with_stable_code(code).with_hint(text)
}

/// The command error for a checkout that failed.
pub open spec fn checkout_error_view(e: RestoreError) -> ErrorView {
    match e {
        RestoreError::ResolveSource | RestoreError::ReferenceNotCommit => repeated(
            "working tree checkout target could not be resolved"@,
            StableErrorCode::RepoStateInvalid,
        ),
        RestoreError::PathspecNotMatched(_) => ErrorView::fatal(
            "working tree checkout referenced a path that was not present"@,
        ).coded(StableErrorCode::RepoCorrupt).hint(
            "the fetched tree is inconsistent; retry the clone or inspect the remote"@,
        ),
        RestoreError::ReadIndex | RestoreError::ReadObject | RestoreError::ReadWorktree
        | RestoreError::InvalidPathEncoding => repeated(
            "failed to read repository state while checking out the working tree"@,
            StableErrorCode::IoReadFailed,
        ),
        RestoreError::WriteWorktree => repeated(
            "working tree checkout did not complete because files could not be written"@,
            StableErrorCode::IoWriteFailed,
        ),
        RestoreError::LfsDownload => repeated(
            "checkout required downloading LFS content, but the transfer failed"@,
            StableErrorCode::NetworkUnavailable,
        ),
        RestoreError::LockedSource(name) => ErrorView::fatal(
            "internal error: clone checkout attempted to restore from locked branch '"@ + name@
                + "'"@,
        ).coded(StableErrorCode::RepoStateInvalid),
        RestoreError::LockedCurrentBranch(name) => ErrorView::fatal(
            "internal error: clone checkout attempted to write worktree while on locked branch '"@
                + name@ + "'"@,
        ).coded(StableErrorCode::RepoStateInvalid),
    }
}

/// Map an error of the checkout phase.
pub fn map_checkout_error(source: &RestoreError) -> (r: CliError)
    ensures
        r@ == checkout_error_view(*source),
{
    match source {
        RestoreError::ResolveSource | RestoreError::ReferenceNotCommit => repeated_error(
            "working tree checkout target could not be resolved",
            StableErrorCode::RepoStateInvalid,
        ),
        RestoreError::PathspecNotMatched(_) => CliError::fatal(
            "working tree checkout referenced a path that was not present".to_owned(),
        ).with_stable_code(StableErrorCode::RepoCorrupt).with_hint(
            "the fetched tree is inconsistent; retry the clone or inspect the remote",
        ),
        RestoreError::ReadIndex | RestoreError::ReadObject | RestoreError::ReadWorktree
        | RestoreError::InvalidPathEncoding => repeated_error(
            "failed to read repository state while checking out the working tree",
            StableErrorCode::IoReadFailed,
        ),
        RestoreError::WriteWorktree => repeated_error(
            "working tree checkout did not complete because files could not be written",
            StableErrorCode::IoWriteFailed,
        ),
        RestoreError::LfsDownload => repeated_error(
            "checkout required downloading LFS content, but the transfer failed",
            StableErrorCode::NetworkUnavailable,
        ),
        RestoreError::LockedSource(name) => CliError::fatal(
            concat3(
                "internal error: clone checkout attempted to restore from locked branch '",
                name.as_str(),
                "'",
            ),
        ).with_stable_code(StableErrorCode::RepoStateInvalid),
        RestoreError::LockedCurrentBranch(name) => CliError::fatal(
            concat3(
                "internal error: clone checkout attempted to write worktree while on locked branch '",
                name.as_str(),
                "'",
            ),
        ).with_stable_code(StableErrorCode::RepoStateInvalid),
    }
}

/// The command error for a branch store that fails after the fetch.
pub open spec fn branch_state_view(e: BranchStoreError) -> ErrorView {
    match e {
        BranchStoreError::Query(detail) => ErrorView::fatal(
            "failed to inspect local branch state after fetch: "@ + detail@,
        ).coded(StableErrorCode::IoReadFailed),
        BranchStoreError::Corrupt { .. } => ErrorView::fatal(
            "failed to inspect local branch state after fetch: "@ + branch_error_text(e),
        ).coded(StableErrorCode::RepoCorrupt),
        BranchStoreError::NotFound(_) => ErrorView::fatal(
            "failed to inspect local branch state after fetch: "@ + branch_error_text(e),
        ).coded(StableErrorCode::RepoStateInvalid),
        BranchStoreError::Delete { .. } => ErrorView::fatal(
            "failed to inspect local branch state after fetch: "@ + branch_error_text(e),
        ).coded(StableErrorCode::IoWriteFailed),
    }
}

/// Map an error of the branch store after the fetch.
pub fn map_local_branch_state_error(source: &BranchStoreError) -> (r: CliError)
    ensures
        r@ == branch_state_view(*source),
{
    let text = source.to_string();
    match source {
        BranchStoreError::Query(detail) => CliError::fatal(
            concat2("failed to inspect local branch state after fetch: ", detail.as_str()),
        ).with_stable_code(StableErrorCode::IoReadFailed),
        BranchStoreError::Corrupt { .. } => CliError::fatal(
            concat2("failed to inspect local branch state after fetch: ", text.as_str()),
        ).with_stable_code(StableErrorCode::RepoCorrupt),
        BranchStoreError::NotFound(_) => CliError::fatal(
            concat2("failed to inspect local branch state after fetch: ", text.as_str()),
        ).with_stable_code(StableErrorCode::RepoStateInvalid),
        BranchStoreError::Delete { .. } => CliError::fatal(
            concat2("failed to inspect local branch state after fetch: ", text.as_str()),
        ).with_stable_code(StableErrorCode::IoWriteFailed),
    }
}

fn copy_cli_error(e: &CliError) -> (r: CliError)
    ensures
        r@ == e@,
{
    let mut details: Vec<ErrorDetail> = Vec::new();
    let mut i: usize = 0;
    while i < e.details.len()
        invariant
            i <= e.details@.len(),
            details@.len() == i,
            forall|k: int|
                0 <= k < i ==> (#[trigger] details@[k]).key@ == e.details@[k].key@ && details@[k].value@
                    == e.details@[k].value@,
        decreases e.details@.len() - i,
    {
        details.push(
            ErrorDetail { key: e.details[i].key.clone(), value: e.details[i].value.clone() },
        );
        i = i + 1;
    }
    let r = CliError {
        kind: e.kind,
        message: e.message.clone(),
        code: e.code,
        hints: clone_texts(&e.hints),
        details,
        exit: e.exit,
    };
    assert(detail_views(r.details@) =~= detail_views(e.details@));
    assert(texts(r.hints@) == texts(e.hints@));
    r
}

/// Why nothing was cloned.
#[derive(Debug)]
pub enum CloneError {
    CannotInferDestination,
    DestinationExistsNonEmpty { path: String },
    DestinationAlreadyRepo { path: String },
    CreateDestinationFailed { path: String, source: String },
    DiscoverRemote { source: FetchError },
    ChangeDirectory { path: String, source: String },
    RestoreDirectory { path: String, source: String },
    InitializeRepository { source: CliError },
    RemoteBranchNotFound { branch: String },
    LocalBranchState { source: BranchStoreError },
    FetchFailed { source: FetchError },
    CheckoutFailed { source: RestoreError },
    IgnoreFile { source: IgnoreFileError },
    SetupFailed { message: String },
    CloudCloneDomainNotConfigured { domain: String, missing_keys: String },
    CloudCloneD1ApiTokenNotConfigured { domain: String },
    CloudCloneD1ApiBaseUrlInvalid { domain: String, message: String },
    CloudCloneR2CredentialsNotConfigured { domain: String, missing_keys: String },
    CloudCloneR2ConfigRead { domain: String, source: String },
    CloudCloneR2ClientBuildFailed { domain: String, message: String },
    CloudCloneDomainConfigRead { domain: String, source: String },
    UnsupportedCloudCloneOption { option: &'static str, reason: &'static str, hint: &'static str },
    CloudPublishSiteLookupFailed { domain: String, target: String, code: i32, message: String },
    CloudPublishSiteNotFound { domain: String, target: String },
    CloudPublishSiteUnavailable { domain: String, target: String, status: String },
    CloudPublishMetadataLookupFailed { domain: String, site_id: String, operation: &'static str, code: i32, message: String },
    CloudPublishRepositoryNotFound { domain: String, target: String, repo_id: String },
    CloudPublishRefsMissing { domain: String, target: String },
    CloudPublishRefNotFound { domain: String, target: String, selector: String },
    CloudPublishRefAmbiguous { domain: String, target: String, selector: String, matches: String },
    CloudPublishDefaultRefMissing { domain: String, target: String },
    CloudPublishLatestRevisionMissing { domain: String, target: String },
    CloudPublishRevisionNotFound { domain: String, target: String, revision_oid: String },
    CloudPublishObjectIndexMissing { domain: String, target: String, repo_id: String },
    CloudPublishObjectMissing { domain: String, target: String, object_oid: String },
    CloudPublishObjectRestoreFailed { domain: String, target: String, message: String },
    CloudPublishRefsMetadataRestoreFailed { domain: String, target: String, message: String },
    CloudPublishAiRestoreFailed { domain: String, target: String, message: String },
    CloudPublishCheckoutSetupFailed { domain: String, target: String, message: String },
    CloudPublishObjectIndexInvalid { domain: String, target: String, object_oid: String, reason: String },
    InvalidCloudPublishSource { input: String, reason: String },
}

pub open spec fn clone_error_text(e: CloneError) -> Seq<char> {
    match e {
        CloneError::CannotInferDestination => "please specify the destination path explicitly"@,
        CloneError::DestinationExistsNonEmpty { path } => "destination path '"@ + path@ + "' already exists and is not an empty directory"@,
        CloneError::DestinationAlreadyRepo { path } => "destination path '"@ + path@ + "' already contains a libra repository"@,
        CloneError::CreateDestinationFailed { path, source } => "could not create directory '"@ + path@ + "': "@ + source@,
        CloneError::DiscoverRemote { .. } => "remote discovery failed"@,
        CloneError::ChangeDirectory { path, source } => "failed to change working directory to '"@ + path@ + "': "@ + source@,
        CloneError::RestoreDirectory { path, source } => "failed to restore working directory to '"@ + path@ + "': "@ + source@,
        CloneError::InitializeRepository { .. } => "failed to initialize repository"@,
        CloneError::RemoteBranchNotFound { branch } => "remote branch "@ + branch@ + " not found in upstream origin"@,
        CloneError::LocalBranchState { source } => "failed to inspect local branch state after fetch: "@ + branch_error_text(source),
        CloneError::FetchFailed { source } => "fetch failed: "@ + source.text@,
        CloneError::CheckoutFailed { .. } => "failed to checkout working tree"@,
        CloneError::IgnoreFile { .. } => "failed to convert ignore files"@,
        CloneError::SetupFailed { message } => "failed to complete clone setup: "@ + message@,
        CloneError::CloudCloneDomainNotConfigured { domain, .. } => "clone domain '"@ + domain@ + "' is not configured for libra+cloud restore"@,
        CloneError::CloudCloneD1ApiTokenNotConfigured { domain } => "D1 API token is not configured for clone domain '"@ + domain@ + "'"@,
        CloneError::CloudCloneD1ApiBaseUrlInvalid { domain, message } => "D1 API base URL is invalid for clone domain '"@ + domain@ + "': "@ + message@,
        CloneError::CloudCloneR2CredentialsNotConfigured { domain, .. } => "R2 credentials are not configured for clone domain '"@ + domain@ + "'"@,
        CloneError::CloudCloneR2ConfigRead { domain, source } => "failed to read R2 configuration for clone domain '"@ + domain@ + "': "@ + source@,
        CloneError::CloudCloneR2ClientBuildFailed { domain, message } => "failed to build R2 client for clone domain '"@ + domain@ + "': "@ + message@,
        CloneError::CloudCloneDomainConfigRead { domain, source } => "failed to read clone domain '"@ + domain@ + "' configuration: "@ + source@,
        CloneError::UnsupportedCloudCloneOption { option, reason, .. } => option@ + " is not supported with libra+cloud:// clone sources: "@ + reason@,
        CloneError::CloudPublishSiteLookupFailed { domain, target, code, message } => "failed to resolve libra+cloud site "@ + target@ + " in clone domain '"@ + domain@ + "' via D1 (code "@ + signed_decimal(code as int) + "): "@ + message@,
        CloneError::CloudPublishSiteNotFound { domain, target } => "libra+cloud site "@ + target@ + " was not found in clone domain '"@ + domain@ + "'"@,
        CloneError::CloudPublishSiteUnavailable { domain, target, status } => "libra+cloud site "@ + target@ + " in clone domain '"@ + domain@ + "' is not active: "@ + status@,
        CloneError::CloudPublishMetadataLookupFailed { domain, site_id, operation, code, message } => "failed to resolve libra+cloud metadata for site "@ + site_id@ + " in clone domain '"@ + domain@ + "' during "@ + operation@ + " (code "@ + signed_decimal(code as int) + "): "@ + message@,
        CloneError::CloudPublishRepositoryNotFound { domain, target, repo_id } => "libra+cloud site "@ + target@ + " in clone domain '"@ + domain@ + "' has no repositories row for repo_id "@ + repo_id@,
        CloneError::CloudPublishRefsMissing { domain, target } => "libra+cloud site "@ + target@ + " in clone domain '"@ + domain@ + "' has no published refs"@,
        CloneError::CloudPublishRefNotFound { domain, target, selector } => "libra+cloud ref selector '"@ + selector@ + "' did not match a published branch or tag for site "@ + target@ + " in clone domain '"@ + domain@ + "'"@,
        CloneError::CloudPublishRefAmbiguous { domain, target, selector, matches } => "libra+cloud ref selector '"@ + selector@ + "' is ambiguous for site "@ + target@ + " in clone domain '"@ + domain@ + "'; matches: "@ + matches@,
        CloneError::CloudPublishDefaultRefMissing { domain, target } => "libra+cloud site "@ + target@ + " in clone domain '"@ + domain@ + "' has no default_ref for clone checkout"@,
        CloneError::CloudPublishLatestRevisionMissing { domain, target } => "libra+cloud site "@ + target@ + " in clone domain '"@ + domain@ + "' has no latest_revision_oid for revision=latest"@,
        CloneError::CloudPublishRevisionNotFound { domain, target, revision_oid } => "published revision "@ + revision_oid@ + " for libra+cloud site "@ + target@ + " in clone domain '"@ + domain@ + "' was not found"@,
        CloneError::CloudPublishObjectIndexMissing { domain, target, repo_id } => "libra+cloud site "@ + target@ + " in clone domain '"@ + domain@ + "' has no object_index rows for repo_id "@ + repo_id@,
        CloneError::CloudPublishObjectMissing { domain, target, object_oid } => "R2 object "@ + object_oid@ + " for libra+cloud site "@ + target@ + " in clone domain '"@ + domain@ + "' is missing"@,
        CloneError::CloudPublishObjectRestoreFailed { domain, target, message } => "failed to restore R2 objects for libra+cloud site "@ + target@ + " in clone domain '"@ + domain@ + "': "@ + message@,
        CloneError::CloudPublishRefsMetadataRestoreFailed { domain, target, message } => "failed to restore refs metadata for libra+cloud site "@ + target@ + " in clone domain '"@ + domain@ + "': "@ + message@,
        CloneError::CloudPublishAiRestoreFailed { domain, target, message } => "failed to restore AI object model for libra+cloud site "@ + target@ + " in clone domain '"@ + domain@ + "': "@ + message@,
        CloneError::CloudPublishCheckoutSetupFailed { domain, target, message } => "failed to configure checkout for libra+cloud site "@ + target@ + " in clone domain '"@ + domain@ + "': "@ + message@,
        CloneError::CloudPublishObjectIndexInvalid { domain, target, object_oid, reason } => "object_index row "@ + object_oid@ + " for libra+cloud site "@ + target@ + " in clone domain '"@ + domain@ + "' is not a valid object id: "@ + reason@,
        CloneError::InvalidCloudPublishSource { input, reason } => "invalid libra+cloud clone source '"@ + input@ + "': "@ + reason@,
    }
}

impl CloneError {
    /// The text of the error.
    pub fn to_string(&self) -> (r: String)
        ensures
            r@ == clone_error_text(*self),
    {
        match self {
            CloneError::CannotInferDestination => "please specify the destination path explicitly".to_owned(),
            CloneError::DestinationExistsNonEmpty { path } => concat3("destination path '", path.as_str(), "' already exists and is not an empty directory"),
            CloneError::DestinationAlreadyRepo { path } => concat3("destination path '", path.as_str(), "' already contains a libra repository"),
            CloneError::CreateDestinationFailed { path, source } => concat4("could not create directory '", path.as_str(), "': ", source.as_str()),
            CloneError::DiscoverRemote { .. } => "remote discovery failed".to_owned(),
            CloneError::ChangeDirectory { path, source } => concat4("failed to change working directory to '", path.as_str(), "': ", source.as_str()),
            CloneError::RestoreDirectory { path, source } => concat4("failed to restore working directory to '", path.as_str(), "': ", source.as_str()),
            CloneError::InitializeRepository { .. } => "failed to initialize repository".to_owned(),
            CloneError::RemoteBranchNotFound { branch } => concat3("remote branch ", branch.as_str(), " not found in upstream origin"),
            CloneError::LocalBranchState { source } => {
                let source_text = source.to_string();
                concat2("failed to inspect local branch state after fetch: ", source_text.as_str())
            },
            CloneError::FetchFailed { source } => concat2("fetch failed: ", source.text.as_str()),
            CloneError::CheckoutFailed { .. } => "failed to checkout working tree".to_owned(),
            CloneError::IgnoreFile { .. } => "failed to convert ignore files".to_owned(),
            CloneError::SetupFailed { message } => concat2("failed to complete clone setup: ", message.as_str()),
            CloneError::CloudCloneDomainNotConfigured { domain, .. } => concat3("clone domain '", domain.as_str(), "' is not configured for libra+cloud restore"),
            CloneError::CloudCloneD1ApiTokenNotConfigured { domain } => concat3("D1 API token is not configured for clone domain '", domain.as_str(), "'"),
            CloneError::CloudCloneD1ApiBaseUrlInvalid { domain, message } => concat4("D1 API base URL is invalid for clone domain '", domain.as_str(), "': ", message.as_str()),
            CloneError::CloudCloneR2CredentialsNotConfigured { domain, .. } => concat3("R2 credentials are not configured for clone domain '", domain.as_str(), "'"),
            CloneError::CloudCloneR2ConfigRead { domain, source } => concat4("failed to read R2 configuration for clone domain '", domain.as_str(), "': ", source.as_str()),
            CloneError::CloudCloneR2ClientBuildFailed { domain, message } => concat4("failed to build R2 client for clone domain '", domain.as_str(), "': ", message.as_str()),
            CloneError::CloudCloneDomainConfigRead { domain, source } => concat4("failed to read clone domain '", domain.as_str(), "' configuration: ", source.as_str()),
            CloneError::UnsupportedCloudCloneOption { option, reason, .. } => concat3(option, " is not supported with libra+cloud:// clone sources: ", reason),
            CloneError::CloudPublishSiteLookupFailed { domain, target, code, message } => {
                let code_text = signed_text(*code);
                let head = concat7("failed to resolve libra+cloud site ", target.as_str(), " in clone domain '", domain.as_str(), "' via D1 (code ", code_text.as_str(), "): ");
                concat2(head.as_str(), message.as_str())
            },
            CloneError::CloudPublishSiteNotFound { domain, target } => concat5("libra+cloud site ", target.as_str(), " was not found in clone domain '", domain.as_str(), "'"),
            CloneError::CloudPublishSiteUnavailable { domain, target, status } => concat6("libra+cloud site ", target.as_str(), " in clone domain '", domain.as_str(), "' is not active: ", status.as_str()),
            CloneError::CloudPublishMetadataLookupFailed { domain, site_id, operation, code, message } => {
                let code_text = signed_text(*code);
                let head = concat7("failed to resolve libra+cloud metadata for site ", site_id.as_str(), " in clone domain '", domain.as_str(), "' during ", operation, " (code ");
                concat4(head.as_str(), code_text.as_str(), "): ", message.as_str())
            },
            CloneError::CloudPublishRepositoryNotFound { domain, target, repo_id } => concat6("libra+cloud site ", target.as_str(), " in clone domain '", domain.as_str(), "' has no repositories row for repo_id ", repo_id.as_str()),
            CloneError::CloudPublishRefsMissing { domain, target } => concat5("libra+cloud site ", target.as_str(), " in clone domain '", domain.as_str(), "' has no published refs"),
            CloneError::CloudPublishRefNotFound { domain, target, selector } => concat7("libra+cloud ref selector '", selector.as_str(), "' did not match a published branch or tag for site ", target.as_str(), " in clone domain '", domain.as_str(), "'"),
            CloneError::CloudPublishRefAmbiguous { domain, target, selector, matches } => {
                let head = concat7("libra+cloud ref selector '", selector.as_str(), "' is ambiguous for site ", target.as_str(), " in clone domain '", domain.as_str(), "'; matches: ");
                concat2(head.as_str(), matches.as_str())
            },
            CloneError::CloudPublishDefaultRefMissing { domain, target } => concat5("libra+cloud site ", target.as_str(), " in clone domain '", domain.as_str(), "' has no default_ref for clone checkout"),
            CloneError::CloudPublishLatestRevisionMissing { domain, target } => concat5("libra+cloud site ", target.as_str(), " in clone domain '", domain.as_str(), "' has no latest_revision_oid for revision=latest"),
            CloneError::CloudPublishRevisionNotFound { domain, target, revision_oid } => concat7("published revision ", revision_oid.as_str(), " for libra+cloud site ", target.as_str(), " in clone domain '", domain.as_str(), "' was not found"),
            CloneError::CloudPublishObjectIndexMissing { domain, target, repo_id } => concat6("libra+cloud site ", target.as_str(), " in clone domain '", domain.as_str(), "' has no object_index rows for repo_id ", repo_id.as_str()),
            CloneError::CloudPublishObjectMissing { domain, target, object_oid } => concat7("R2 object ", object_oid.as_str(), " for libra+cloud site ", target.as_str(), " in clone domain '", domain.as_str(), "' is missing"),
            CloneError::CloudPublishObjectRestoreFailed { domain, target, message } => concat6("failed to restore R2 objects for libra+cloud site ", target.as_str(), " in clone domain '", domain.as_str(), "': ", message.as_str()),
            CloneError::CloudPublishRefsMetadataRestoreFailed { domain, target, message } => concat6("failed to restore refs metadata for libra+cloud site ", target.as_str(), " in clone domain '", domain.as_str(), "': ", message.as_str()),
            CloneError::CloudPublishAiRestoreFailed { domain, target, message } => concat6("failed to restore AI object model for libra+cloud site ", target.as_str(), " in clone domain '", domain.as_str(), "': ", message.as_str()),
            CloneError::CloudPublishCheckoutSetupFailed { domain, target, message } => concat6("failed to configure checkout for libra+cloud site ", target.as_str(), " in clone domain '", domain.as_str(), "': ", message.as_str()),
            CloneError::CloudPublishObjectIndexInvalid { domain, target, object_oid, reason } => {
                let head = concat7("object_index row ", object_oid.as_str(), " for libra+cloud site ", target.as_str(), " in clone domain '", domain.as_str(), "' is not a valid object id: ");
                concat2(head.as_str(), reason.as_str())
            },
            CloneError::InvalidCloudPublishSource { input, reason } => concat4("invalid libra+cloud clone source '", input.as_str(), "': ", reason.as_str()),
        }
    }
}

/// The code for a lookup that the metadata service refused, or that did not reach it.
pub open spec fn lookup_code(code: i32) -> StableErrorCode {
    if code == 401 || code == 403 || code == 1002 {
        StableErrorCode::AuthPermissionDenied
    } else {
        StableErrorCode::NetworkUnavailable
    }
}

fn lookup_stable_code(code: i32) -> (r: StableErrorCode)
    ensures
        r == lookup_code(code),
{
    if code == 401 || code == 403 || code == 1002 {
        StableErrorCode::AuthPermissionDenied
    } else {
        StableErrorCode::NetworkUnavailable
    }
}

/// The command error for each way not to clone.
pub open spec fn clone_error_view(e: CloneError) -> ErrorView {
    let text = clone_error_text(e);
    match e {
        CloneError::CannotInferDestination => ErrorView::usage(text).coded(StableErrorCode::CliInvalidArguments).hint("please specify the destination path explicitly"@),
        CloneError::DestinationExistsNonEmpty { .. } => ErrorView::usage(text).coded(StableErrorCode::CliInvalidTarget).hint("choose a different path or empty the directory first"@),
        CloneError::DestinationAlreadyRepo { .. } => ErrorView::fatal(text).coded(StableErrorCode::RepoStateInvalid).hint("the destination already contains a libra repository"@),
        CloneError::CreateDestinationFailed { .. } => ErrorView::fatal(text).coded(StableErrorCode::IoWriteFailed).hint("check directory permissions and disk space"@),
        CloneError::DiscoverRemote { source } => discover_error_view(source),
        CloneError::ChangeDirectory { .. } => ErrorView::fatal(text).coded(StableErrorCode::InternalInvariant).hint("please report this issue at: https://github.com/web3infra-foundation/libra/issues"@),
        CloneError::RestoreDirectory { .. } => ErrorView::fatal(text).coded(StableErrorCode::InternalInvariant).hint("please report this issue at: https://github.com/web3infra-foundation/libra/issues"@),
        CloneError::InitializeRepository { source } => source@,
        CloneError::RemoteBranchNotFound { branch } => ErrorView::fatal("remote branch '"@ + branch@ + "' not found in upstream origin"@).coded(StableErrorCode::RepoStateInvalid).hint("use `-b <branch>` to specify an existing branch, or omit to use remote HEAD"@),
        CloneError::LocalBranchState { source } => branch_state_view(source).hint("run 'libra status' to verify the local repository state"@),
        CloneError::FetchFailed { source } => fetch_error_view(source),
        CloneError::CheckoutFailed { source } => checkout_error_view(source),
        CloneError::IgnoreFile { source } => ErrorView::fatal(source.text@).coded(if source.is_write { StableErrorCode::IoWriteFailed } else { StableErrorCode::IoReadFailed }).hint(source.recovery_hint@),
        CloneError::SetupFailed { .. } => ErrorView::fatal(text).coded(StableErrorCode::InternalInvariant).hint("please report this issue at: https://github.com/web3infra-foundation/libra/issues"@),
        CloneError::CloudCloneDomainNotConfigured { domain, missing_keys } => ErrorView::fatal(text).coded(StableErrorCode::AuthMissingCredentials).detail("clone_domain"@, domain@).detail("missing_keys"@, missing_keys@).hint("configure cloud.clone_domains."@ + domain@ + ".account_id, cloud.clone_domains."@ + domain@ + ".d1_database_id, and cloud.clone_domains."@ + domain@ + ".r2_bucket, and set LIBRA_D1_API_TOKEN before cloning this source."@),
        CloneError::CloudCloneD1ApiTokenNotConfigured { domain } => ErrorView::fatal(text).coded(StableErrorCode::AuthMissingCredentials).detail("clone_domain"@, domain@).detail("missing_keys"@, "vault.env.LIBRA_D1_API_TOKEN or LIBRA_D1_API_TOKEN"@).hint("set vault.env.LIBRA_D1_API_TOKEN with `libra config set`, or export LIBRA_D1_API_TOKEN, so the CLI can query the configured D1 database."@),
        CloneError::CloudCloneD1ApiBaseUrlInvalid { domain, message } => ErrorView::usage(text).coded(StableErrorCode::CliInvalidArguments).detail("clone_domain"@, domain@).detail("d1_api_base_url_error"@, message@).hint("unset LIBRA_D1_API_BASE_URL or set it to a valid Cloudflare-compatible API root."@),
        CloneError::CloudCloneR2CredentialsNotConfigured { domain, missing_keys } => ErrorView::fatal(text).coded(StableErrorCode::AuthMissingCredentials).detail("clone_domain"@, domain@).detail("missing_keys"@, missing_keys@).hint("set vault.env.LIBRA_STORAGE_ENDPOINT, vault.env.LIBRA_STORAGE_ACCESS_KEY, and vault.env.LIBRA_STORAGE_SECRET_KEY with `libra config set`, or export the matching LIBRA_STORAGE_* variables."@),
        CloneError::CloudCloneR2ConfigRead { domain, .. } => ErrorView::fatal(text).coded(StableErrorCode::IoReadFailed).detail("clone_domain"@, domain@).hint("check the local/global Libra config database and vault state."@),
        CloneError::CloudCloneR2ClientBuildFailed { domain, message } => ErrorView::fatal(text).coded(StableErrorCode::NetworkProtocol).detail("clone_domain"@, domain@).detail("r2_error_message"@, message@).hint("check the R2 endpoint, bucket, region, and access credentials."@),
        CloneError::CloudCloneDomainConfigRead { domain, .. } => ErrorView::fatal(text).coded(StableErrorCode::IoReadFailed).detail("clone_domain"@, domain@).hint("check the local/global Libra config database and vault state."@),
        CloneError::UnsupportedCloudCloneOption { option, hint, .. } => ErrorView::usage(text).coded(StableErrorCode::CliInvalidArguments).detail("option"@, option@).hint(hint@),
        CloneError::CloudPublishSiteLookupFailed { domain, target, code, message } => ErrorView::fatal(text).coded(lookup_code(code)).detail("clone_domain"@, domain@).detail("cloud_target"@, target@).detail("d1_error_code"@, signed_decimal(code as int)).detail("d1_error_message"@, message@).hint("check the D1 database id, API token, account id, and network access."@),
        CloneError::CloudPublishSiteNotFound { domain, target } => ErrorView::fatal(text).coded(StableErrorCode::RepoNotFound).detail("clone_domain"@, domain@).detail("cloud_target"@, target@).hint("check the clone domain, slug/repo id, or publish the site before cloning."@),
        CloneError::CloudPublishSiteUnavailable { domain, target, status } => ErrorView::fatal(text).coded(StableErrorCode::RepoStateInvalid).detail("clone_domain"@, domain@).detail("cloud_target"@, target@).detail("cloud_site_status"@, status@).hint("enable the publish site before cloning it from libra+cloud://."@),
        CloneError::CloudPublishMetadataLookupFailed { domain, site_id, operation, code, message } => ErrorView::fatal(text).coded(lookup_code(code)).detail("clone_domain"@, domain@).detail("cloud_site_id"@, site_id@).detail("cloud_lookup"@, operation@).detail("d1_error_code"@, signed_decimal(code as int)).detail("d1_error_message"@, message@).hint("check the D1 database id, API token, account id, and publish schema."@),
        CloneError::CloudPublishRepositoryNotFound { domain, target, repo_id } => ErrorView::fatal(text).coded(StableErrorCode::RepoNotFound).detail("clone_domain"@, domain@).detail("cloud_target"@, target@).detail("cloud_repo_id"@, repo_id@).hint("run 'libra cloud sync' for this repository before cloud clone."@),
        CloneError::CloudPublishRefsMissing { domain, target } => ErrorView::fatal(text).coded(StableErrorCode::RepoStateInvalid).detail("clone_domain"@, domain@).detail("cloud_target"@, target@).hint("run a full 'libra publish sync' so D1 publish_refs are available."@),
        CloneError::CloudPublishRefNotFound { domain, target, selector } => ErrorView::fatal(text).coded(StableErrorCode::CliInvalidTarget).detail("clone_domain"@, domain@).detail("cloud_target"@, target@).detail("cloud_selector"@, "ref:"@ + selector@).hint("use a published full ref such as 'refs/heads/main' or 'refs/tags/v1.0.0'."@),
        CloneError::CloudPublishRefAmbiguous { domain, target, selector, matches } => ErrorView::fatal(text).coded(StableErrorCode::CliInvalidTarget).detail("clone_domain"@, domain@).detail("cloud_target"@, target@).detail("cloud_selector"@, "ref:"@ + selector@).detail("cloud_ref_matches"@, matches@).hint("branch and tag short names conflict; use the complete ref name in ?ref=."@),
        CloneError::CloudPublishDefaultRefMissing { domain, target } => ErrorView::fatal(text).coded(StableErrorCode::RepoStateInvalid).detail("clone_domain"@, domain@).detail("cloud_target"@, target@).hint("run a full 'libra publish sync' so publish_sites.default_ref is populated."@),
        CloneError::CloudPublishLatestRevisionMissing { domain, target } => ErrorView::fatal(text).coded(StableErrorCode::RepoStateInvalid).detail("clone_domain"@, domain@).detail("cloud_target"@, target@).hint("run a full 'libra publish sync' so publish_sites.latest_revision_oid is populated."@),
        CloneError::CloudPublishRevisionNotFound { domain, target, revision_oid } => ErrorView::fatal(text).coded(StableErrorCode::RepoStateInvalid).detail("clone_domain"@, domain@).detail("cloud_target"@, target@).detail("cloud_revision_oid"@, revision_oid@).hint("rerun 'libra publish sync' so the selected revision is marked published."@),
        CloneError::CloudPublishObjectIndexMissing { domain, target, repo_id } => ErrorView::fatal(text).coded(StableErrorCode::RepoStateInvalid).detail("clone_domain"@, domain@).detail("cloud_target"@, target@).detail("cloud_repo_id"@, repo_id@).hint("run 'libra cloud sync --force' so D1 object_index contains git objects."@),
        CloneError::CloudPublishObjectMissing { domain, target, object_oid } => ErrorView::fatal(text).coded(StableErrorCode::RepoCorrupt).detail("clone_domain"@, domain@).detail("cloud_target"@, target@).detail("object_oid"@, object_oid@).hint("run 'libra cloud sync --force' and then 'libra publish sync' again before cloning."@),
        CloneError::CloudPublishObjectRestoreFailed { domain, target, message } => ErrorView::fatal(text).coded(StableErrorCode::RepoCorrupt).detail("clone_domain"@, domain@).detail("cloud_target"@, target@).detail("restore_error"@, message@).hint("run 'libra cloud sync --force' and then 'libra publish sync' again before cloning."@),
        CloneError::CloudPublishRefsMetadataRestoreFailed { domain, target, message } => ErrorView::fatal(text).coded(StableErrorCode::RepoCorrupt).detail("clone_domain"@, domain@).detail("cloud_target"@, target@).detail("restore_error"@, message@).hint("run 'libra cloud sync --force' so refs metadata is available in R2."@),
        CloneError::CloudPublishAiRestoreFailed { domain, target, message } => ErrorView::fatal(text).coded(StableErrorCode::RepoCorrupt).detail("clone_domain"@, domain@).detail("cloud_target"@, target@).detail("restore_error"@, message@).hint("rerun 'libra publish sync' so AI object model R2/D1 rows agree."@),
        CloneError::CloudPublishCheckoutSetupFailed { domain, target, message } => ErrorView::fatal(text).coded(StableErrorCode::RepoStateInvalid).detail("clone_domain"@, domain@).detail("cloud_target"@, target@).detail("checkout_error"@, message@).hint("check that the selected published ref points to a commit."@),
        CloneError::CloudPublishObjectIndexInvalid { domain, target, object_oid, reason } => ErrorView::fatal(text).coded(StableErrorCode::RepoCorrupt).detail("clone_domain"@, domain@).detail("cloud_target"@, target@).detail("object_oid"@, object_oid@).detail("reason"@, reason@).hint("repair the D1 object_index row before cloud clone can restore it."@),
        CloneError::InvalidCloudPublishSource { .. } => ErrorView::usage(text).coded(StableErrorCode::CliInvalidArguments).hint("use `libra+cloud://<clone-domain>/<slug>` or `libra+cloud://<clone-domain>/repo/<repo_id>`; pass only one of `?ref=<branch|tag|full-ref>` or `?revision=<oid|latest>`"@),
    }
}

impl CliError {
    /// The command error for a clone error.
    pub fn from_clone_error(error: &CloneError) -> (r: CliError)
        ensures
            r@ == clone_error_view(*error),
    {
        let text = error.to_string();
        match error {
            CloneError::CannotInferDestination => CliError::command_usage(text).with_stable_code(StableErrorCode::CliInvalidArguments).with_hint("please specify the destination path explicitly"),
            CloneError::DestinationExistsNonEmpty { .. } => CliError::command_usage(text).with_stable_code(StableErrorCode::CliInvalidTarget).with_hint("choose a different path or empty the directory first"),
            CloneError::DestinationAlreadyRepo { .. } => CliError::fatal(text).with_stable_code(StableErrorCode::RepoStateInvalid).with_hint("the destination already contains a libra repository"),
            CloneError::CreateDestinationFailed { .. } => CliError::fatal(text).with_stable_code(StableErrorCode::IoWriteFailed).with_hint("check directory permissions and disk space"),
            CloneError::DiscoverRemote { source } => map_discover_remote_error(source),
            CloneError::ChangeDirectory { .. } => CliError::fatal(text).with_stable_code(StableErrorCode::InternalInvariant).with_hint("please report this issue at: https://github.com/web3infra-foundation/libra/issues"),
            CloneError::RestoreDirectory { .. } => CliError::fatal(text).with_stable_code(StableErrorCode::InternalInvariant).with_hint("please report this issue at: https://github.com/web3infra-foundation/libra/issues"),
            CloneError::InitializeRepository { source } => copy_cli_error(source),
            CloneError::RemoteBranchNotFound { branch } => CliError::fatal(concat3("remote branch '", branch.as_str(), "' not found in upstream origin")).with_stable_code(StableErrorCode::RepoStateInvalid).with_hint("use `-b <branch>` to specify an existing branch, or omit to use remote HEAD"),
            CloneError::LocalBranchState { source } => map_local_branch_state_error(source).with_hint("run 'libra status' to verify the local repository state"),
            CloneError::FetchFailed { source } => map_fetch_error(source),
            CloneError::CheckoutFailed { source } => map_checkout_error(source),
            CloneError::IgnoreFile { source } => CliError::fatal(source.text.clone()).with_stable_code(if source.is_write { StableErrorCode::IoWriteFailed } else { StableErrorCode::IoReadFailed }).with_hint(source.recovery_hint.as_str()),
            CloneError::SetupFailed { .. } => CliError::fatal(text).with_stable_code(StableErrorCode::InternalInvariant).with_hint("please report this issue at: https://github.com/web3infra-foundation/libra/issues"),
            CloneError::CloudCloneDomainNotConfigured { domain, missing_keys } => {
                let hint_text = concat7("configure cloud.clone_domains.", domain.as_str(), ".account_id, cloud.clone_domains.", domain.as_str(), ".d1_database_id, and cloud.clone_domains.", domain.as_str(), ".r2_bucket, and set LIBRA_D1_API_TOKEN before cloning this source.");
                CliError::fatal(text).with_stable_code(StableErrorCode::AuthMissingCredentials).with_detail("clone_domain", domain.as_str()).with_detail("missing_keys", missing_keys.as_str()).with_hint(hint_text.as_str())
            },
            CloneError::CloudCloneD1ApiTokenNotConfigured { domain } => CliError::fatal(text).with_stable_code(StableErrorCode::AuthMissingCredentials).with_detail("clone_domain", domain.as_str()).with_detail("missing_keys", "vault.env.LIBRA_D1_API_TOKEN or LIBRA_D1_API_TOKEN").with_hint("set vault.env.LIBRA_D1_API_TOKEN with `libra config set`, or export LIBRA_D1_API_TOKEN, so the CLI can query the configured D1 database."),
            CloneError::CloudCloneD1ApiBaseUrlInvalid { domain, message } => CliError::command_usage(text).with_stable_code(StableErrorCode::CliInvalidArguments).with_detail("clone_domain", domain.as_str()).with_detail("d1_api_base_url_error", message.as_str()).with_hint("unset LIBRA_D1_API_BASE_URL or set it to a valid Cloudflare-compatible API root."),
            CloneError::CloudCloneR2CredentialsNotConfigured { domain, missing_keys } => CliError::fatal(text).with_stable_code(StableErrorCode::AuthMissingCredentials).with_detail("clone_domain", domain.as_str()).with_detail("missing_keys", missing_keys.as_str()).with_hint("set vault.env.LIBRA_STORAGE_ENDPOINT, vault.env.LIBRA_STORAGE_ACCESS_KEY, and vault.env.LIBRA_STORAGE_SECRET_KEY with `libra config set`, or export the matching LIBRA_STORAGE_* variables."),
            CloneError::CloudCloneR2ConfigRead { domain, .. } => CliError::fatal(text).with_stable_code(StableErrorCode::IoReadFailed).with_detail("clone_domain", domain.as_str()).with_hint("check the local/global Libra config database and vault state."),
            CloneError::CloudCloneR2ClientBuildFailed { domain, message } => CliError::fatal(text).with_stable_code(StableErrorCode::NetworkProtocol).with_detail("clone_domain", domain.as_str()).with_detail("r2_error_message", message.as_str()).with_hint("check the R2 endpoint, bucket, region, and access credentials."),
            CloneError::CloudCloneDomainConfigRead { domain, .. } => CliError::fatal(text).with_stable_code(StableErrorCode::IoReadFailed).with_detail("clone_domain", domain.as_str()).with_hint("check the local/global Libra config database and vault state."),
            CloneError::UnsupportedCloudCloneOption { option, hint, .. } => CliError::command_usage(text).with_stable_code(StableErrorCode::CliInvalidArguments).with_detail("option", option).with_hint(hint),
            CloneError::CloudPublishSiteLookupFailed { domain, target, code, message } => {
                let code_text = signed_text(*code);
                CliError::fatal(text).with_stable_code(lookup_stable_code(*code)).with_detail("clone_domain", domain.as_str()).with_detail("cloud_target", target.as_str()).with_detail("d1_error_code", code_text.as_str()).with_detail("d1_error_message", message.as_str()).with_hint("check the D1 database id, API token, account id, and network access.")
            },
            CloneError::CloudPublishSiteNotFound { domain, target } => CliError::fatal(text).with_stable_code(StableErrorCode::RepoNotFound).with_detail("clone_domain", domain.as_str()).with_detail("cloud_target", target.as_str()).with_hint("check the clone domain, slug/repo id, or publish the site before cloning."),
            CloneError::CloudPublishSiteUnavailable { domain, target, status } => CliError::fatal(text).with_stable_code(StableErrorCode::RepoStateInvalid).with_detail("clone_domain", domain.as_str()).with_detail("cloud_target", target.as_str()).with_detail("cloud_site_status", status.as_str()).with_hint("enable the publish site before cloning it from libra+cloud://."),
            CloneError::CloudPublishMetadataLookupFailed { domain, site_id, operation, code, message } => {
                let code_text = signed_text(*code);
                CliError::fatal(text).with_stable_code(lookup_stable_code(*code)).with_detail("clone_domain", domain.as_str()).with_detail("cloud_site_id", site_id.as_str()).with_detail("cloud_lookup", operation).with_detail("d1_error_code", code_text.as_str()).with_detail("d1_error_message", message.as_str()).with_hint("check the D1 database id, API token, account id, and publish schema.")
            },
            CloneError::CloudPublishRepositoryNotFound { domain, target, repo_id } => CliError::fatal(text).with_stable_code(StableErrorCode::RepoNotFound).with_detail("clone_domain", domain.as_str()).with_detail("cloud_target", target.as_str()).with_detail("cloud_repo_id", repo_id.as_str()).with_hint("run 'libra cloud sync' for this repository before cloud clone."),
            CloneError::CloudPublishRefsMissing { domain, target } => CliError::fatal(text).with_stable_code(StableErrorCode::RepoStateInvalid).with_detail("clone_domain", domain.as_str()).with_detail("cloud_target", target.as_str()).with_hint("run a full 'libra publish sync' so D1 publish_refs are available."),
            CloneError::CloudPublishRefNotFound { domain, target, selector } => {
                let cloud_selector_text = concat2("ref:", selector.as_str());
                CliError::fatal(text).with_stable_code(StableErrorCode::CliInvalidTarget).with_detail("clone_domain", domain.as_str()).with_detail("cloud_target", target.as_str()).with_detail("cloud_selector", cloud_selector_text.as_str()).with_hint("use a published full ref such as 'refs/heads/main' or 'refs/tags/v1.0.0'.")
            },
            CloneError::CloudPublishRefAmbiguous { domain, target, selector, matches } => {
                let cloud_selector_text = concat2("ref:", selector.as_str());
                CliError::fatal(text).with_stable_code(StableErrorCode::CliInvalidTarget).with_detail("clone_domain", domain.as_str()).with_detail("cloud_target", target.as_str()).with_detail("cloud_selector", cloud_selector_text.as_str()).with_detail("cloud_ref_matches", matches.as_str()).with_hint("branch and tag short names conflict; use the complete ref name in ?ref=.")
            },
            CloneError::CloudPublishDefaultRefMissing { domain, target } => CliError::fatal(text).with_stable_code(StableErrorCode::RepoStateInvalid).with_detail("clone_domain", domain.as_str()).with_detail("cloud_target", target.as_str()).with_hint("run a full 'libra publish sync' so publish_sites.default_ref is populated."),
            CloneError::CloudPublishLatestRevisionMissing { domain, target } => CliError::fatal(text).with_stable_code(StableErrorCode::RepoStateInvalid).with_detail("clone_domain", domain.as_str()).with_detail("cloud_target", target.as_str()).with_hint("run a full 'libra publish sync' so publish_sites.latest_revision_oid is populated."),
            CloneError::CloudPublishRevisionNotFound { domain, target, revision_oid } => CliError::fatal(text).with_stable_code(StableErrorCode::RepoStateInvalid).with_detail("clone_domain", domain.as_str()).with_detail("cloud_target", target.as_str()).with_detail("cloud_revision_oid", revision_oid.as_str()).with_hint("rerun 'libra publish sync' so the selected revision is marked published."),
            CloneError::CloudPublishObjectIndexMissing { domain, target, repo_id } => CliError::fatal(text).with_stable_code(StableErrorCode::RepoStateInvalid).with_detail("clone_domain", domain.as_str()).with_detail("cloud_target", target.as_str()).with_detail("cloud_repo_id", repo_id.as_str()).with_hint("run 'libra cloud sync --force' so D1 object_index contains git objects."),
            CloneError::CloudPublishObjectMissing { domain, target, object_oid } => CliError::fatal(text).with_stable_code(StableErrorCode::RepoCorrupt).with_detail("clone_domain", domain.as_str()).with_detail("cloud_target", target.as_str()).with_detail("object_oid", object_oid.as_str()).with_hint("run 'libra cloud sync --force' and then 'libra publish sync' again before cloning."),
            CloneError::CloudPublishObjectRestoreFailed { domain, target, message } => CliError::fatal(text).with_stable_code(StableErrorCode::RepoCorrupt).with_detail("clone_domain", domain.as_str()).with_detail("cloud_target", target.as_str()).with_detail("restore_error", message.as_str()).with_hint("run 'libra cloud sync --force' and then 'libra publish sync' again before cloning."),
            CloneError::CloudPublishRefsMetadataRestoreFailed { domain, target, message } => CliError::fatal(text).with_stable_code(StableErrorCode::RepoCorrupt).with_detail("clone_domain", domain.as_str()).with_detail("cloud_target", target.as_str()).with_detail("restore_error", message.as_str()).with_hint("run 'libra cloud sync --force' so refs metadata is available in R2."),
            CloneError::CloudPublishAiRestoreFailed { domain, target, message } => CliError::fatal(text).with_stable_code(StableErrorCode::RepoCorrupt).with_detail("clone_domain", domain.as_str()).with_detail("cloud_target", target.as_str()).with_detail("restore_error", message.as_str()).with_hint("rerun 'libra publish sync' so AI object model R2/D1 rows agree."),
            CloneError::CloudPublishCheckoutSetupFailed { domain, target, message } => CliError::fatal(text).with_stable_code(StableErrorCode::RepoStateInvalid).with_detail("clone_domain", domain.as_str()).with_detail("cloud_target", target.as_str()).with_detail("checkout_error", message.as_str()).with_hint("check that the selected published ref points to a commit."),
            CloneError::CloudPublishObjectIndexInvalid { domain, target, object_oid, reason } => CliError::fatal(text).with_stable_code(StableErrorCode::RepoCorrupt).with_detail("clone_domain", domain.as_str()).with_detail("cloud_target", target.as_str()).with_detail("object_oid", object_oid.as_str()).with_detail("reason", reason.as_str()).with_hint("repair the D1 object_index row before cloud clone can restore it."),
            CloneError::InvalidCloudPublishSource { .. } => CliError::command_usage(text).with_stable_code(StableErrorCode::CliInvalidArguments).with_hint("use `libra+cloud://<clone-domain>/<slug>` or `libra+cloud://<clone-domain>/repo/<repo_id>`; pass only one of `?ref=<branch|tag|full-ref>` or `?revision=<oid|latest>`"),
        }
    }
}

/// What is said of a clone that failed is a wrong use of the command where its arguments are wrong; the
/// code says whether the repository, the network, the configuration or the cloud was at fault; and a
/// failure of something else is told as that.
pub proof fn law_clone_errors_are_told(e: CloneError)
    ensures
        ({
            let v = clone_error_view(e);
            let others = e is DiscoverRemote || e is InitializeRepository || e is FetchFailed
                || e is CheckoutFailed;
            &&& e matches CloneError::DiscoverRemote { source } ==> v == discover_error_view(source)
            &&& e matches CloneError::InitializeRepository { source } ==> v == source@
            &&& e matches CloneError::FetchFailed { source } ==> v == fetch_error_view(source)
            &&& e matches CloneError::CheckoutFailed { source } ==> v == checkout_error_view(source)
            &&& !others ==> v.exit is None && v.hints.len() == 1
            &&& !others ==> (v.kind == CliErrorKind::CommandUsage <==> e is CannotInferDestination
                || e is DestinationExistsNonEmpty || e is CloudCloneD1ApiBaseUrlInvalid
                || e is UnsupportedCloudCloneOption || e is InvalidCloudPublishSource)
            &&& !others ==> v.kind == CliErrorKind::CommandUsage || v.kind == CliErrorKind::Fatal
            &&& !others && !(e is RemoteBranchNotFound) && !(e is LocalBranchState) && !(e is IgnoreFile)
                ==> v.message == clone_error_text(e)
            &&& e matches CloneError::RemoteBranchNotFound { branch } ==> v.message == "remote branch '"@
                + branch@ + "' not found in upstream origin"@
            &&& e matches CloneError::IgnoreFile { source } ==> v.message == source.text@ && v.hints
                == seq![source.recovery_hint@] && v.code == Some(
                if source.is_write {
                    StableErrorCode::IoWriteFailed
                } else {
                    StableErrorCode::IoReadFailed
                },
            )
        }),
{
}

/// The codes of what can go wrong with a clone.
pub proof fn law_codes_of_clone_errors(e: CloneError)
    requires
        !(e is DiscoverRemote),
        !(e is InitializeRepository),
        !(e is FetchFailed),
        !(e is CheckoutFailed),
        !(e is LocalBranchState),
        !(e is IgnoreFile),
    ensures
        ({
            let code = clone_error_view(e).code;
            &&& code == Some(StableErrorCode::CliInvalidArguments) <==> e is CannotInferDestination
                || e is CloudCloneD1ApiBaseUrlInvalid || e is UnsupportedCloudCloneOption
                || e is InvalidCloudPublishSource
            &&& code == Some(StableErrorCode::CliInvalidTarget) <==> e is DestinationExistsNonEmpty
                || e is CloudPublishRefNotFound || e is CloudPublishRefAmbiguous
            &&& code == Some(StableErrorCode::IoWriteFailed) <==> e is CreateDestinationFailed
            &&& code == Some(StableErrorCode::IoReadFailed) <==> e is CloudCloneR2ConfigRead
                || e is CloudCloneDomainConfigRead
            &&& code == Some(StableErrorCode::InternalInvariant) <==> e is ChangeDirectory
                || e is RestoreDirectory || e is SetupFailed
            &&& code == Some(StableErrorCode::AuthMissingCredentials) <==> e is CloudCloneDomainNotConfigured
                || e is CloudCloneD1ApiTokenNotConfigured || e is CloudCloneR2CredentialsNotConfigured
            &&& code == Some(StableErrorCode::NetworkProtocol) <==> e is CloudCloneR2ClientBuildFailed
            &&& code == Some(StableErrorCode::RepoNotFound) <==> e is CloudPublishSiteNotFound
                || e is CloudPublishRepositoryNotFound
            &&& code == Some(StableErrorCode::RepoCorrupt) <==> e is CloudPublishObjectMissing
                || e is CloudPublishObjectRestoreFailed || e is CloudPublishRefsMetadataRestoreFailed
                || e is CloudPublishAiRestoreFailed || e is CloudPublishObjectIndexInvalid
            &&& code == Some(StableErrorCode::RepoStateInvalid) <==> e is DestinationAlreadyRepo
                || e is RemoteBranchNotFound || e is CloudPublishSiteUnavailable || e is CloudPublishRefsMissing
                || e is CloudPublishDefaultRefMissing || e is CloudPublishLatestRevisionMissing
                || e is CloudPublishRevisionNotFound || e is CloudPublishObjectIndexMissing
                || e is CloudPublishCheckoutSetupFailed
            &&& e matches CloneError::CloudPublishSiteLookupFailed { code: c, .. } ==> {
                &&& c == 401 || c == 403 || c == 1002 ==> code == Some(StableErrorCode::AuthPermissionDenied)
                &&& c != 401 && c != 403 && c != 1002 ==> code == Some(StableErrorCode::NetworkUnavailable)
            }
            &&& e matches CloneError::CloudPublishMetadataLookupFailed { code: c, .. } ==> {
                &&& c == 401 || c == 403 || c == 1002 ==> code == Some(StableErrorCode::AuthPermissionDenied)
                &&& c != 401 && c != 403 && c != 1002 ==> code == Some(StableErrorCode::NetworkUnavailable)
            }
        }),
{
}

/// What is told of a remote that could not be asked, by what stopped it.
pub proof fn law_codes_of_discovery_errors(e: FetchError)
    ensures
        ({
            let v = discover_error_view(e);
            &&& e.text@.is_suffix_of(v.message)
            &&& v.kind == CliErrorKind::CommandUsage <==> v.code == Some(StableErrorCode::CliInvalidTarget)
            &&& v.code == Some(StableErrorCode::CliInvalidTarget) <==> e.kind
                == FetchErrorKind::InvalidRemoteSpec(RemoteSpecErrorKind::MalformedUrl) || e.kind
                == FetchErrorKind::InvalidRemoteSpec(RemoteSpecErrorKind::UnsupportedScheme)
            &&& v.code == Some(StableErrorCode::RepoNotFound) <==> e.kind == FetchErrorKind::InvalidRemoteSpec(
                RemoteSpecErrorKind::MissingLocalRepo,
            ) || e.kind == FetchErrorKind::InvalidRemoteSpec(RemoteSpecErrorKind::InvalidLocalRepo)
            &&& v.code == Some(StableErrorCode::AuthPermissionDenied) <==> e.kind == FetchErrorKind::Discovery(
                DiscoveryFault::UnAuthorized,
            )
            &&& v.code == Some(StableErrorCode::NetworkUnavailable) <==> e.kind == FetchErrorKind::Discovery(
                DiscoveryFault::NetworkError,
            )
            &&& v.code == Some(StableErrorCode::IoReadFailed) <==> e.kind == FetchErrorKind::Discovery(
                DiscoveryFault::IOError,
            )
        }),
{
}

/// What is told of a transfer, of a checkout and of a branch that failed, by what stopped it.
pub proof fn law_codes_of_other_errors(f: FetchError, c: RestoreError, b: BranchStoreError)
    ensures
        ({
            let v = fetch_error_view(f);
            &&& v.message == f.text@ && v.kind == CliErrorKind::Fatal
            &&& v.code == Some(StableErrorCode::RepoStateInvalid) <==> f.kind
                == FetchErrorKind::ObjectFormatMismatch || f.kind == FetchErrorKind::RemoteBranchNotFound
            &&& v.code == Some(StableErrorCode::NetworkProtocol) <==> f.kind == FetchErrorKind::RemoteSideband
                || f.kind == FetchErrorKind::ChecksumMismatch
            &&& v.code == Some(StableErrorCode::NetworkUnavailable) || v.code == Some(
                StableErrorCode::RepoStateInvalid,
            ) || v.code == Some(StableErrorCode::NetworkProtocol)
        }),
        ({
            let v = checkout_error_view(c);
            &&& v.kind == CliErrorKind::Fatal
            &&& v.code == Some(StableErrorCode::RepoStateInvalid) <==> c is ResolveSource
                || c is ReferenceNotCommit || c is LockedSource || c is LockedCurrentBranch
            &&& v.code == Some(StableErrorCode::RepoCorrupt) <==> c is PathspecNotMatched
            &&& v.code == Some(StableErrorCode::IoReadFailed) <==> c is ReadIndex || c is ReadObject
                || c is ReadWorktree || c is InvalidPathEncoding
            &&& v.code == Some(StableErrorCode::IoWriteFailed) <==> c is WriteWorktree
            &&& v.code == Some(StableErrorCode::NetworkUnavailable) <==> c is LfsDownload
        }),
        ({
            let v = branch_state_view(b);
            &&& v.kind == CliErrorKind::Fatal
            &&& v.code == Some(StableErrorCode::IoReadFailed) <==> b is Query
            &&& v.code == Some(StableErrorCode::RepoCorrupt) <==> b is Corrupt
            &&& v.code == Some(StableErrorCode::RepoStateInvalid) <==> b is NotFound
            &&& v.code == Some(StableErrorCode::IoWriteFailed) <==> b is Delete
            &&& b matches BranchStoreError::Query(why) ==> why@.is_suffix_of(v.message)
        }),
{
}

} // verus!
