//! The errors of a clone, and how a command reports them.

use libra::branch::BranchStoreError;
use libra::clone::errors::{
    map_checkout_error, map_discover_remote_error, map_local_branch_state_error, CloneError,
    DiscoveryFault, FetchError, FetchErrorKind, RemoteSpecErrorKind, RestoreError,
};
use libra::error::{CliError, StableErrorCode};

#[test]
fn discover_remote_unauthorized_maps_to_auth_permission_denied() {
    let cli = map_discover_remote_error(&FetchError {
        kind: FetchErrorKind::Discovery(DiscoveryFault::UnAuthorized),
        text: format!("{}: {}", "ssh://example.com/repo.git", "permission denied"),
    });

    assert_eq!(cli.stable_code(), StableErrorCode::AuthPermissionDenied);
    assert_eq!(cli.exit_code(), 128);
    assert_eq!(
        cli.hints()[0].as_str(),
        "check SSH key / HTTP credentials and repository access rights"
    );
}

#[test]
fn discover_remote_unsupported_scheme_maps_to_cli_invalid_target() {
    let cli = map_discover_remote_error(&FetchError {
        kind: FetchErrorKind::InvalidRemoteSpec(RemoteSpecErrorKind::UnsupportedScheme),
        text: format!("{}: {}", "ftp://example.com/repo.git", "unsupported remote scheme 'ftp'"),
    });

    assert_eq!(cli.stable_code(), StableErrorCode::CliInvalidTarget);
    assert_eq!(cli.exit_code(), 129);
    assert_eq!(
        cli.hints()[0].as_str(),
        "check the clone URL or scheme, for example `https://`, `ssh`, or a local path"
    );
}

#[test]
fn discover_remote_network_error_maps_to_network_unavailable() {
    let cli = map_discover_remote_error(&FetchError {
        kind: FetchErrorKind::Discovery(DiscoveryFault::NetworkError),
        text: format!("{}: {}", "https://example.com/repo.git", "timed out"),
    });

    assert_eq!(cli.stable_code(), StableErrorCode::NetworkUnavailable);
    assert_eq!(cli.exit_code(), 128);
    assert_eq!(
        cli.hints()[0].as_str(),
        "check the remote host, DNS, VPN/proxy, and network connectivity"
    );
}

#[test]
fn discover_remote_io_error_maps_to_io_read_failed() {
    let cli = map_discover_remote_error(&FetchError {
        kind: FetchErrorKind::Discovery(DiscoveryFault::IOError),
        text: format!("{}: {}", "/local/repo", "permission denied"),
    });

    assert_eq!(cli.stable_code(), StableErrorCode::IoReadFailed);
    assert_eq!(cli.exit_code(), 128);
    assert_eq!(
        cli.hints()[0].as_str(),
        "check filesystem permissions and repository integrity"
    );
}

#[test]
fn checkout_read_index_maps_to_io_read_failed() {
    let cli = map_checkout_error(&RestoreError::ReadIndex);

    assert_eq!(cli.stable_code(), StableErrorCode::IoReadFailed);
    assert_eq!(cli.exit_code(), 128);
}

#[test]
fn checkout_resolve_source_maps_to_repo_state_invalid() {
    let cli = map_checkout_error(&RestoreError::ResolveSource);

    assert_eq!(cli.stable_code(), StableErrorCode::RepoStateInvalid);
    assert_eq!(cli.exit_code(), 128);
}

#[test]
fn checkout_write_worktree_maps_to_io_write_failed() {
    let cli = map_checkout_error(&RestoreError::WriteWorktree);

    assert_eq!(cli.stable_code(), StableErrorCode::IoWriteFailed);
    assert_eq!(cli.exit_code(), 128);
}

#[test]
fn local_branch_state_query_maps_to_io_read_failed() {
    let cli = map_local_branch_state_error(&BranchStoreError::Query(
        "database is locked".into(),
    ));

    assert_eq!(cli.stable_code(), StableErrorCode::IoReadFailed);
    assert_eq!(cli.exit_code(), 128);
}

#[test]
fn local_branch_state_corrupt_maps_to_repo_corrupt() {
    let cli = map_local_branch_state_error(&BranchStoreError::Corrupt {
        name: "refs/remotes/origin/main".into(),
        detail: "invalid object id".into(),
    });

    assert_eq!(cli.stable_code(), StableErrorCode::RepoCorrupt);
    assert_eq!(cli.exit_code(), 128);
}

#[test]
fn cloud_clone_unsupported_option_maps_to_cli_invalid_arguments() {
    let cli = CliError::from_clone_error(&CloneError::UnsupportedCloudCloneOption {
        option: "--bare",
        reason: "Cloudflare restore currently targets a non-bare working repository",
        hint: "`--bare` is only supported for Git remotes until libra+cloud:// restore grows \
               bare-repository support.",
    });

    assert_eq!(cli.stable_code(), StableErrorCode::CliInvalidArguments);
    assert_eq!(cli.exit_code(), 129);
    assert_eq!(
        cli.detail("option").as_deref(),
        Some("--bare")
    );
}

#[test]
fn clone_error_display_pins_owned_variants() {
    assert_eq!(
        CloneError::CannotInferDestination.to_string(),
        "please specify the destination path explicitly",
    );
    assert_eq!(
        CloneError::DestinationExistsNonEmpty {
            path: "/tmp/repo".to_string(),
        }
        .to_string(),
        "destination path '/tmp/repo' already exists and is not an empty directory",
    );
    assert_eq!(
        CloneError::DestinationAlreadyRepo {
            path: "/tmp/repo".to_string(),
        }
        .to_string(),
        "destination path '/tmp/repo' already contains a libra repository",
    );
    assert_eq!(
        CloneError::RemoteBranchNotFound {
            branch: "feat/x".to_string(),
        }
        .to_string(),
        "remote branch feat/x not found in upstream origin",
    );
    assert_eq!(
        CloneError::SetupFailed {
            message: "vault missing".to_string(),
        }
        .to_string(),
        "failed to complete clone setup: vault missing",
    );
    assert_eq!(
        CloneError::CloudCloneDomainNotConfigured {
            domain: "alpha".to_string(),
            missing_keys: "D1_TOKEN".to_string(),
        }
        .to_string(),
        "clone domain 'alpha' is not configured for libra+cloud restore",
    );
    assert_eq!(
        CloneError::CloudCloneD1ApiTokenNotConfigured {
            domain: "alpha".to_string(),
        }
        .to_string(),
        "D1 API token is not configured for clone domain 'alpha'",
    );
    assert_eq!(
        CloneError::CloudCloneD1ApiBaseUrlInvalid {
            domain: "alpha".to_string(),
            message: "not a url".to_string(),
        }
        .to_string(),
        "D1 API base URL is invalid for clone domain 'alpha': not a url",
    );
    assert_eq!(
        CloneError::CloudCloneR2CredentialsNotConfigured {
            domain: "alpha".to_string(),
            missing_keys: "AK,SK".to_string(),
        }
        .to_string(),
        "R2 credentials are not configured for clone domain 'alpha'",
    );
    assert_eq!(
        CloneError::CloudCloneR2ClientBuildFailed {
            domain: "alpha".to_string(),
            message: "tls error".to_string(),
        }
        .to_string(),
        "failed to build R2 client for clone domain 'alpha': tls error",
    );
    assert_eq!(
        CloneError::UnsupportedCloudCloneOption {
            option: "--depth",
            reason: "shallow not supported",
            hint: "omit --depth",
        }
        .to_string(),
        "--depth is not supported with libra+cloud:// clone sources: shallow not supported",
    );
    assert_eq!(
        CloneError::CloudPublishSiteLookupFailed {
            domain: "alpha".to_string(),
            target: "demo".to_string(),
            code: 500,
            message: "timeout".to_string(),
        }
        .to_string(),
        "failed to resolve libra+cloud site demo in clone domain 'alpha' \
         via D1 (code 500): timeout",
    );
    assert_eq!(
        CloneError::CloudPublishSiteNotFound {
            domain: "alpha".to_string(),
            target: "demo".to_string(),
        }
        .to_string(),
        "libra+cloud site demo was not found in clone domain 'alpha'",
    );
    assert_eq!(
        CloneError::CloudPublishSiteUnavailable {
            domain: "alpha".to_string(),
            target: "demo".to_string(),
            status: "draining".to_string(),
        }
        .to_string(),
        "libra+cloud site demo in clone domain 'alpha' is not active: draining",
    );
    assert_eq!(
        CloneError::CloudPublishMetadataLookupFailed {
            domain: "alpha".to_string(),
            site_id: "s1".to_string(),
            operation: "refs",
            code: 404,
            message: "not found".to_string(),
        }
        .to_string(),
        "failed to resolve libra+cloud metadata for site s1 in clone domain 'alpha' during refs (code 404): not found",
    );
    assert_eq!(
        CloneError::CloudPublishRepositoryNotFound {
            domain: "alpha".to_string(),
            target: "demo".to_string(),
            repo_id: "r1".to_string(),
        }
        .to_string(),
        "libra+cloud site demo in clone domain 'alpha' has no repositories row for repo_id r1",
    );
    assert_eq!(
        CloneError::CloudPublishRefsMissing {
            domain: "alpha".to_string(),
            target: "demo".to_string(),
        }
        .to_string(),
        "libra+cloud site demo in clone domain 'alpha' has no published refs",
    );
    assert_eq!(
        CloneError::CloudPublishRefNotFound {
            domain: "alpha".to_string(),
            target: "demo".to_string(),
            selector: "main".to_string(),
        }
        .to_string(),
        "libra+cloud ref selector 'main' did not match a published branch or tag for site demo in clone domain 'alpha'",
    );
    assert_eq!(
        CloneError::CloudPublishRefAmbiguous {
            domain: "alpha".to_string(),
            target: "demo".to_string(),
            selector: "feat".to_string(),
            matches: "feat/a, feat/b".to_string(),
        }
        .to_string(),
        "libra+cloud ref selector 'feat' is ambiguous for site demo in clone domain 'alpha'; matches: feat/a, feat/b",
    );
    assert_eq!(
        CloneError::CloudPublishDefaultRefMissing {
            domain: "alpha".to_string(),
            target: "demo".to_string(),
        }
        .to_string(),
        "libra+cloud site demo in clone domain 'alpha' has no default_ref for clone checkout",
    );
    assert_eq!(
        CloneError::CloudPublishLatestRevisionMissing {
            domain: "alpha".to_string(),
            target: "demo".to_string(),
        }
        .to_string(),
        "libra+cloud site demo in clone domain 'alpha' has no latest_revision_oid for revision=latest",
    );
    assert_eq!(
        CloneError::CloudPublishRevisionNotFound {
            domain: "alpha".to_string(),
            target: "demo".to_string(),
            revision_oid: "deadbeef".to_string(),
        }
        .to_string(),
        "published revision deadbeef for libra+cloud site demo in clone domain 'alpha' was not found",
    );
    assert_eq!(
        CloneError::CloudPublishObjectIndexMissing {
            domain: "alpha".to_string(),
            target: "demo".to_string(),
            repo_id: "r1".to_string(),
        }
        .to_string(),
        "libra+cloud site demo in clone domain 'alpha' has no object_index rows for repo_id r1",
    );
    assert_eq!(
        CloneError::CloudPublishObjectMissing {
            domain: "alpha".to_string(),
            target: "demo".to_string(),
            object_oid: "feedface".to_string(),
        }
        .to_string(),
        "R2 object feedface for libra+cloud site demo in clone domain 'alpha' is missing",
    );
    assert_eq!(
        CloneError::CloudPublishObjectRestoreFailed {
            domain: "alpha".to_string(),
            target: "demo".to_string(),
            message: "checksum".to_string(),
        }
        .to_string(),
        "failed to restore R2 objects for libra+cloud site demo in clone domain 'alpha': checksum",
    );
    assert_eq!(
        CloneError::CloudPublishRefsMetadataRestoreFailed {
            domain: "alpha".to_string(),
            target: "demo".to_string(),
            message: "db err".to_string(),
        }
        .to_string(),
        "failed to restore refs metadata for libra+cloud site demo in clone domain 'alpha': db err",
    );
    assert_eq!(
        CloneError::CloudPublishAiRestoreFailed {
            domain: "alpha".to_string(),
            target: "demo".to_string(),
            message: "ai object".to_string(),
        }
        .to_string(),
        "failed to restore AI object model for libra+cloud site demo in clone domain 'alpha': ai object",
    );
    assert_eq!(
        CloneError::CloudPublishCheckoutSetupFailed {
            domain: "alpha".to_string(),
            target: "demo".to_string(),
            message: "head".to_string(),
        }
        .to_string(),
        "failed to configure checkout for libra+cloud site demo in clone domain 'alpha': head",
    );
    assert_eq!(
        CloneError::CloudPublishObjectIndexInvalid {
            domain: "alpha".to_string(),
            target: "demo".to_string(),
            object_oid: "xyz".to_string(),
            reason: "non-hex".to_string(),
        }
        .to_string(),
        "object_index row xyz for libra+cloud site demo in clone domain 'alpha' is not a valid object id: non-hex",
    );
    assert_eq!(
        CloneError::InvalidCloudPublishSource {
            input: "libra+cloud://bad".to_string(),
            reason: "missing site".to_string(),
        }
        .to_string(),
        "invalid libra+cloud clone source 'libra+cloud://bad': missing site",
    );
}

