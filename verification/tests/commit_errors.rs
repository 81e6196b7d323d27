//! The errors of a commit, and how a command reports them.

use libra::commit::CommitError;
use libra::error::{CliError, StableErrorCode};

#[test]
fn test_commit_error_nothing_to_commit_maps_to_repo_state() {
    let err = CliError::from_commit_error(&CommitError::NothingToCommit);
    assert_eq!(err.exit_code(), 128);
    assert_eq!(err.stable_code().as_str(), "LBR-REPO-003");
    assert!(err.message().contains("nothing to commit"));
}

#[test]
fn commit_error_display_pins_static_message_variants() {
    assert_eq!(
        CommitError::NothingToCommit.to_string(),
        "nothing to commit, working tree clean",
    );
    assert_eq!(
        CommitError::NothingToCommitNoTracked.to_string(),
        "nothing to commit (create/copy files and use 'libra add' to track)",
    );
    assert_eq!(
        CommitError::IdentityMissing("set user.name and user.email".to_string()).to_string(),
        "set user.name and user.email",
    );
    assert_eq!(
        CommitError::NoCommitToAmend.to_string(),
        "there is no commit to amend",
    );
    assert_eq!(
        CommitError::AmendUnsupported.to_string(),
        "amend is not supported for merge commits with multiple parents",
    );
    assert_eq!(
        CommitError::InvalidAuthor("missing '<email>'".to_string()).to_string(),
        "invalid author format: missing '<email>'",
    );
    assert_eq!(
        CommitError::EmptyMessage.to_string(),
        "aborting commit due to empty commit message",
    );
    assert_eq!(
        CommitError::ConventionalCommit("subject too long".to_string()).to_string(),
        "conventional commit validation failed: subject too long",
    );
}

#[test]
fn test_commit_error_identity_missing_maps_to_auth() {
    let err = CliError::from_commit_error(&CommitError::IdentityMissing("author identity unknown".to_string()));
    assert_eq!(err.exit_code(), 128);
    assert_eq!(err.stable_code().as_str(), "LBR-AUTH-001");
}

#[test]
fn test_commit_error_no_commit_to_amend_maps_to_repo_state() {
    let err = CliError::from_commit_error(&CommitError::NoCommitToAmend);
    assert_eq!(err.exit_code(), 128);
    assert_eq!(err.stable_code().as_str(), "LBR-REPO-003");
}

#[test]
fn test_commit_error_amend_unsupported_maps_to_repo_state() {
    let err = CliError::from_commit_error(&CommitError::AmendUnsupported);
    assert_eq!(err.exit_code(), 128);
    assert_eq!(err.stable_code().as_str(), "LBR-REPO-003");
}

#[test]
fn test_commit_error_invalid_author_maps_to_cli_args() {
    let err = CliError::from_commit_error(&CommitError::InvalidAuthor("bad format".to_string()));
    assert_eq!(err.exit_code(), 129);
    assert_eq!(err.stable_code().as_str(), "LBR-CLI-002");
}

#[test]
fn test_commit_error_tree_creation_maps_to_internal() {
    let err = CliError::from_commit_error(&CommitError::TreeCreation("unexpected".to_string()));
    assert_eq!(err.exit_code(), 128);
    assert_eq!(err.stable_code().as_str(), "LBR-INTERNAL-001");
}

#[test]
fn test_commit_error_conventional_maps_to_cli_args() {
    let err = CliError::from_commit_error(&CommitError::ConventionalCommit("bad format".to_string()));
    assert_eq!(err.exit_code(), 129);
    assert_eq!(err.stable_code().as_str(), "LBR-CLI-002");
}

#[test]
fn test_commit_error_pre_commit_hook_maps_to_repo_state() {
    let err = CliError::from_commit_error(&CommitError::PreCommitHook("hook failed".to_string()));
    assert_eq!(err.exit_code(), 128);
    assert_eq!(err.stable_code().as_str(), "LBR-REPO-003");
}

#[test]
fn test_commit_error_vault_sign_maps_to_auth() {
    let err = CliError::from_commit_error(&CommitError::VaultSign("no key".to_string()));
    assert_eq!(err.exit_code(), 128);
    assert_eq!(err.stable_code().as_str(), "LBR-AUTH-001");
}

#[test]
fn test_commit_error_index_load_maps_to_repo_corrupt() {
    let err = CliError::from_commit_error(&CommitError::IndexLoad("corrupted".to_string()));
    assert_eq!(err.exit_code(), 128);
    assert_eq!(err.stable_code().as_str(), "LBR-REPO-002");
}

#[test]
fn test_commit_error_object_storage_maps_to_io_write() {
    let err = CliError::from_commit_error(&CommitError::ObjectStorage("disk full".to_string()));
    assert_eq!(err.exit_code(), 128);
    assert_eq!(err.stable_code().as_str(), "LBR-IO-002");
}

#[test]
fn test_commit_error_parent_commit_load_maps_to_repo_corrupt() {
    let err = CliError::from_commit_error(&CommitError::ParentCommitLoad {
        commit_id: "abc1234".to_string(),
        detail: "missing object".to_string(),
    });
    assert_eq!(err.exit_code(), 128);
    assert_eq!(err.stable_code().as_str(), "LBR-REPO-002");
}

#[test]
fn test_commit_error_empty_message_maps_to_repo_state() {
    let err = CliError::from_commit_error(&CommitError::EmptyMessage);
    assert_eq!(err.exit_code(), 128);
    assert_eq!(err.stable_code().as_str(), "LBR-REPO-003");
}

#[test]
fn test_commit_error_nothing_to_commit_no_tracked_maps_to_repo_state() {
    let err = CliError::from_commit_error(&CommitError::NothingToCommitNoTracked);
    assert_eq!(err.exit_code(), 128);
    assert_eq!(err.stable_code().as_str(), "LBR-REPO-003");
}

#[test]
fn test_commit_error_index_save_maps_to_io_write() {
    let err = CliError::from_commit_error(&CommitError::IndexSave("disk full".to_string()));
    assert_eq!(err.exit_code(), 128);
    assert_eq!(err.stable_code().as_str(), "LBR-IO-002");
}

#[test]
fn test_commit_error_message_file_read_maps_to_io_read() {
    let err = CliError::from_commit_error(&CommitError::MessageFileRead {
        path: "msg.txt".to_string(),
        detail: "not found".to_string(),
    });
    assert_eq!(err.exit_code(), 128);
    assert_eq!(err.stable_code().as_str(), "LBR-IO-001");
}

#[test]
fn test_commit_error_auto_stage_maps_to_io_read() {
    let err = CliError::from_commit_error(&CommitError::AutoStage("failed".to_string()));
    assert_eq!(err.exit_code(), 128);
    assert_eq!(err.stable_code().as_str(), "LBR-IO-001");
}

#[test]
fn test_commit_error_staged_changes_maps_to_repo_corrupt() {
    let err = CliError::from_commit_error(&CommitError::StagedChanges("failed".to_string()));
    assert_eq!(err.exit_code(), 128);
    assert_eq!(err.stable_code().as_str(), "LBR-REPO-002");
}

#[test]
fn test_commit_error_head_update_maps_to_io_write() {
    let err = CliError::from_commit_error(&CommitError::HeadUpdate("failed".to_string()));
    assert_eq!(err.exit_code(), 128);
    assert_eq!(err.stable_code().as_str(), "LBR-IO-002");
}

#[test]
fn test_commit_error_tree_creation_has_issue_url_hint() {
    let err = CliError::from_commit_error(&CommitError::TreeCreation("synthetic tree-build failure".to_string()));
    assert_eq!(err.stable_code(), StableErrorCode::InternalInvariant);
    assert!(
        err.hints().iter().any(|h| h.as_str().contains("issues")),
        "TreeCreation must include the GitHub Issues URL hint, got hints: {:?}",
        err.hints()
    );
}

