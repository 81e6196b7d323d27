//! The texts of merge errors.

use libra::merge::PullMergeError;

#[test]
fn pull_merge_error_display_pins_each_variant() {
    assert_eq!(
        PullMergeError::InvalidTarget("a/b".to_string()).to_string(),
        "a/b - not something we can merge",
    );
    assert_eq!(
        PullMergeError::TargetLoad {
            commit_id: "deadbeef".to_string(),
            detail: "object not found".to_string(),
        }
        .to_string(),
        "failed to load merge target 'deadbeef': object not found",
    );
    assert_eq!(
        PullMergeError::CurrentLoad {
            commit_id: "feedface".to_string(),
            detail: "io error".to_string(),
        }
        .to_string(),
        "failed to load current commit 'feedface': io error",
    );
    assert_eq!(
        PullMergeError::History("walk failed".to_string()).to_string(),
        "failed to inspect merge history: walk failed",
    );
    assert_eq!(
        PullMergeError::UnrelatedHistories.to_string(),
        "refusing to merge unrelated histories",
    );
    assert_eq!(
        PullMergeError::NonFastForward {
            current: "1111111".to_string(),
            target: "2222222".to_string(),
        }
        .to_string(),
        "non-fast-forward merge refused (current 1111111, target 2222222)",
    );
    assert_eq!(
        PullMergeError::TreeLoad {
            tree_id: "abc123".to_string(),
            detail: "decode failed".to_string(),
        }
        .to_string(),
        "failed to load tree 'abc123': decode failed",
    );
    assert_eq!(
        PullMergeError::ObjectLoad {
            object_id: "def456".to_string(),
            detail: "blob missing".to_string(),
        }
        .to_string(),
        "failed to load object 'def456': blob missing",
    );
    assert_eq!(
        PullMergeError::HeadResolve("db locked".to_string()).to_string(),
        "failed to resolve HEAD state: db locked",
    );
    assert_eq!(
        PullMergeError::HeadUpdate("write failed".to_string()).to_string(),
        "failed to update HEAD during merge: write failed",
    );
    assert_eq!(
        PullMergeError::Restore("checkout failed".to_string()).to_string(),
        "failed to restore working tree after merge: checkout failed",
    );
    assert_eq!(
        PullMergeError::InvalidDiffAlgorithm {
            value: "bogus".to_string(),
        }
        .to_string(),
        "unknown diff algorithm 'bogus' (expected myers, histogram, patience, or minimal)",
    );
    assert_eq!(
        PullMergeError::InvalidCleanupMode {
            value: "bogus".to_string(),
        }
        .to_string(),
        "unknown cleanup mode 'bogus' (expected strip, whitespace, verbatim, scissors, or default)",
    );
    assert_eq!(
        PullMergeError::Autostash("stash push failed".to_string()).to_string(),
        "autostash failed: stash push failed",
    );
    assert_eq!(
        PullMergeError::Sign("no key".to_string()).to_string(),
        "failed to sign merge commit: no key",
    );
    assert_eq!(
        PullMergeError::UnsignedTarget {
            target: "feature".to_string(),
        }
        .to_string(),
        "merge target 'feature' is not signed",
    );
}
