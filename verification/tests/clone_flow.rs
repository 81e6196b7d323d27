//! The course of a clone, its settings and its report.

use libra::branch::BranchStoreError;
use libra::clone::ai::{
    ai_artifact_key, append_cloud_publish_ai_history, restore_ai_artifact,
    restore_cloud_publish_ai_objects, validate_cloud_publish_ai_bundle, AiArtifact, AiRestoreStep,
    HistoryContent,
    PublishAiBundle, cloud_publish_ai_history_type, cloud_publish_relative_r2_key, validate_cloud_publish_ai_graph,
    validate_cloud_publish_ai_index, validate_cloud_publish_ai_object_row, AiGraphNode,
    AiIndexEntry, AiObjectLayer, PublishAiGraph, PublishAiIndex, PublishAiObject, RedactionMode,
};
use libra::clone::errors::{CloneError, FetchError, FetchErrorKind};
use libra::clone::flow::{
    check_destination, clone_config_local_target, clone_failure, clone_local_path, clone_output, cleanup_failed_clone,
    configure_cloud_publish_checkout, contains_initialized_repo, d1_base_url, display_home_relative,
    is_cloud_source, join_path, load_cloud_clone_domain_config, metadata_root, object_format_name,
    parse_usize, r2_region, remote_with_slash, render_clone_result,
    resolve_cloud_clone_local_path, resolve_required_cloud_clone_r2_env, setup_repository,
    setup_start_commit, validate_depth, Cleanup, CloneArgs, CloneOutput, Destination, DomainValues,
    IgnoreReport, InitReport, LocalIdentityTarget,
};
use libra::clone::restore::{
    CloudPublishCheckoutSelectorKind, CloudPublishCheckoutTarget, CloudPublishRestorePlan,
    ObjectIndexRow, PublishAiObjectRow, PublishAiVersionRow, PublishRevisionRow, PublishSiteRow, RepositoryRow,
};
use libra::clone::run::{run_clone, start_clone, CloneEvent, CloneRun, CloneStage, CloneWork};
use libra::clone::source::{CloudPublishSource, CloudPublishTarget};
use libra::object::{HashKind, ObjectId};

const COMMIT: &str = "aaaaaaaaaaaaaaaaaaaaaaaaaaaaaaaaaaaaaaaa";

fn text(s: &str) -> Option<String> {
    Some(s.to_string())
}

fn args(remote: &str) -> CloneArgs {
    CloneArgs {
        remote_repo: remote.to_string(),
        local_path: None,
        branch: None,
        single_branch: false,
        bare: false,
        depth: None,
    }
}

fn source() -> CloudPublishSource {
    CloudPublishSource {
        clone_domain: "code.example.com".to_string(),
        target: CloudPublishTarget::Slug("kepler".to_string()),
        selector: None,
    }
}

fn site() -> PublishSiteRow {
    PublishSiteRow {
        site_id: "site_1".to_string(),
        repo_id: "repo_1".to_string(),
        slug: "kepler".to_string(),
        status: "active".to_string(),
        default_ref: text("refs/heads/main"),
        latest_revision_oid: text(COMMIT),
    }
}

fn plan(ai_objects: Vec<PublishAiObjectRow>) -> CloudPublishRestorePlan {
    CloudPublishRestorePlan {
        site: site(),
        repository: RepositoryRow { name: "kepler".to_string() },
        checkout: CloudPublishCheckoutTarget {
            revision_oid: COMMIT.to_string(),
            ref_name: text("refs/heads/main"),
            selector_kind: CloudPublishCheckoutSelectorKind::DefaultRef,
        },
        revision: PublishRevisionRow {
            revision_oid: COMMIT.to_string(),
            status: "published".to_string(),
            ai_index_key: None,
            ai_object_count: 0,
            ai_bundle_count: 0,
        },
        object_indexes: vec![ObjectIndexRow { o_id: COMMIT.to_string() }],
        ai_objects,
        ai_versions: Vec::new(),
    }
}

#[test]
fn depths_are_positive_numbers() {
    assert_eq!(validate_depth("1").unwrap(), 1);
    assert_eq!(validate_depth("007").unwrap(), 7);
    for s in ["0", "", "-1", "x", "1.5", "99999999999999999999999"] {
        assert!(validate_depth(s).is_err(), "{s}");
    }
    for s in ["0", "42", "+7", "", "+", "-1", " 1", "18446744073709551615", "18446744073709551616"] {
        assert_eq!(parse_usize(s), s.parse::<usize>().ok(), "{s}");
    }
}

#[test]
fn destinations_are_named_after_the_repository() {
    let a = args("https://x/repo.git");
    assert_eq!(clone_local_path(&a, "/w", &text("repo")).unwrap(), "/w/repo");
    let given = CloneArgs { local_path: text("here"), ..args("https://x/repo.git") };
    assert_eq!(clone_local_path(&given, "/w", &None).unwrap(), "/w/here");
    assert!(matches!(
        clone_local_path(&a, "/w", &None),
        Err(CloneError::CannotInferDestination)
    ));
    assert_eq!(resolve_cloud_clone_local_path(&a, "/w", "kepler"), "/w/kepler");
    assert_eq!(metadata_root(false, "/w/repo"), "/w/repo/.libra");
    assert_eq!(metadata_root(true, "/w/repo"), "/w/repo");
    assert_eq!(join_path("/w/", "a"), "/w/a");
    assert_eq!(join_path("/w", "/a"), "/a");
    assert_eq!(remote_with_slash("https://x"), "https://x/");
    assert!(is_cloud_source("libra+cloud://x/y"));
    assert!(!is_cloud_source("https://x"));
    assert!(!contains_initialized_repo(&Vec::new()));
}

fn fetch_failed() -> CloneError {
    CloneError::FetchFailed {
        source: FetchError { kind: FetchErrorKind::FetchObjects, text: "reset".to_string() },
    }
}

#[test]
fn a_clone_goes_through_its_stages() {
    let a = args("https://x/repo.git");
    let mut run = start_clone(false);
    let free = Destination { has_repo: false, exists: false, empty: false };
    let mut next = |run: CloneRun, event| run_clone(&a, "/w/repo", run, event).expect("a step");
    run = next(run, CloneEvent::Discovered { outcome: Ok(()) });
    run = next(run, CloneEvent::Probed { at: free });
    assert_eq!(run.stage, CloneStage::Creating);
    run = next(run, CloneEvent::Created { outcome: Ok(()) });
    assert_eq!(run.stage, CloneStage::Branching);
    run = next(run, CloneEvent::BranchLooked { found: false });
    let mut works = Vec::new();
    while let CloneStage::Working { work } = run.stage {
        works.push(work);
        run = next(run, CloneEvent::Worked { outcome: Ok(()) });
    }
    assert_eq!(run.stage, CloneStage::Done);
    assert_eq!(
        works,
        vec![
            CloneWork::Enter,
            CloneWork::Initialize,
            CloneWork::Fetch,
            CloneWork::SetUp,
            CloneWork::Convert,
            CloneWork::Leave,
        ]
    );
}

#[test]
fn a_failed_clone_removes_only_what_it_made() {
    let a = CloneArgs { branch: text("topic"), ..args("https://x/repo.git") };
    let at = |created| CloneRun { cloud: false, stage: CloneStage::Working { work: CloneWork::Fetch }, created };
    let failed = run_clone(&a, "/w", at(true), CloneEvent::Worked { outcome: Err(fetch_failed()) }).unwrap_err();
    assert_eq!(failed.cleanup, Some(Cleanup::RemoveDirectory));
    let failed = run_clone(&a, "/w", at(false), CloneEvent::Worked { outcome: Err(fetch_failed()) }).unwrap_err();
    assert_eq!(failed.cleanup, Some(Cleanup::ClearContents));
    let taken = Destination { has_repo: false, exists: true, empty: false };
    let failed = run_clone(&a, "/w", start_clone(true), CloneEvent::Probed { at: taken }).unwrap_err();
    assert_eq!(failed.cleanup, None);
    assert!(matches!(failed.error, CloneError::DestinationExistsNonEmpty { path } if path == "/w"));
    let branching = CloneRun { cloud: false, stage: CloneStage::Branching, created: false };
    let failed = run_clone(&a, "/w", branching, CloneEvent::BranchLooked { found: false }).unwrap_err();
    assert!(matches!(failed.error, CloneError::RemoteBranchNotFound { branch } if branch == "topic"));
    assert_eq!(failed.cleanup, Some(Cleanup::ClearContents));
    let warning = cleanup_failed_clone("/w", &Err("busy".to_string()));
    let cli = clone_failure(&fetch_failed(), &warning);
    assert!(cli.hints()[0].contains("/w"));
    assert!(cleanup_failed_clone("/w", &Ok(())).is_none());
    assert!(matches!(
        check_destination("/w", Destination { has_repo: true, exists: true, empty: false }),
        Err(CloneError::DestinationAlreadyRepo { .. })
    ));
}

#[test]
fn settings_follow_the_branch() {
    let setup = setup_repository("origin", "https://x", &None, &text("main"));
    assert_eq!(setup.branch.as_deref(), Some("main"));
    assert_eq!(setup.tracking_ref.as_deref(), Some("refs/remotes/origin/main"));
    assert_eq!(setup.settings.len(), 3);
    assert_eq!(setup.settings[0].key, "branch.main.merge");
    assert_eq!(setup.settings[0].value, "refs/heads/main");
    let empty = setup_repository("origin", "https://x", &None, &None);
    assert!(empty.branch.is_none());
    let id = ObjectId::zero(HashKind::Sha1);
    assert_eq!(setup_start_commit("main", Ok(Some(id))).unwrap(), id);
    assert!(setup_start_commit("main", Ok(None)).is_err());
    assert!(matches!(
        setup_start_commit("main", Err(BranchStoreError::Query("locked".to_string()))),
        Err(CloneError::LocalBranchState { .. })
    ));
    assert_eq!(object_format_name(HashKind::Sha256), "sha256");
}

fn output(branch: Option<String>) -> CloneOutput {
    let init = InitReport {
        repo_id: "r1".to_string(),
        vault_signing: true,
        ssh_key_detected: text("/home/a/.ssh/id"),
        warnings: vec!["w1".to_string()],
    };
    let ignores = IgnoreReport { converted: vec![".libraignore".to_string()], warnings: Vec::new() };
    clone_output(&args("https://x"), "/w/repo", "https://x", &branch, HashKind::Sha1, &init, &ignores)
}

#[test]
fn clones_are_reported() {
    let out = output(text("main"));
    assert_eq!(out.object_format, "sha1");
    assert_eq!(out.warnings, vec!["w1"]);
    let report = render_clone_result(&out, false, &text("/home/a"));
    assert_eq!(report.lines[0], "Cloned into 'repo'");
    assert!(report.lines.iter().any(|l| l == "Tip: using existing SSH key at ~/.ssh/id"));
    assert_eq!(report.warnings, vec!["warning: w1"]);
    assert!(render_clone_result(&out, true, &None).lines.is_empty());
    let empty = output(None);
    assert_eq!(
        empty.warnings.last().map(String::as_str),
        Some("You appear to have cloned an empty repository.")
    );
    assert_eq!(display_home_relative("/etc/x", &text("/home/a")), "/etc/x");
}

fn domain_values() -> DomainValues {
    DomainValues {
        account_id: Ok(text("acc")),
        d1_database_id: Ok(text("db")),
        r2_bucket: Ok(text("bucket")),
        credential_profile: Ok(None),
        api_token: Ok(text("token")),
    }
}

#[test]
fn clone_domains_need_their_settings() {
    let loaded = load_cloud_clone_domain_config(&source(), domain_values()).unwrap();
    assert_eq!(loaded.account_id, "acc");
    let missing = DomainValues { account_id: Ok(None), r2_bucket: Ok(None), ..domain_values() };
    match load_cloud_clone_domain_config(&source(), missing) {
        Err(CloneError::CloudCloneDomainNotConfigured { missing_keys, .. }) => {
            assert_eq!(missing_keys.split(", ").count(), 2);
        }
        _ => panic!("two keys are missing"),
    }
    let no_token = DomainValues { api_token: Ok(text("")), ..domain_values() };
    assert!(matches!(
        load_cloud_clone_domain_config(&source(), no_token),
        Err(CloneError::CloudCloneD1ApiTokenNotConfigured { .. })
    ));
    let unreadable = DomainValues { r2_bucket: Err("locked".to_string()), ..domain_values() };
    assert!(matches!(
        load_cloud_clone_domain_config(&source(), unreadable),
        Err(CloneError::CloudCloneDomainConfigRead { source, .. }) if source == "locked"
    ));
    assert!(matches!(
        resolve_required_cloud_clone_r2_env(&source(), "KEY", Ok(None)),
        Err(CloneError::CloudCloneR2CredentialsNotConfigured { .. })
    ));
    assert_eq!(resolve_required_cloud_clone_r2_env(&source(), "KEY", Ok(text("v"))).unwrap(), "v");
    assert_eq!(r2_region(text("eu")), "eu");
    assert_eq!(d1_base_url(&None), None);
}

#[test]
fn a_published_branch_is_checked_out() {
    let checkout = configure_cloud_publish_checkout(&source(), &plan(Vec::new()), "libra+cloud://x/y", HashKind::Sha1)
        .expect("a commit");
    assert_eq!(checkout.commit.to_string(), COMMIT);
    assert_eq!(checkout.branch.as_deref(), Some("main"));
    assert!(checkout.settings.iter().any(|s| s.value == "libra+cloud://x/y"));
}

fn ai_row() -> PublishAiObjectRow {
    PublishAiObjectRow {
        site_id: "site_1".to_string(),
        revision_oid: COMMIT.to_string(),
        object_type: "TaskRun".to_string(),
        object_id: "t1".to_string(),
        layer: "snapshot".to_string(),
        r2_key: "key".to_string(),
        payload_sha256: "sha".to_string(),
        redaction_mode: "default".to_string(),
        schema_version: 1,
    }
}

#[test]
fn ai_indexes_and_graphs_list_every_object() {
    let entry = AiIndexEntry {
        object_type: "TaskRun".to_string(),
        object_id: "t1".to_string(),
        layer: AiObjectLayer::Snapshot,
        r2_key: "key".to_string(),
        payload_sha256: "sha".to_string(),
    };
    let index = PublishAiIndex {
        site_id: "site_1".to_string(),
        revision_oid: COMMIT.to_string(),
        objects: vec![entry],
    };
    let restore = plan(vec![ai_row()]);
    assert!(validate_cloud_publish_ai_index(&source(), &restore, &index).is_ok());
    let short = PublishAiIndex { objects: Vec::new(), ..index };
    assert!(matches!(
        validate_cloud_publish_ai_index(&source(), &restore, &short),
        Err(CloneError::CloudPublishAiRestoreFailed { .. })
    ));
    let node = AiGraphNode {
        object_type: "TaskRun".to_string(),
        object_id: "t1".to_string(),
        layer: AiObjectLayer::Snapshot,
        r2_key: "key".to_string(),
    };
    let graph = PublishAiGraph {
        site_id: "site_1".to_string(),
        revision_oid: COMMIT.to_string(),
        nodes: vec![node],
    };
    assert!(validate_cloud_publish_ai_graph(&source(), &restore, &graph).is_ok());
    let other = PublishAiGraph { revision_oid: "b".repeat(40), ..graph };
    assert!(validate_cloud_publish_ai_graph(&source(), &restore, &other).is_err());
}

#[test]
fn ai_objects_match_their_rows() {
    let object = || PublishAiObject {
        site_id: "site_1".to_string(),
        revision_oid: COMMIT.to_string(),
        object_type: "TaskRun".to_string(),
        object_id: "t1".to_string(),
        layer: AiObjectLayer::Snapshot,
        redaction_mode: RedactionMode::Default,
        schema_version: 1,
    };
    let check = |o: PublishAiObject, sha: Result<String, String>| {
        validate_cloud_publish_ai_object_row(&source(), &site(), &ai_row(), &o, &sha)
    };
    assert!(check(object(), Ok("sha".to_string())).is_ok());
    assert!(check(object(), Ok("other".to_string())).is_err());
    assert!(check(object(), Err("unreadable".to_string())).is_err());
    assert!(check(PublishAiObject { schema_version: 2, ..object() }, Ok("sha".to_string())).is_err());
    assert_eq!(cloud_publish_ai_history_type("TaskRun"), "publish_ai_task_run");
    assert!(cloud_publish_relative_r2_key(&source(), &site(), "elsewhere/x", "AI index").is_err());
}

fn version_row() -> PublishAiVersionRow {
    PublishAiVersionRow {
        site_id: "site_1".to_string(),
        revision_oid: COMMIT.to_string(),
        ai_version_id: "v1".to_string(),
        schema_version: 1,
        object_count: 1,
        redaction_mode: "strict".to_string(),
        redaction_rules_version: "r1".to_string(),
        bundle_key: "repo_1/publish/sites/site_1/ai/v1.json".to_string(),
        bundle_sha256: "sum".to_string(),
    }
}

fn bundle() -> PublishAiBundle {
    PublishAiBundle {
        site_id: "site_1".to_string(),
        revision_oid: COMMIT.to_string(),
        ai_version_id: "v1".to_string(),
        schema_version: 1,
        object_count: 1,
        redaction_mode: RedactionMode::Strict,
        redaction_rules_version: "r1".to_string(),
    }
}

fn fault(r: Result<(), CloneError>) -> String {
    match r {
        Err(CloneError::CloudPublishAiRestoreFailed { message, .. }) => message,
        _ => panic!("a fault was expected"),
    }
}

#[test]
fn bundles_match_their_versions() {
    let check = |b: PublishAiBundle, sha: Result<String, String>| {
        validate_cloud_publish_ai_bundle(&source(), &site(), &version_row(), &b, &sha)
    };
    assert!(check(bundle(), Ok("sum".to_string())).is_ok());
    assert_eq!(
        fault(check(bundle(), Ok("other".to_string()))),
        "AI bundle v1 checksum does not match D1 version row"
    );
    assert_eq!(
        fault(check(bundle(), Err("broken".to_string()))),
        "failed to verify AI bundle v1 checksum: broken"
    );
    assert_eq!(
        fault(check(PublishAiBundle { object_count: 2, ..bundle() }, Ok("sum".to_string()))),
        "AI bundle v1 does not match D1 version row"
    );
}

#[test]
fn ai_history_is_restored_in_order() {
    let mut restore = plan(vec![ai_row()]);
    assert_eq!(
        fault(restore_cloud_publish_ai_objects(&source(), &restore).map(|_| ())),
        "published revision has AI object rows but no AI index key"
    );
    restore.revision.ai_index_key = text("repo_1/publish/sites/site_1/ai/index.json");
    assert_eq!(
        fault(restore_cloud_publish_ai_objects(&source(), &restore).map(|_| ())),
        "published revision has AI object rows but no AI version rows"
    );
    restore.ai_versions = vec![version_row()];
    let steps = restore_cloud_publish_ai_objects(&source(), &restore).expect("steps");
    assert_eq!(
        steps,
        vec![
            AiRestoreStep::Index,
            AiRestoreStep::Graph,
            AiRestoreStep::Version(0),
            AiRestoreStep::Object(0),
        ]
    );
    let key = |step| ai_artifact_key(&source(), &restore, step, "graph.json");
    assert_eq!(key(AiRestoreStep::Index).unwrap(), "ai/index.json");
    assert_eq!(key(AiRestoreStep::Graph).unwrap(), "graph.json");
    assert_eq!(key(AiRestoreStep::Version(0)).unwrap(), "ai/v1.json");
    assert_eq!(
        fault(key(AiRestoreStep::Object(0)).map(|_| ())),
        "AI object key is outside site namespace: key"
    );
    let read = AiArtifact::Version { bundle: bundle(), sha256: Ok("sum".to_string()) };
    let entries = restore_ai_artifact(&source(), &restore, AiRestoreStep::Version(0), &read)
        .expect("a bundle in order");
    let names: Vec<(&str, &str)> =
        entries.iter().map(|e| (e.history_type.as_str(), e.object_id.as_str())).collect();
    assert_eq!(names, vec![("publish_ai_version", "v1"), ("publish_ai_bundle", "v1")]);
    let kept: Vec<HistoryContent> = entries.iter().map(|e| e.content).collect();
    assert_eq!(kept, vec![HistoryContent::VersionRow(0), HistoryContent::Artifact]);
    assert!(restore_cloud_publish_ai_objects(&source(), &plan(Vec::new())).unwrap().is_empty());
}

#[test]
fn artifacts_that_cannot_be_kept_are_named() {
    let message = |stored| {
        fault(Err(append_cloud_publish_ai_history(&source(), &site(), "publish_ai_index", "r", stored, "full")))
    };
    assert_eq!(
        message(false),
        "failed to store AI restore artifact publish_ai_index/r locally: full"
    );
    assert_eq!(
        message(true),
        "failed to index AI restore artifact publish_ai_index/r locally: full"
    );
}

#[test]
fn settings_of_a_clone_come_from_a_repository_only_where_there_is_one() {
    assert!(matches!(clone_config_local_target(true), LocalIdentityTarget::CurrentRepo));
    assert!(matches!(clone_config_local_target(false), LocalIdentityTarget::NoRepo));
}
