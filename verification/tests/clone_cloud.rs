//! Cloning a published site: its source, what is checked out, and what is restored.

use libra::clone::errors::CloneError;
use libra::clone::flow::{validate_cloud_clone_option_compatibility, CloneArgs};
use libra::clone::restore::{
    check_restored_objects, cloud_checkout_branch_name, cloud_object_format,
    cloud_object_restore_failure_message,
    object_hash_from_cloud_index, resolve_cloud_publish_checkout_target,
    resolve_cloud_publish_restore_plan, resolve_cloud_publish_site,
    validate_cloud_publish_objects_available, CloudPublishCheckoutSelectorKind,
    CloudPublishCheckoutTarget, D1Error, ObjectIndexRow, PublishRefRow, PublishRevisionRow,
    PublishSiteRow, RepositoryRow, RestoreLookups,
};
use libra::clone::source::{
    cloud_source_of_url, parse_cloud_publish_source, CloudPublishSelector, CloudPublishSource,
    CloudPublishTarget, ParsedUrl, QueryPair,
};
use libra::error::{CliError, StableErrorCode};
use libra::object::HashKind;

fn publish_site_row(default_ref: Option<&str>, latest_revision_oid: Option<&str>) -> PublishSiteRow {
    PublishSiteRow {
        site_id: "site_123".to_string(),
        repo_id: "repo_456".to_string(),
        slug: "kepler-ledger".to_string(),
        status: "active".to_string(),
        default_ref: default_ref.map(ToString::to_string),
        latest_revision_oid: latest_revision_oid.map(ToString::to_string),
    }
}

fn publish_ref_row(ref_name: &str, revision_oid: &str) -> PublishRefRow {
    PublishRefRow {
        ref_name: ref_name.to_string(),
        short_name: ref_name
            .strip_prefix("refs/heads/")
            .or_else(|| ref_name.strip_prefix("refs/tags/"))
            .unwrap_or(ref_name)
            .to_string(),
        revision_oid: revision_oid.to_string(),
    }
}

fn object_index_row(o_id: &str) -> ObjectIndexRow {
    ObjectIndexRow { o_id: o_id.to_string() }
}

fn cloud_clone_args_baseline() -> CloneArgs {
    CloneArgs {
        remote_repo: "libra+cloud://code.example.com/kepler-ledger".to_string(),
        local_path: None,
        branch: None,
        single_branch: false,
        bare: false,
        depth: None,
    }
}

#[test]
fn cloud_clone_source_parse_test_accepts_slug_repo_and_selectors() {
    for (input, expected) in [
        (
            "libra+cloud://code.example.com/kepler-ledger",
            CloudPublishSource {
                clone_domain: "code.example.com".to_string(),
                target: CloudPublishTarget::Slug("kepler-ledger".to_string()),
                selector: None,
            },
        ),
        (
            "libra+cloud://code.example.com/repo/rp_8f4c1b",
            CloudPublishSource {
                clone_domain: "code.example.com".to_string(),
                target: CloudPublishTarget::RepoId("rp_8f4c1b".to_string()),
                selector: None,
            },
        ),
        (
            "libra+cloud://code.example.com/kepler-ledger?ref=refs/tags/v1.0.0",
            CloudPublishSource {
                clone_domain: "code.example.com".to_string(),
                target: CloudPublishTarget::Slug("kepler-ledger".to_string()),
                selector: Some(CloudPublishSelector::Ref("refs/tags/v1.0.0".to_string())),
            },
        ),
        (
            "libra+cloud://code.example.com/kepler-ledger?ref=feature/branch",
            CloudPublishSource {
                clone_domain: "code.example.com".to_string(),
                target: CloudPublishTarget::Slug("kepler-ledger".to_string()),
                selector: Some(CloudPublishSelector::Ref("feature/branch".to_string())),
            },
        ),
        (
            "libra+cloud://code.example.com/kepler-ledger?revision=latest",
            CloudPublishSource {
                clone_domain: "code.example.com".to_string(),
                target: CloudPublishTarget::Slug("kepler-ledger".to_string()),
                selector: Some(CloudPublishSelector::Revision("latest".to_string())),
            },
        ),
        (
            "libra+cloud://CODE.EXAMPLE.COM/kepler-ledger?revision=9a1f3e2c",
            CloudPublishSource {
                clone_domain: "code.example.com".to_string(),
                target: CloudPublishTarget::Slug("kepler-ledger".to_string()),
                selector: Some(CloudPublishSelector::Revision("9a1f3e2c".to_string())),
            },
        ),
    ] {
        let parsed = parse_cloud_publish_source(input).unwrap_or_else(|error| {
            panic!("{input} should parse as a valid cloud publish source: {}", error.to_string())
        });
        assert_eq!(
            parsed, expected,
            "{input} should preserve restore selectors"
        );
    }
}

#[test]
fn cloud_clone_source_parse_test_rejects_invalid_inputs() {
    for (input, needle) in [
        ("libra+cloud://bad_domain/repo", "clone domain"),
        ("libra+cloud://code.example.com/", "slug or repo_id"),
        ("libra+cloud://code.example.com/repo/", "repo_id"),
        ("libra+cloud://code.example.com/bad slug", "slug is invalid"),
        (
            "libra+cloud://code.example.com/slug?ref=main&revision=latest",
            "mutually exclusive",
        ),
        (
            "libra+cloud://code.example.com/slug?revision=ABCDEF",
            "revision selector",
        ),
        (
            "libra+cloud://code.example.com/slug?ref=../main",
            "ref selector",
        ),
        (
            "libra+cloud://code.example.com/slug?foo=bar",
            "unsupported query parameter",
        ),
    ] {
        let error =
            parse_cloud_publish_source(input).expect_err("invalid cloud source rejected");
        assert!(
            error.to_string().contains(needle),
            "{input} should mention {needle:?}, got {}",
            error.to_string()
        );
        let cli = CliError::from_clone_error(&error);
        assert_eq!(cli.stable_code(), StableErrorCode::CliInvalidArguments);
    }
}

#[test]
fn cloud_clone_restore_plan_resolves_default_ref_checkout_revision() {
    let source = CloudPublishSource {
        clone_domain: "code.example.com".to_string(),
        target: CloudPublishTarget::Slug("kepler-ledger".to_string()),
        selector: None,
    };
    let site = publish_site_row(
        Some("refs/heads/main"),
        Some("aaaaaaaaaaaaaaaaaaaaaaaaaaaaaaaaaaaaaaaa"),
    );
    let refs = vec![
        publish_ref_row(
            "refs/heads/main",
            "aaaaaaaaaaaaaaaaaaaaaaaaaaaaaaaaaaaaaaaa",
        ),
        publish_ref_row(
            "refs/tags/v1.0.0",
            "bbbbbbbbbbbbbbbbbbbbbbbbbbbbbbbbbbbbbbbb",
        ),
    ];

    let checkout = resolve_cloud_publish_checkout_target(&source, &site, &refs)
        .expect("default ref should resolve to a checkout revision");

    assert_eq!(
        checkout,
        CloudPublishCheckoutTarget {
            revision_oid: "aaaaaaaaaaaaaaaaaaaaaaaaaaaaaaaaaaaaaaaa".to_string(),
            ref_name: Some("refs/heads/main".to_string()),
            selector_kind: CloudPublishCheckoutSelectorKind::DefaultRef,
        }
    );
}

#[test]
fn cloud_clone_restore_plan_resolves_full_tag_ref_selector() {
    let source = CloudPublishSource {
        clone_domain: "code.example.com".to_string(),
        target: CloudPublishTarget::Slug("kepler-ledger".to_string()),
        selector: Some(CloudPublishSelector::Ref("refs/tags/v1.0.0".to_string())),
    };
    let site = publish_site_row(
        Some("refs/heads/main"),
        Some("aaaaaaaaaaaaaaaaaaaaaaaaaaaaaaaaaaaaaaaa"),
    );
    let refs = vec![
        publish_ref_row(
            "refs/heads/main",
            "aaaaaaaaaaaaaaaaaaaaaaaaaaaaaaaaaaaaaaaa",
        ),
        publish_ref_row(
            "refs/tags/v1.0.0",
            "bbbbbbbbbbbbbbbbbbbbbbbbbbbbbbbbbbbbbbbb",
        ),
    ];

    let checkout = resolve_cloud_publish_checkout_target(&source, &site, &refs)
        .expect("full tag ref selector should resolve to the tag revision");

    assert_eq!(
        checkout,
        CloudPublishCheckoutTarget {
            revision_oid: "bbbbbbbbbbbbbbbbbbbbbbbbbbbbbbbbbbbbbbbb".to_string(),
            ref_name: Some("refs/tags/v1.0.0".to_string()),
            selector_kind: CloudPublishCheckoutSelectorKind::Ref,
        }
    );
}

#[test]
fn cloud_clone_restore_plan_rejects_ambiguous_short_ref_selector() {
    let source = CloudPublishSource {
        clone_domain: "code.example.com".to_string(),
        target: CloudPublishTarget::Slug("kepler-ledger".to_string()),
        selector: Some(CloudPublishSelector::Ref("release".to_string())),
    };
    let site = publish_site_row(
        Some("refs/heads/main"),
        Some("aaaaaaaaaaaaaaaaaaaaaaaaaaaaaaaaaaaaaaaa"),
    );
    let refs = vec![
        publish_ref_row(
            "refs/heads/release",
            "aaaaaaaaaaaaaaaaaaaaaaaaaaaaaaaaaaaaaaaa",
        ),
        publish_ref_row(
            "refs/tags/release",
            "bbbbbbbbbbbbbbbbbbbbbbbbbbbbbbbbbbbbbbbb",
        ),
    ];

    let error = resolve_cloud_publish_checkout_target(&source, &site, &refs)
        .expect_err("branch/tag short-name collision must require a full ref");

    match error {
        CloneError::CloudPublishRefAmbiguous {
            selector, matches, ..
        } => {
            assert_eq!(selector, "release");
            assert!(matches.contains("refs/heads/release"));
            assert!(matches.contains("refs/tags/release"));
        }
        other => panic!("expected ambiguous ref error, got {}", other.to_string()),
    }
}

#[test]
fn validate_cloud_clone_option_compatibility_accepts_no_extra_flags() {
    let args = cloud_clone_args_baseline();
    validate_cloud_clone_option_compatibility(&args)
        .expect("baseline libra+cloud:// args without extra flags must pass compatibility");
}

#[test]
fn validate_cloud_clone_option_compatibility_rejects_branch_flag() {
    let mut args = cloud_clone_args_baseline();
    args.branch = Some("main".to_string());
    match validate_cloud_clone_option_compatibility(&args)
        .expect_err("--branch must be rejected for libra+cloud:// sources")
    {
        CloneError::UnsupportedCloudCloneOption { option, hint, .. } => {
            assert_eq!(option, "--branch");
            assert!(
                hint.contains("?ref="),
                "branch hint should redirect to ?ref=: {hint}"
            );
        }
        other => panic!("expected UnsupportedCloudCloneOption, got {other:?}"),
    }
}

#[test]
fn validate_cloud_clone_option_compatibility_rejects_depth_flag() {
    let mut args = cloud_clone_args_baseline();
    args.depth = Some(1);
    match validate_cloud_clone_option_compatibility(&args)
        .expect_err("--depth must be rejected for libra+cloud:// sources")
    {
        CloneError::UnsupportedCloudCloneOption { option, hint, .. } => {
            assert_eq!(option, "--depth");
            assert!(
                hint.contains("--depth"),
                "depth hint should name the flag: {hint}"
            );
        }
        other => panic!("expected UnsupportedCloudCloneOption, got {other:?}"),
    }
}

#[test]
fn validate_cloud_clone_option_compatibility_rejects_single_branch_flag() {
    let mut args = cloud_clone_args_baseline();
    args.single_branch = true;
    match validate_cloud_clone_option_compatibility(&args)
        .expect_err("--single-branch must be rejected for libra+cloud:// sources")
    {
        CloneError::UnsupportedCloudCloneOption { option, hint, .. } => {
            assert_eq!(option, "--single-branch");
            assert!(
                hint.contains("?ref="),
                "single-branch hint should redirect to ?ref=: {hint}"
            );
        }
        other => panic!("expected UnsupportedCloudCloneOption, got {other:?}"),
    }
}

#[test]
fn validate_cloud_clone_option_compatibility_rejects_bare_flag() {
    let mut args = cloud_clone_args_baseline();
    args.bare = true;
    match validate_cloud_clone_option_compatibility(&args)
        .expect_err("--bare must be rejected for libra+cloud:// sources")
    {
        CloneError::UnsupportedCloudCloneOption { option, hint, .. } => {
            assert_eq!(option, "--bare");
            assert!(
                hint.contains("--bare"),
                "bare hint should name the flag: {hint}"
            );
        }
        other => panic!("expected UnsupportedCloudCloneOption, got {other:?}"),
    }
}

#[test]
fn cloud_clone_restore_plan_resolves_revision_latest_from_site_row() {
    let source = CloudPublishSource {
        clone_domain: "code.example.com".to_string(),
        target: CloudPublishTarget::Slug("kepler-ledger".to_string()),
        selector: Some(CloudPublishSelector::Revision("latest".to_string())),
    };
    let site = publish_site_row(
        Some("refs/heads/main"),
        Some("aaaaaaaaaaaaaaaaaaaaaaaaaaaaaaaaaaaaaaaa"),
    );
    let refs = vec![publish_ref_row(
        "refs/heads/main",
        "aaaaaaaaaaaaaaaaaaaaaaaaaaaaaaaaaaaaaaaa",
    )];

    let checkout = resolve_cloud_publish_checkout_target(&source, &site, &refs)
        .expect("revision=latest should resolve from publish_sites.latest_revision_oid");

    assert_eq!(
        checkout,
        CloudPublishCheckoutTarget {
            revision_oid: "aaaaaaaaaaaaaaaaaaaaaaaaaaaaaaaaaaaaaaaa".to_string(),
            ref_name: None,
            selector_kind: CloudPublishCheckoutSelectorKind::LatestRevision,
        }
    );
}

#[test]
fn cloud_clone_restore_plan_validates_r2_object_availability() {
    let source = CloudPublishSource {
        clone_domain: "code.example.com".to_string(),
        target: CloudPublishTarget::Slug("kepler-ledger".to_string()),
        selector: None,
    };
    let site = publish_site_row(
        Some("refs/heads/main"),
        Some("aaaaaaaaaaaaaaaaaaaaaaaaaaaaaaaaaaaaaaaa"),
    );
    let object_indexes = vec![object_index_row("1111111111111111111111111111111111111111")];
    let present = vec![Ok(true)];

    validate_cloud_publish_objects_available(&source, &site, &object_indexes, present, HashKind::Sha1)
        .expect("all indexed objects should exist in R2");
}

#[test]
fn cloud_clone_restore_plan_fails_when_r2_object_is_missing() {
    let source = CloudPublishSource {
        clone_domain: "code.example.com".to_string(),
        target: CloudPublishTarget::Slug("kepler-ledger".to_string()),
        selector: None,
    };
    let site = publish_site_row(
        Some("refs/heads/main"),
        Some("aaaaaaaaaaaaaaaaaaaaaaaaaaaaaaaaaaaaaaaa"),
    );
    let object_oid = "1111111111111111111111111111111111111111";
    let object_indexes = vec![object_index_row(object_oid)];
    let present = vec![Ok(false)];

    let error =
        validate_cloud_publish_objects_available(&source, &site, &object_indexes, present, HashKind::Sha1)
            .expect_err("missing R2 objects must block cloud clone restore");

    match error {
        CloneError::CloudPublishObjectMissing {
            object_oid: missing,
            ..
        } => assert_eq!(missing, object_oid),
        other => panic!("expected missing object error, got {}", other.to_string()),
    }
}

fn source(selector: Option<CloudPublishSelector>) -> CloudPublishSource {
    CloudPublishSource {
        clone_domain: "code.example.com".to_string(),
        target: CloudPublishTarget::Slug("kepler-ledger".to_string()),
        selector,
    }
}

const COMMIT: &str = "aaaaaaaaaaaaaaaaaaaaaaaaaaaaaaaaaaaaaaaa";

#[test]
fn a_source_is_read_from_the_parts_of_a_url() {
    let url = ParsedUrl {
        scheme: "libra+cloud".to_string(),
        host: Some("CODE.example.com".to_string()),
        segments: vec!["repo".to_string(), "rp_1".to_string()],
        query: vec![QueryPair { key: "ref".to_string(), value: "main".to_string() }],
    };
    let parsed = cloud_source_of_url("input", &url).expect("a valid source");
    assert_eq!(parsed.clone_domain, "code.example.com");
    assert_eq!(parsed.target, CloudPublishTarget::RepoId("rp_1".to_string()));
    assert_eq!(parsed.selector, Some(CloudPublishSelector::Ref("main".to_string())));
    let other = ParsedUrl { scheme: "https".to_string(), ..url };
    assert!(matches!(
        cloud_source_of_url("input", &other),
        Err(CloneError::InvalidCloudPublishSource { reason, .. }) if reason == "scheme must be libra+cloud"
    ));
}

#[test]
fn text_that_is_no_url_is_refused() {
    match parse_cloud_publish_source("no url at all") {
        Err(CloneError::InvalidCloudPublishSource { input, reason }) => {
            assert_eq!(input, "no url at all");
            assert!(reason.starts_with("URL parse failed: "));
            assert_ne!(reason, "URL parse failed: no url at all");
        }
        _ => panic!("a text without a scheme is no source"),
    }
}

#[test]
fn full_names_win_over_short_ones() {
    let refs = vec![
        publish_ref_row("refs/heads/refs/tags/v1", "1111111111111111111111111111111111111111"),
        publish_ref_row("refs/tags/v1", "2222222222222222222222222222222222222222"),
    ];
    let site = publish_site_row(None, None);
    let target = resolve_cloud_publish_checkout_target(
        &source(Some(CloudPublishSelector::Ref("refs/tags/v1".to_string()))),
        &site,
        &refs,
    )
    .expect("one full name");
    assert_eq!(target.revision_oid, "2222222222222222222222222222222222222222");
}

#[test]
fn missing_refs_are_told() {
    let site = publish_site_row(None, None);
    assert!(matches!(
        resolve_cloud_publish_checkout_target(&source(None), &site, &Vec::new()),
        Err(CloneError::CloudPublishRefsMissing { .. })
    ));
    let refs = vec![publish_ref_row("refs/heads/main", COMMIT)];
    assert!(matches!(
        resolve_cloud_publish_checkout_target(&source(None), &site, &refs),
        Err(CloneError::CloudPublishDefaultRefMissing { .. })
    ));
    let by_ref = source(Some(CloudPublishSelector::Ref("topic".to_string())));
    assert!(matches!(
        resolve_cloud_publish_checkout_target(&by_ref, &site, &refs),
        Err(CloneError::CloudPublishRefNotFound { selector, .. }) if selector == "topic"
    ));
    let latest = source(Some(CloudPublishSelector::Revision("latest".to_string())));
    assert!(matches!(
        resolve_cloud_publish_checkout_target(&latest, &site, &refs),
        Err(CloneError::CloudPublishLatestRevisionMissing { .. })
    ));
}

#[test]
fn sites_have_to_be_active() {
    let site = || publish_site_row(Some("refs/heads/main"), Some(COMMIT));
    assert!(resolve_cloud_publish_site(&source(None), Ok(Some(site()))).is_ok());
    assert!(matches!(
        resolve_cloud_publish_site(&source(None), Ok(None)),
        Err(CloneError::CloudPublishSiteNotFound { .. })
    ));
    let paused = PublishSiteRow { status: "paused".to_string(), ..site() };
    assert!(matches!(
        resolve_cloud_publish_site(&source(None), Ok(Some(paused))),
        Err(CloneError::CloudPublishSiteUnavailable { status, .. }) if status == "paused"
    ));
    let failed = D1Error { code: 500, message: "timeout".to_string() };
    assert!(matches!(
        resolve_cloud_publish_site(&source(None), Err(failed)),
        Err(CloneError::CloudPublishSiteLookupFailed { code: 500, .. })
    ));
}

fn lookups() -> RestoreLookups {
    RestoreLookups {
        repository: Ok(Some(RepositoryRow { name: "kepler".to_string() })),
        refs: Ok(vec![publish_ref_row("refs/heads/main", COMMIT)]),
        revision: Ok(Some(PublishRevisionRow {
            revision_oid: COMMIT.to_string(),
            status: "published".to_string(),
            ai_index_key: None,
            ai_object_count: 0,
            ai_bundle_count: 0,
        })),
        ai_objects: Ok(Vec::new()),
        ai_versions: Ok(Vec::new()),
        object_indexes: Ok(vec![object_index_row(COMMIT)]),
    }
}

#[test]
fn plans_need_every_row() {
    let site = || publish_site_row(Some("refs/heads/main"), Some(COMMIT));
    let plan = resolve_cloud_publish_restore_plan(&source(None), site(), lookups()).expect("a plan");
    assert_eq!(plan.checkout.revision_oid, COMMIT);
    assert_eq!(plan.object_indexes.len(), 1);
    let no_repository = RestoreLookups { repository: Ok(None), ..lookups() };
    assert!(matches!(
        resolve_cloud_publish_restore_plan(&source(None), site(), no_repository),
        Err(CloneError::CloudPublishRepositoryNotFound { repo_id, .. }) if repo_id == "repo_456"
    ));
    let no_revision = RestoreLookups { revision: Ok(None), ..lookups() };
    assert!(matches!(
        resolve_cloud_publish_restore_plan(&source(None), site(), no_revision),
        Err(CloneError::CloudPublishRevisionNotFound { .. })
    ));
    let no_objects = RestoreLookups { object_indexes: Ok(Vec::new()), ..lookups() };
    assert!(matches!(
        resolve_cloud_publish_restore_plan(&source(None), site(), no_objects),
        Err(CloneError::CloudPublishObjectIndexMissing { .. })
    ));
}

#[test]
fn object_names_of_an_index_are_checked() {
    let site = publish_site_row(None, None);
    let id = object_hash_from_cloud_index(
        &source(None),
        &site,
        "CE013625030BA8DBA906F756967F9E9CA394464A",
        HashKind::Sha1,
    )
    .expect("forty digits");
    assert_eq!(id.to_string(), "ce013625030ba8dba906f756967f9e9ca394464a");
    for bad in ["zz", "abc", "abcd"] {
        assert!(matches!(
            object_hash_from_cloud_index(&source(None), &site, bad, HashKind::Sha1),
            Err(CloneError::CloudPublishObjectIndexInvalid { object_oid, .. }) if object_oid == bad
        ));
    }
    assert_eq!(cloud_object_format(&vec![object_index_row(COMMIT)]), "sha1");
    assert_eq!(cloud_object_format(&vec![object_index_row(&"a".repeat(64))]), "sha256");
    let target = |name: Option<&str>| CloudPublishCheckoutTarget {
        revision_oid: COMMIT.to_string(),
        ref_name: name.map(str::to_string),
        selector_kind: CloudPublishCheckoutSelectorKind::Ref,
    };
    assert_eq!(
        cloud_checkout_branch_name(&target(Some("refs/heads/a/b"))).as_deref(),
        Some("a/b")
    );
    assert_eq!(cloud_checkout_branch_name(&target(Some("refs/tags/v1"))), None);
    assert_eq!(cloud_checkout_branch_name(&target(None)), None);
    assert_eq!(
        cloud_object_restore_failure_message(&Vec::new()),
        "one or more indexed objects failed to restore"
    );
    assert_eq!(
        cloud_object_restore_failure_message(&vec!["a".to_string(), "b".to_string()]),
        "a; b"
    );
}

#[test]
fn an_answer_that_failed_is_returned_at_its_row() {
    let source = CloudPublishSource {
        clone_domain: "code.example.com".to_string(),
        target: CloudPublishTarget::Slug("kepler-ledger".to_string()),
        selector: None,
    };
    let site = publish_site_row(None, None);
    let failed = || {
        Err(CloneError::CloudCloneR2ClientBuildFailed {
            domain: "code.example.com".to_string(),
            message: "timed out".to_string(),
        })
    };
    let good = "1111111111111111111111111111111111111111";
    let rows = |names: &[&str]| names.iter().map(|name| object_index_row(name)).collect();
    let ask = |names: &[&str], present| {
        validate_cloud_publish_objects_available(
            &source,
            &site,
            &rows(names),
            present,
            HashKind::Sha1,
        )
    };
    assert!(matches!(
        ask(&[good, good], vec![Ok(true), failed()]),
        Err(CloneError::CloudCloneR2ClientBuildFailed { message, .. }) if message == "timed out"
    ));
    // What comes first is what is told.
    assert!(matches!(
        ask(&[good, good], vec![Ok(false), failed()]),
        Err(CloneError::CloudPublishObjectMissing { .. })
    ));
    assert!(matches!(
        ask(&["zz"], vec![failed()]),
        Err(CloneError::CloudPublishObjectIndexInvalid { .. })
    ));
}

#[test]
fn objects_that_failed_to_restore_end_the_clone() {
    let source = CloudPublishSource {
        clone_domain: "code.example.com".to_string(),
        target: CloudPublishTarget::Slug("other".to_string()),
        selector: None,
    };
    let site = publish_site_row(None, None);
    assert!(check_restored_objects(&source, &site, 0, &vec!["odd".to_string()]).is_ok());
    match check_restored_objects(&source, &site, 2, &vec!["a".to_string(), "b".to_string()]) {
        Err(CloneError::CloudPublishObjectRestoreFailed { domain, target, message }) => {
            assert_eq!(domain, "code.example.com");
            assert_eq!(target, "slug:kepler-ledger");
            assert_eq!(message, "a; b");
        }
        other => panic!("expected a restore failure, got {:?}", other),
    }
}
