//! Making a commit: who makes it, its message, its object, and the order of its steps.

use git_internal::hash::{set_hash_kind, HashKind as OutsideKind, ObjectHash};
use git_internal::internal::object::commit::Commit;
use git_internal::internal::object::ObjectTrait;
use libra::commit::draft::{
    auto_stage_tracked_changes, branch_update_error, build_commit_output, check_commit_start,
    check_conventional, commit_message, draft_commit, get_parents_ids, reflog_old_id,
    render_commit_output, run_pre_commit_hook, runs_pre_commit_hook, signing_enabled, update_head,
    AmendedCommit, Changes, HeadMove, ModifiedFile,
};
use libra::commit::objects::{commit_object, vault_sign_content, CommitSignature};
use libra::commit::run::{run_commit, start_commit, CommitEvent, CommitStage};
use libra::commit::tree::{create_tree, create_tree_of};
use libra::commit::{
    create_commit_signatures, parse_author, resolve_committer_identity, CommitArgs, CommitError,
    IdentitySources, UserIdentity,
};
use libra::merge::staging::StagedFile;
use libra::object::{object_id_from_str, HashKind, ObjectId};

const HELLO: &str = "ce013625030ba8dba906f756967f9e9ca394464a";

fn id(n: u128) -> ObjectId {
    ObjectId { kind: HashKind::Sha1, hi: 0, lo: n }
}

#[test]
fn test_parse_author() {
    // Valid author formats
    let (name, email) = parse_author("John Doe <john@example.com>").unwrap();
    assert_eq!(name, "John Doe");
    assert_eq!(email, "john@example.com");

    let (name, email) = parse_author("  Jane Smith  <jane@test.org>  ").unwrap();
    assert_eq!(name, "Jane Smith");
    assert_eq!(email, "jane@test.org");

    let (name, email) = parse_author("Multi Word Name <multi@word.com>").unwrap();
    assert_eq!(name, "Multi Word Name");
    assert_eq!(email, "multi@word.com");

    // Invalid formats should return CommitError::InvalidAuthor
    assert!(matches!(parse_author("invalid"), Err(CommitError::InvalidAuthor(_))));
    assert!(matches!(parse_author("No Email"), Err(CommitError::InvalidAuthor(_))));
    assert!(matches!(parse_author("<noemail@test.com>"), Err(CommitError::InvalidAuthor(_))));
    assert!(matches!(parse_author("Name <"), Err(CommitError::InvalidAuthor(_))));
}

#[test]
fn test_commit_message() {
    let args = CommitArgs {
        message: None,
        file: None,
        allow_empty: false,
        conventional: false,
        amend: true,
        no_edit: true,
        signoff: false,
        disable_pre: false,
        all: false,
        skip_hooks: false,
        author: None,
    };
    let message = commit_message(&args, &None).ok();
    assert_eq!(message, Some("".to_string()));
}

#[test]
fn messages_come_from_the_argument_before_the_file() {
    let both = CommitArgs {
        message: Some("given".to_string()),
        file: Some("msg.txt".to_string()),
        ..CommitArgs::default()
    };
    assert_eq!(commit_message(&both, &Some(Ok("read".to_string()))).unwrap(), "given");
    let file = CommitArgs { file: Some("msg.txt".to_string()), ..CommitArgs::default() };
    assert_eq!(commit_message(&file, &Some(Ok("read".to_string()))).unwrap(), "read");
    assert!(matches!(
        commit_message(&file, &Some(Err("gone".to_string()))),
        Err(CommitError::MessageFileRead { path, detail }) if path == "msg.txt" && detail == "gone"
    ));
    assert!(matches!(
        commit_message(&CommitArgs::default(), &None),
        Err(CommitError::EmptyMessage)
    ));
}

#[test]
fn messages_are_read_back_from_commit_objects() {
    set_hash_kind(OutsideKind::Sha1);
    let test_cases = vec![
        "Hello, World! 你好，世界！",
        "Special chars: \n\t\r\\\"'",
        "Emoji: 😀🎉🚀, Unicode:  Café café",
        "",
        "Mix: 中文\n\tEmoji😀\rSpecial\\\"'",
    ];
    for test_data in test_cases {
        let content = test_data.to_string();
        let signature = CommitSignature {
            name: "test".to_string(),
            email: "test".to_string(),
            timestamp: 1,
            timezone: "+0000".to_string(),
        };
        let (commit_id, commit_data) = commit_object(
            HashKind::Sha1,
            ObjectId::zero(HashKind::Sha1),
            &Vec::new(),
            &signature,
            &signature,
            &content,
        );
        let outside_id: ObjectHash = commit_id.to_string().parse().unwrap();
        let message = Commit::from_bytes(&commit_data, outside_id).unwrap().message;
        assert_eq!(message, test_data);
    }
}

#[test]
fn commit_objects_have_the_names_that_git_gives_them() {
    let signature = CommitSignature {
        name: "A".to_string(),
        email: "a@x".to_string(),
        timestamp: 1,
        timezone: "+0000".to_string(),
    };
    let tree = object_id_from_str("4b825dc642cb6eb9a060e54bf8d69288fbee4904").unwrap();
    let (commit_id, data) =
        commit_object(HashKind::Sha1, tree, &Vec::new(), &signature, &signature, "\nmsg");
    assert_eq!(
        String::from_utf8(data).unwrap(),
        "tree 4b825dc642cb6eb9a060e54bf8d69288fbee4904\nauthor A <a@x> 1 +0000\ncommitter A <a@x> 1 +0000\n\nmsg"
    );
    assert_eq!(commit_id.to_string(), "e0fbcaad3b51dfa01cc0458048ca704222a43d8a");
    let signed = vault_sign_content(tree, &vec![id(5)], &signature, &signature, "msg");
    assert!(String::from_utf8(signed).unwrap().contains(&format!("parent {}\n", id(5).to_string())));
}

#[test]
fn identities_come_from_configuration_before_the_environment() {
    let sources = IdentitySources {
        config_name: Some("Config".to_string()),
        config_email: Some("config@x".to_string()),
        env_name: Some("Env".to_string()),
        env_email: Some("env@x".to_string()),
        use_config_only: None,
    };
    let by = resolve_committer_identity(&sources).unwrap();
    assert_eq!((by.name.as_str(), by.email.as_str()), ("Config", "config@x"));
    let env = IdentitySources { config_name: None, config_email: None, ..sources };
    let by = resolve_committer_identity(&env).unwrap();
    assert_eq!((by.name.as_str(), by.email.as_str()), ("Env", "env@x"));
    let only = IdentitySources { use_config_only: Some("true".to_string()), ..env };
    assert!(matches!(
        resolve_committer_identity(&only),
        Err(CommitError::IdentityMissing(_))
    ));
    let (author, committer) = create_commit_signatures(
        Some("Other <other@x>"),
        &IdentitySources {
            config_name: Some("Config".to_string()),
            config_email: Some("config@x".to_string()),
            env_name: None,
            env_email: None,
            use_config_only: None,
        },
    )
    .unwrap();
    assert_eq!(author.name, "Other");
    assert_eq!(committer.name, "Config");
}

fn changes(new: usize) -> Changes {
    Changes {
        new: (0..new).map(|n| format!("f{n}")).collect(),
        modified: Vec::new(),
        deleted: Vec::new(),
    }
}

#[test]
fn nothing_staged_is_nothing_to_commit() {
    let args = CommitArgs::default();
    assert!(matches!(
        check_commit_start(&args, true, false, &Ok(changes(0))),
        Err(CommitError::NothingToCommitNoTracked)
    ));
    assert!(matches!(
        check_commit_start(&args, false, false, &Ok(changes(0))),
        Err(CommitError::NothingToCommit)
    ));
    assert!(matches!(
        check_commit_start(&args, false, false, &Err("damaged".to_string())),
        Err(CommitError::StagedChanges(e)) if e == "damaged"
    ));
    assert!(check_commit_start(&args, false, false, &Ok(changes(1))).is_ok());
    let amend = CommitArgs { amend: true, ..CommitArgs::default() };
    assert!(check_commit_start(&amend, true, false, &Ok(changes(0))).is_ok());
}

#[test]
fn hooks_stop_a_commit() {
    assert!(runs_pre_commit_hook(&CommitArgs::default()));
    assert!(!runs_pre_commit_hook(&CommitArgs { skip_hooks: true, ..CommitArgs::default() }));
    assert!(run_pre_commit_hook("pre-commit.sh", &Ok(Some(0))).is_ok());
    assert!(matches!(
        run_pre_commit_hook("pre-commit.sh", &Ok(Some(3))),
        Err(CommitError::PreCommitHook(e)) if e == "hook pre-commit.sh failed with exit code 3"
    ));
    assert!(matches!(
        run_pre_commit_hook("pre-commit.sh", &Ok(None)),
        Err(CommitError::PreCommitHook(e)) if e == "hook pre-commit.sh failed with exit code -1"
    ));
}

#[test]
fn test_no_verify_skips_conventional_check() {
    let args_with_verify = CommitArgs {
        message: Some("invalid commit: no type or scope".to_string()),
        file: None,
        allow_empty: true,
        conventional: true,
        skip_hooks: false,
        amend: false,
        no_edit: false,
        signoff: false,
        disable_pre: false,
        all: false,
        author: None,
    };
    let verify_result = check_conventional(&args_with_verify, false);
    assert!(
        verify_result.is_err(),
        "Conventional check should fail without --no-verify"
    );
    let args_no_verify = CommitArgs { skip_hooks: true, ..args_with_verify };
    let no_verify_result = check_conventional(&args_no_verify, false);
    assert!(
        no_verify_result.is_ok(),
        "--no-verify should skip conventional check"
    );
}

fn committer() -> UserIdentity {
    UserIdentity { name: "A".to_string(), email: "a@x".to_string() }
}

#[test]
fn signing_off_keeps_the_message() {
    let args = CommitArgs { signoff: true, ..CommitArgs::default() };
    let none = Err("not loaded".to_string());
    let draft = draft_commit(&args, "msg", &committer(), &vec![id(1)], &none).unwrap();
    assert_eq!(draft.message, "msg\n\nSigned-off-by: A <a@x>");
    assert_eq!(draft.parents, vec![id(1)]);
}

#[test]
fn an_amended_commit_takes_the_place_of_the_old_one() {
    let args = CommitArgs { amend: true, no_edit: true, ..CommitArgs::default() };
    let old = AmendedCommit { parents: vec![id(8), id(9)], message: "old".to_string() };
    let draft = draft_commit(&args, "", &committer(), &vec![id(1)], &Ok(old)).unwrap();
    assert_eq!(draft.message, "old");
    assert_eq!(draft.parents, vec![id(8), id(9)]);
    let none: Result<AmendedCommit, String> = Err("damaged".to_string());
    assert!(matches!(
        draft_commit(&args, "", &committer(), &Vec::new(), &none),
        Err(CommitError::NoCommitToAmend)
    ));
    assert!(matches!(
        draft_commit(&args, "", &committer(), &vec![id(1), id(2)], &none),
        Err(CommitError::AmendUnsupported)
    ));
    assert!(matches!(
        draft_commit(&args, "", &committer(), &vec![id(1)], &none),
        Err(CommitError::ParentCommitLoad { detail, .. }) if detail == "damaged"
    ));
}

#[test]
fn head_and_reflog_follow_the_commit() {
    assert_eq!(get_parents_ids(None), Vec::<ObjectId>::new());
    assert_eq!(get_parents_ids(Some(id(3))), vec![id(3)]);
    assert_eq!(reflog_old_id(None, HashKind::Sha256), ObjectId::zero(HashKind::Sha256));
    assert!(matches!(
        update_head(&Some("main".to_string()), HELLO),
        Ok(HeadMove::Branch(name)) if name == "main"
    ));
    assert!(matches!(update_head(&None, HELLO), Ok(HeadMove::Detached(d)) if d.to_string() == HELLO));
    assert!(matches!(update_head(&None, "x"), Err(CommitError::HeadUpdate(_))));
    assert!(matches!(
        branch_update_error("main", "locked"),
        CommitError::HeadUpdate(e) if e == "failed to update branch 'main': locked"
    ));
    assert!(signing_enabled(false, &Some("true".to_string())));
    assert!(!signing_enabled(false, &Some("TRUE".to_string())));
    assert!(signing_enabled(true, &None));
}

#[test]
fn commits_are_reported() {
    let out = build_commit_output(
        &CommitArgs::default(),
        &Some("main".to_string()),
        object_id_from_str(HELLO).unwrap(),
        true,
        " subject ",
        &changes(2),
        None,
        false,
    );
    assert_eq!(out.short_id, "ce01362");
    assert_eq!(out.subject, "subject");
    assert_eq!(out.files_changed.total, 2);
    let lines = render_commit_output(&out, false);
    assert_eq!(lines.len(), 2);
    assert!(lines[0].contains("ce01362"));
    assert!(render_commit_output(&out, true).is_empty());
}

#[test]
fn changed_files_are_staged_again() {
    let modified = vec![
        ModifiedFile { path: "a".to_string(), exists: true },
        ModifiedFile { path: "b".to_string(), exists: false },
    ];
    let plan = auto_stage_tracked_changes(&modified, &vec!["c".to_string()]).expect("a plan");
    assert_eq!(plan.refresh, vec!["a"]);
    assert_eq!(plan.drop, vec!["c"]);
    assert!(auto_stage_tracked_changes(&Vec::new(), &Vec::new()).is_none());
}

fn staged(name: &str, mode: u32) -> StagedFile {
    StagedFile { name: name.to_string(), mode, hash: HELLO.to_string(), size: 6 }
}

#[test]
fn trees_are_made_of_what_is_staged() {
    let files = vec![staged("dir/a.txt", 0o100644), staged("run.sh", 0o100755)];
    let (root, trees) = create_tree_of(&files, HashKind::Sha1).unwrap();
    assert_eq!(root.to_string(), "09a3e54c3305a08aab9977334047314a219b78d0");
    assert_eq!(trees.len(), 2);
    let index = git_internal::internal::index::Index::new();
    let (empty, _) = create_tree(&index, HashKind::Sha1).unwrap();
    assert_eq!(empty.to_string(), "4b825dc642cb6eb9a060e54bf8d69288fbee4904");
}

#[test]
fn trees_need_known_modes() {
    let files = vec![staged("odd", 0o123)];
    assert!(matches!(create_tree_of(&files, HashKind::Sha1), Err(CommitError::TreeCreation(_))));
}

fn events() -> Vec<CommitEvent> {
    vec![
        CommitEvent::StagedRead { index_empty: false, staged: Ok(changes(1)) },
        CommitEvent::HookEnded { hook: "pre-commit.sh".to_string(), outcome: Ok(Some(0)) },
        CommitEvent::MessageRead { file: None },
        CommitEvent::TreeBuilt { outcome: Ok(id(1)) },
        CommitEvent::Known {
            committer: Ok(committer()),
            heads: vec![id(2)],
            amended: Err("not loaded".to_string()),
        },
        CommitEvent::Judged { follows: true },
        CommitEvent::Signed { outcome: Ok(None) },
        CommitEvent::Saved { outcome: Ok(id(3)) },
        CommitEvent::HeadMoved { outcome: Ok(()) },
    ]
}

#[test]
fn a_commit_goes_through_its_stages() {
    let args = CommitArgs {
        message: Some("feat: x".to_string()),
        conventional: true,
        ..CommitArgs::default()
    };
    let mut run = start_commit(&args);
    let stages = [
        CommitStage::Hooking,
        CommitStage::Messaging,
        CommitStage::Building,
        CommitStage::Drafting,
        CommitStage::Validating,
        CommitStage::Signing,
        CommitStage::Saving,
        CommitStage::Moving,
        CommitStage::Done,
    ];
    for (event, stage) in events().into_iter().zip(stages) {
        run = run_commit(&args, run, event).expect("every step succeeds");
        assert_eq!(run.stage, stage);
    }
    assert_eq!(run.commit, Some(id(3)));
    assert_eq!(run.parents, vec![id(2)]);
    assert_eq!(run.conventional, Some(true));
    assert!(run.hook_passed);
}

#[test]
fn nothing_is_saved_out_of_turn() {
    let args = CommitArgs { message: Some("x".to_string()), ..CommitArgs::default() };
    let run = start_commit(&args);
    let run = run_commit(&args, run, CommitEvent::Saved { outcome: Ok(id(3)) }).expect("ignored");
    assert_eq!(run.stage, CommitStage::Checking);
    assert_eq!(run.commit, None);
    let run = run_commit(&args, run, CommitEvent::HeadMoved { outcome: Ok(()) }).expect("ignored");
    assert_eq!(run.stage, CommitStage::Checking);
}

#[test]
fn a_failed_hook_ends_a_commit() {
    let args = CommitArgs { message: Some("x".to_string()), ..CommitArgs::default() };
    let run = start_commit(&args);
    let staged = CommitEvent::StagedRead { index_empty: false, staged: Ok(changes(1)) };
    let run = run_commit(&args, run, staged).expect("something is staged");
    let ended = CommitEvent::HookEnded { hook: "h".to_string(), outcome: Ok(Some(1)) };
    assert!(matches!(run_commit(&args, run, ended), Err(CommitError::PreCommitHook(_))));
}
