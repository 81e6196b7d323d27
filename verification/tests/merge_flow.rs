//! The options, plans and reports of a merge.

use libra::commit::draft::HeadMove;
use libra::error::{CliError, StableErrorCode};
use libra::merge::flow::{
    check_merge_start, check_merge_target, check_octopus_head, check_octopus_options, conflict_error,
    continue_message, continue_summary, ensure_no_unstaged_changes_for_continue, finalize_autostash,
    merge_state_for, next_virtual_base, object_hash_from_state, octopus_message, path_to_index_key,
    plan_pull_merge, pull_summary, recursive_merge_base, render_merge_output, resolve_editor,
    run_merge_abort, run_merge_quit, select_merge_action, three_way_summary, virtual_commit,
    AutostashStep, MergeAction, MergeBasePlan, MergeState, PullPlan,
};
use libra::merge::options::{
    apply_merge_ff_config, merge_options_from_args, resolve_autostash, resolve_conflict_style,
    resolve_detect_renames, resolve_merge_stat, resolve_no_commit, validate_cleanup_mode,
    validate_diff_algorithm, MergeArgs, MergeConfig, MergeConflictStyle, PullMergeOptions,
};
use libra::merge::report::{
    append_merge_shortlog, first_non_empty_line, merge_commit_message, resolve_signoff_identity,
    LoggedCommit, SignoffIdentity,
};
use libra::merge::steps::{
    drops_state_on_failure, end_of_outcome, end_of_plan, merge_steps, MergeEnd, MergeStep,
};
use libra::merge::workdir::{
    current_head_name, edited_message, editor_command, merge_head_move, merge_reflog,
    merged_blob_error, EditOutcome,
};
use libra::merge::{merge_error_to_cli, PullMergeError};
use libra::object::{HashKind, ObjectId};

fn id(n: u128) -> ObjectId {
    ObjectId { kind: HashKind::Sha1, hi: 0, lo: n }
}

fn args(branches: &[&str]) -> MergeArgs {
    MergeArgs {
        branches: branches.iter().map(|b| b.to_string()).collect(),
        continue_merge: false,
        abort: false,
        quit: false,
        ff_only: false,
        no_ff: false,
        squash: false,
        no_commit: false,
        commit: false,
        allow_unrelated_histories: false,
        autostash: false,
        no_autostash: false,
        message: None,
        file: None,
        signoff: false,
        strategy: None,
        strategy_option: None,
        log: None,
        no_log: false,
        no_signoff: false,
        no_squash: false,
        into_name: None,
        edit: false,
        no_edit: false,
        stat: false,
        no_stat: false,
        conflict: None,
        ignore_space_change: false,
        ignore_all_space: false,
        ignore_space_at_eol: false,
        ignore_cr_at_eol: false,
        find_renames: false,
        no_renames: false,
        diff_algorithm: None,
        cleanup: None,
        skip_hooks: false,
        overwrite_ignore: false,
        no_overwrite_ignore: false,
        rerere_autoupdate: false,
        no_rerere_autoupdate: false,
        gpg_sign: false,
        no_gpg_sign: false,
        verify_signatures: false,
        no_verify_signatures: false,
    }
}

fn config() -> MergeConfig {
    MergeConfig {
        stat: None,
        commit: None,
        renames: None,
        verify_signatures: None,
        auto_stash: None,
        conflict_style: None,
        ff: None,
    }
}

fn text(s: &str) -> Option<String> {
    Some(s.to_string())
}

#[test]
fn the_action_follows_from_the_arguments() {
    assert_eq!(select_merge_action(&args(&["a"])).unwrap(), MergeAction::Single);
    assert_eq!(select_merge_action(&args(&["a", "b"])).unwrap(), MergeAction::Octopus);
    let abort = MergeArgs { abort: true, ..args(&[]) };
    assert_eq!(select_merge_action(&abort).unwrap(), MergeAction::Abort);
    assert!(matches!(select_merge_action(&args(&[])), Err(PullMergeError::MissingAction)));
    let both = MergeArgs { abort: true, ..args(&["a"]) };
    assert!(matches!(select_merge_action(&both), Err(PullMergeError::ConflictingAction)));
}

#[test]
fn flags_override_configuration() {
    let loud = MergeConfig { stat: text(" Yes "), ..config() };
    assert!(!resolve_merge_stat(&args(&["a"]), &config()));
    assert!(resolve_merge_stat(&args(&["a"]), &loud));
    let hidden = MergeArgs { no_stat: true, ..args(&["a"]) };
    assert!(!resolve_merge_stat(&hidden, &loud));
    let shown = MergeArgs { stat: true, ..args(&["a"]) };
    assert!(resolve_merge_stat(&shown, &config()));
    let stash = MergeConfig { auto_stash: text("true"), ..config() };
    assert!(resolve_autostash(&args(&["a"]), &stash));
    let kept = MergeArgs { no_autostash: true, ..args(&["a"]) };
    assert!(!resolve_autostash(&kept, &stash));
    assert!(resolve_detect_renames(&args(&["a"]), &config()));
    let plain = MergeArgs { no_renames: true, ..args(&["a"]) };
    assert!(!resolve_detect_renames(&plain, &config()));
    let later = MergeConfig { commit: text("false"), ..config() };
    assert!(resolve_no_commit(&args(&["a"]), &later).unwrap());
    let wrong = MergeConfig { commit: text("sometimes"), ..config() };
    assert!(matches!(
        resolve_no_commit(&args(&["a"]), &wrong),
        Err(PullMergeError::InvalidMergeCommitConfig { value }) if value == "sometimes"
    ));
    let diff3 = MergeConfig { conflict_style: text("diff3"), ..config() };
    assert_eq!(resolve_conflict_style(None, &diff3), MergeConflictStyle::Diff3);
    assert_eq!(
        resolve_conflict_style(Some(MergeConflictStyle::Merge), &diff3),
        MergeConflictStyle::Merge
    );
}

#[test]
fn fast_forward_is_configured() {
    let (mut only, mut never) = (false, false);
    let c = MergeConfig { ff: text("only"), ..config() };
    apply_merge_ff_config(&mut only, &mut never, &c).unwrap();
    assert_eq!((only, never), (true, false));
    let (mut only, mut never) = (false, false);
    let c = MergeConfig { ff: text("false"), ..config() };
    apply_merge_ff_config(&mut only, &mut never, &c).unwrap();
    assert_eq!((only, never), (false, true));
    let c = MergeConfig { ff: text("perhaps"), ..config() };
    assert!(matches!(
        apply_merge_ff_config(&mut only, &mut never, &c),
        Err(PullMergeError::InvalidMergeFfConfig { value }) if value == "perhaps"
    ));
}

#[test]
fn names_of_algorithms_and_modes_are_checked() {
    assert!(validate_diff_algorithm(Some("histogram")).is_ok());
    assert!(matches!(
        validate_diff_algorithm(Some("bogus")),
        Err(PullMergeError::InvalidDiffAlgorithm { value }) if value == "bogus"
    ));
    assert!(validate_cleanup_mode(Some("scissors")).is_ok());
    assert!(validate_cleanup_mode(None).is_ok());
    assert!(validate_cleanup_mode(Some("bogus")).is_err());
}

#[test]
fn options_are_collected() {
    let a = MergeArgs { message: text("m"), squash: true, ..args(&["a"]) };
    let options = merge_options_from_args(&a, &config(), Err("no file".to_string())).unwrap();
    assert!(options.squash);
    assert_eq!(options.message.as_deref(), Some("m"));
    let wrong = MergeArgs { squash: true, no_ff: true, ..args(&["a"]) };
    assert!(matches!(
        merge_options_from_args(&wrong, &config(), Err("no file".to_string())),
        Err(PullMergeError::SquashNoFf)
    ));
}

#[test]
fn histories_decide_the_plan() {
    let options = PullMergeOptions::plain(true);
    let plan = |current, target, base| plan_pull_merge(&options, current, target, base);
    assert_eq!(plan(None, id(2), None).unwrap(), PullPlan::FastForwardUnborn);
    assert_eq!(plan(Some(id(2)), id(1), Some(id(1))).unwrap(), PullPlan::AlreadyUpToDate);
    assert_eq!(plan(Some(id(1)), id(2), Some(id(1))).unwrap(), PullPlan::FastForward);
    assert_eq!(plan(Some(id(2)), id(3), Some(id(1))).unwrap(), PullPlan::ThreeWay);
    assert!(matches!(
        plan(Some(id(2)), id(3), None),
        Err(PullMergeError::UnrelatedHistories)
    ));
    let only = PullMergeOptions { ff_only: true, ..PullMergeOptions::plain(true) };
    assert!(matches!(
        plan_pull_merge(&only, Some(id(2)), id(3), Some(id(1))),
        Err(PullMergeError::NonFastForward { .. })
    ));
    let squash = PullMergeOptions { squash: true, ..PullMergeOptions::plain(true) };
    assert_eq!(
        plan_pull_merge(&squash, Some(id(1)), id(2), Some(id(1))).unwrap(),
        PullPlan::SquashFastForward
    );
}

#[test]
fn a_merge_does_not_start_on_another() {
    let mut options = PullMergeOptions::plain(true);
    assert!(check_merge_start(&mut options, &config(), Ok(None)).is_ok());
    let state = merge_state_for(
        "main",
        "topic",
        id(1),
        id(2),
        None,
        HashKind::Sha1,
        &Vec::new(),
        "msg".to_string(),
        &PullMergeOptions::plain(true),
    );
    assert_eq!(state.base, "0".repeat(40));
    assert!(matches!(
        check_merge_start(&mut options, &config(), Ok(Some(state))),
        Err(PullMergeError::MergeInProgress)
    ));
    assert!(matches!(
        MergeState::load_required(Ok(None)),
        Err(PullMergeError::NoMergeInProgress)
    ));
    assert!(MergeState::path("/repo/.libra").starts_with("/repo/.libra/"));
    let signed = PullMergeOptions { verify_signatures: true, ..PullMergeOptions::plain(true) };
    assert!(matches!(
        check_merge_target(&signed, "topic", false),
        Err(PullMergeError::UnsignedTarget { target }) if target == "topic"
    ));
}

#[test]
fn steps_are_in_order() {
    let steps = merge_steps(MergeEnd::Commit);
    let at = |s: MergeStep| steps.iter().position(|x| *x == s).unwrap();
    assert!(at(MergeStep::WriteCommit) < at(MergeStep::MoveHead));
    assert!(at(MergeStep::MoveHead) < at(MergeStep::ResetWorktree));
    assert!(!merge_steps(MergeEnd::Conflicts { squash: true }).contains(&MergeStep::SaveState));
    assert!(merge_steps(MergeEnd::Conflicts { squash: false }).contains(&MergeStep::SaveState));
    assert!(merge_steps(MergeEnd::UpToDate).is_empty());
    assert_eq!(end_of_plan(PullPlan::FastForward), Some(MergeEnd::FastForward));
    assert_eq!(end_of_plan(PullPlan::ThreeWay), None);
    assert_eq!(
        end_of_outcome(&libra::merge::flow::ThreeWayOutcome::NoCommit, false),
        MergeEnd::NoCommit
    );
    assert!(drops_state_on_failure(MergeStep::SaveIndex));
    assert!(!drops_state_on_failure(MergeStep::MoveHead));
}

#[test]
fn summaries_say_what_was_done() {
    let ff = pull_summary(PullPlan::FastForward, Some(id(1)), id(2), 3);
    assert_eq!(ff.strategy, "fast-forward");
    assert_eq!(ff.commit, Some(id(2).to_string()));
    assert_eq!(ff.files_changed, 3);
    let three = three_way_summary(&PullMergeOptions::plain(true), id(1), id(2), id(3), 1);
    assert_eq!(three.strategy, "three-way");
    assert_eq!(three.parents, vec![id(1).to_string(), id(2).to_string()]);
    let finished = continue_summary(id(1), id(2), id(3), 1);
    assert!(finished.continued);
    assert!(run_merge_abort(id(1)).aborted);
    assert!(!run_merge_quit().strategy.is_empty());
    assert!(!render_merge_output(&ff, false, None).is_empty());
}

#[test]
fn conflicts_are_errors() {
    assert!(matches!(conflict_error(true, "f".to_string()), PullMergeError::SquashConflicts));
    let error = conflict_error(false, "f".to_string());
    assert!(matches!(&error, PullMergeError::Conflicts { paths } if paths == "f"));
    let cli = merge_error_to_cli(error);
    assert_eq!(cli.stable_code(), StableErrorCode::ConflictOperationBlocked);
    let other = CliError::from_merge_error(&PullMergeError::MergeInProgress);
    assert_ne!(other.exit_code(), 0);
    assert!(ensure_no_unstaged_changes_for_continue(&Vec::new(), &Vec::new()).is_ok());
    assert!(ensure_no_unstaged_changes_for_continue(&vec!["f".to_string()], &Vec::new()).is_err());
}

#[test]
fn an_octopus_is_plain() {
    assert!(check_octopus_options(&PullMergeOptions::plain(true)).is_ok());
    let squash = PullMergeOptions { squash: true, ..PullMergeOptions::plain(true) };
    assert!(matches!(
        check_octopus_options(&squash),
        Err(PullMergeError::OctopusConflict { .. })
    ));
    assert!(check_octopus_head("b", id(1), Some(id(1))).is_ok());
    assert!(matches!(
        check_octopus_head("b", id(1), Some(id(2))),
        Err(PullMergeError::OctopusConflict { detail })
            if detail == "target 'b' is not a clean descendant of HEAD"
    ));
    let targets = vec!["a".to_string(), "b".to_string()];
    assert_eq!(
        octopus_message(&PullMergeOptions::plain(true), "main", &targets),
        "Merge branches a, b into main"
    );
}

#[test]
fn bases_are_merged_when_there_are_several() {
    assert!(matches!(recursive_merge_base(&Vec::new()), MergeBasePlan::NoBase));
    assert!(matches!(recursive_merge_base(&vec![id(1)]), MergeBasePlan::Single(b) if b == id(1)));
    let bases = vec![id(1), id(2), id(3)];
    assert!(matches!(recursive_merge_base(&bases), MergeBasePlan::Virtual));
    assert_eq!(next_virtual_base(0, &bases), Some(id(2)));
    assert_eq!(next_virtual_base(1, &bases), Some(id(3)));
    assert_eq!(next_virtual_base(2, &bases), None);
    assert_eq!(next_virtual_base(usize::MAX, &bases), None);
    assert_eq!(next_virtual_base(0, &Vec::new()), None);
    let commit = virtual_commit(id(9), id(1), id(2));
    assert_eq!((commit.tree, commit.parents), (id(9), vec![id(1), id(2)]));
    assert_eq!(commit.message, "virtual recursive merge base");
}

#[test]
fn editors_that_do_nothing_are_passed_over() {
    assert_eq!(resolve_editor(&vec![text(":"), text(" vi "), text("nano")]), text("vi"));
    assert_eq!(resolve_editor(&vec![None, text("true"), text("")]), None);
    assert_eq!(editor_command("vi", "/r/MERGE_MSG"), "vi \"/r/MERGE_MSG\"");
    let edited = EditOutcome::Edited { text: Ok("new".to_string()) };
    assert_eq!(edited_message("old", true, &edited).unwrap(), "new");
    assert_eq!(edited_message("old", false, &edited).unwrap(), "old");
    assert_eq!(edited_message("old", true, &EditOutcome::NotEdited).unwrap(), "old");
    let lost = EditOutcome::Edited { text: Err("gone".to_string()) };
    assert!(matches!(edited_message("old", true, &lost), Err(PullMergeError::StateLoad(_))));
}

#[test]
fn autostashes_wait_with_the_merge() {
    assert!(matches!(finalize_autostash(None, true), AutostashStep::Nothing));
    assert!(matches!(finalize_autostash(text("s"), true), AutostashStep::Record(s) if s == "s"));
    assert!(matches!(finalize_autostash(text("s"), false), AutostashStep::Reapply));
}

#[test]
fn messages_name_what_was_merged() {
    let identity = || Ok(SignoffIdentity { name: "A".to_string(), email: "a@x".to_string() });
    let message =
        merge_commit_message("topic", "main", &None, &PullMergeOptions::plain(true), identity()).unwrap();
    assert!(message.contains("topic"));
    let signed = PullMergeOptions { signoff: true, ..PullMergeOptions::plain(true) };
    let message = merge_commit_message("topic", "main", &None, &signed, identity()).unwrap();
    assert!(message.ends_with("Signed-off-by: A <a@x>") || message.contains("Signed-off-by: A <a@x>"));
    assert_eq!(first_non_empty_line("\n\n a \n").as_deref(), Some("a"));
    assert_eq!(first_non_empty_line("\n \n"), None);
    assert!(matches!(
        resolve_signoff_identity(None, None, None, text("e")),
        Err(PullMergeError::SignoffIdentity)
    ));
    let mut log = "msg".to_string();
    let current = vec![LoggedCommit { id: id(1), message: "one".to_string() }];
    let target = vec![
        LoggedCommit { id: id(3), message: "three".to_string() },
        LoggedCommit { id: id(2), message: "two".to_string() },
        LoggedCommit { id: id(1), message: "one".to_string() },
    ];
    append_merge_shortlog(&mut log, &current, &target, 5);
    assert!(log.starts_with("msg"));
    assert!(log.contains("three") && log.contains("two"));
    assert!(!log.contains("one"));
}

#[test]
fn states_and_keys_are_read() {
    let hello = "ce013625030ba8dba906f756967f9e9ca394464a";
    assert_eq!(object_hash_from_state("target", hello).unwrap().to_string(), hello);
    assert!(matches!(
        object_hash_from_state("target", "x"),
        Err(PullMergeError::StateLoad(e)) if e.starts_with("invalid target 'x': ")
    ));
    assert_eq!(path_to_index_key(Some("a/b"), "a/b").unwrap(), "a/b");
    assert!(matches!(
        path_to_index_key(None, "a?"),
        Err(PullMergeError::IndexSave(e)) if e == "path is not valid UTF-8: a?"
    ));
    let state = merge_state_for(
        "main",
        "topic",
        id(1),
        id(2),
        Some(id(3)),
        HashKind::Sha1,
        &Vec::new(),
        "msg".to_string(),
        &PullMergeOptions::plain(true),
    );
    assert_eq!(continue_message(&PullMergeOptions::plain(true), &state).as_deref(), Some("msg"));
    assert_eq!(object_hash_from_state("orig_head", &state.orig_head).unwrap(), id(1));
    assert_eq!(object_hash_from_state("target", &state.target).unwrap(), id(2));
}

#[test]
fn head_moves_as_it_is_named() {
    assert!(matches!(merge_head_move("HEAD", id(1)), HeadMove::Detached(d) if d == id(1)));
    assert!(matches!(merge_head_move("main", id(1)), HeadMove::Branch(b) if b == "main"));
    assert_eq!(current_head_name(&None), "HEAD");
    assert_eq!(current_head_name(&text("main")), "main");
    let entry = merge_reflog(HashKind::Sha1, None, id(1), "topic", "fast-forward");
    assert_eq!(entry.old_oid, "0".repeat(40));
    assert_eq!(entry.policy, "fast-forward");
    assert!(matches!(
        merged_blob_error(true, id(1), "f", "gone"),
        PullMergeError::WorkdirReset(e) if e.starts_with("failed to load merged blob ") && e.ends_with(" for 'f': gone")
    ));
}
