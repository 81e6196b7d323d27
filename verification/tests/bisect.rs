//! Bisection: the candidates, the session, and what it reports.

use libra::bisect::report::{
    bisect_run_outcome, bisect_run_verdict, check_bisect_run, count_run_step,
    map_bisect_branch_store_error, render_bisect_output, restore_to_branch, run_bisect_log,
    run_bisect_reset, run_bisect_view, run_converged, BisectError, RunProgress, RunVerdict,
};
use libra::bisect::session::{
    check_bisect_start, is_bare_repository, parse_git_bool, resolve_ref, run_bisect_bad,
    run_bisect_good, run_bisect_skip, run_bisect_start, BisectOutput, BisectStatus, StartSituation,
};
use libra::bisect::{
    count_commits_to_test, find_next_bisect_point, get_all_ancestors, get_testable_commits,
    BisectNext, BisectState, CommitFacts, CommitGraph, GraphCommit,
};
use libra::branch::BranchStoreError;
use libra::error::{CliError, StableErrorCode};
use libra::object::{HashKind, ObjectId};

fn id(n: u128) -> ObjectId {
    ObjectId { kind: HashKind::Sha1, hi: 0, lo: n }
}

fn graph(edges: &[(u128, &[u128])]) -> CommitGraph {
    CommitGraph {
        commits: edges
            .iter()
            .map(|(n, parents)| GraphCommit {
                id: id(*n),
                facts: Ok(CommitFacts {
                    parents: parents.iter().map(|p| id(*p)).collect(),
                    subject: format!("commit {n}"),
                }),
            })
            .collect(),
    }
}

/// 1 <- 2 <- 3 <- 4 <- 5 <- 6 <- 7
fn line() -> CommitGraph {
    graph(&[
        (1, &[]),
        (2, &[1]),
        (3, &[2]),
        (4, &[3]),
        (5, &[4]),
        (6, &[5]),
        (7, &[6]),
    ])
}

fn state(bad: Option<u128>, good: &[u128], skipped: &[u128]) -> BisectState {
    BisectState {
        orig_head: id(7),
        orig_head_name: Some("main".to_string()),
        bad: bad.map(id),
        good: good.iter().map(|g| id(*g)).collect(),
        current: None,
        skipped: skipped.iter().map(|s| id(*s)).collect(),
        steps: None,
        completed: false,
    }
}

#[test]
fn ancestors_are_all_that_can_be_reached() {
    let g = graph(&[(1, &[]), (2, &[1]), (3, &[1]), (4, &[2, 3])]);
    let mut found = get_all_ancestors(&g, &vec![id(4)]).expect("readable");
    found.sort_by_key(|i| i.lo);
    assert_eq!(found, vec![id(1), id(2), id(3), id(4)]);
}

#[test]
fn an_unreadable_commit_stops_the_search() {
    let mut g = line();
    g.commits[3].facts = Err("damaged".to_string());
    let error = get_all_ancestors(&g, &vec![id(7)]).expect_err("commit 4 cannot be read");
    assert!(error.contains("damaged"));
}

#[test]
fn candidates_are_oldest_first_and_end_with_the_bad_commit() {
    let found = get_testable_commits(&line(), id(7), &vec![id(2)], &Vec::new()).expect("readable");
    assert_eq!(found, vec![id(3), id(4), id(5), id(6), id(7)]);
    let skipping = get_testable_commits(&line(), id(7), &vec![id(2)], &vec![id(5)]).expect("readable");
    assert_eq!(skipping, vec![id(3), id(4), id(6), id(7)]);
    let merged = graph(&[(1, &[]), (2, &[1]), (3, &[2]), (4, &[2, 3])]);
    let found = get_testable_commits(&merged, id(4), &vec![id(1)], &Vec::new()).expect("readable");
    assert_eq!(found, vec![id(2), id(3), id(4)]);
}

#[test]
fn a_skipped_commit_does_not_hide_its_ancestors() {
    let short = graph(&[(1, &[]), (2, &[1]), (3, &[2]), (4, &[3])]);
    let next = find_next_bisect_point(&short, &state(Some(4), &[1], &[3])).expect("readable");
    assert_eq!(next, BisectNext::Next(id(2)));
    let next = find_next_bisect_point(&short, &state(Some(4), &[1], &[4])).expect("readable");
    assert_eq!(next, BisectNext::Next(id(2)));
    let next = find_next_bisect_point(&short, &state(Some(4), &[1], &[2, 3])).expect("readable");
    assert_eq!(next, BisectNext::Converged);
    let next = find_next_bisect_point(&short, &state(Some(4), &[1], &[2, 3, 4])).expect("readable");
    assert_eq!(next, BisectNext::AllSkipped);
    let step = run_bisect_good(&short, state(Some(4), &[1], &[2, 4]), Ok(Some(id(1)))).expect("good");
    assert_eq!((step.state.current, step.checkout), (Some(id(3)), Some(id(3))));
    assert!(step.state.completed);
    assert!(matches!(&step.output, BisectOutput::Mark { first_bad: Some(found), .. } if *found == id(3)));
    // The bounds of the search stay as they were.
    assert_eq!(step.state.bad, Some(id(4)));
}

#[test]
fn the_next_point_is_the_middle_of_the_candidates() {
    let s = state(Some(7), &[1], &[]);
    let next = find_next_bisect_point(&line(), &s).expect("readable");
    assert!(matches!(next, BisectNext::Next(_)));
    if let BisectNext::Next(point) = next {
        assert!(point == id(4) || point == id(5));
    }
    assert_eq!(count_commits_to_test(&line(), &s).expect("readable"), 6);
}

#[test]
fn one_candidate_is_the_culprit() {
    let next = find_next_bisect_point(&line(), &state(Some(4), &[3], &[])).expect("readable");
    assert!(matches!(next, BisectNext::Converged));
}

#[test]
fn a_session_finds_the_first_bad_commit() {
    let g = line();
    let culprit = 5u128;
    let step = run_bisect_start(&g, id(7), Some("main".to_string()), Some(id(7)), Some(id(1)))
        .expect("a start");
    let mut s = step.state;
    let mut rounds = 0;
    while !s.completed {
        rounds += 1;
        assert!(rounds < 10, "the search has to end");
        let current = s.current.expect("a commit to test");
        let step = if current.lo >= culprit {
            run_bisect_bad(&g, s, Ok(Some(current))).expect("bad")
        } else {
            run_bisect_good(&g, s, Ok(Some(current))).expect("good")
        };
        if let BisectOutput::Mark { status, first_bad, subject, .. } = &step.output {
            if *status == BisectStatus::Converged {
                assert_eq!(*first_bad, Some(id(culprit)));
                assert_eq!(subject.as_deref(), Some("commit 5"));
            }
        }
        s = step.state;
        assert_eq!(s.orig_head, id(7));
        assert_eq!(s.orig_head_name.as_deref(), Some("main"));
    }
}

#[test]
fn a_session_waits_for_its_bounds() {
    let g = line();
    let step = run_bisect_start(&g, id(7), None, None, None).expect("a start");
    assert!(step.checkout.is_none());
    if let BisectOutput::Start { status, .. } = &step.output {
        assert_eq!(*status, BisectStatus::Started);
    } else {
        panic!("a start reports a start");
    }
    let step = run_bisect_bad(&g, step.state, Ok(Some(id(7)))).expect("bad");
    if let BisectOutput::Mark { status, .. } = &step.output {
        assert_eq!(*status, BisectStatus::WaitingForGood);
    } else {
        panic!("a mark reports a mark");
    }
    let step = run_bisect_good(&g, step.state, Ok(Some(id(1)))).expect("good");
    assert!(step.checkout.is_some());
}

#[test]
fn skipping_goes_on_to_another_candidate() {
    let g = line();
    let step = run_bisect_start(&g, id(7), None, Some(id(7)), Some(id(1))).expect("a start");
    let first = step.state.current.expect("a commit to test");
    let step = run_bisect_skip(&g, step.state, None).expect("skip");
    assert!(step.state.skipped.contains(&first));
    assert_ne!(step.state.current, Some(first));
}

#[test]
fn git_booleans_are_read() {
    for text in ["true", "YES", "on", "1"] {
        assert_eq!(parse_git_bool(text), Some(true), "{text}");
    }
    for text in ["false", "No", "off", "0"] {
        assert_eq!(parse_git_bool(text), Some(false), "{text}");
    }
    assert_eq!(parse_git_bool("maybe"), None);
    assert_eq!(is_bare_repository(&Ok(Some("true".to_string()))).expect("a boolean"), true);
    assert_eq!(is_bare_repository(&Ok(None)).expect("a default"), false);
}

fn ready() -> StartSituation {
    StartSituation {
        bare: Ok(None),
        staged_clean: Ok(true),
        unstaged_clean: Ok(true),
        has_state: Ok(false),
        head: Some(id(7)),
    }
}

#[test]
fn a_start_needs_a_clean_tree_and_a_commit() {
    assert_eq!(check_bisect_start(&ready()).expect("ready"), id(7));
    let dirty = StartSituation { unstaged_clean: Ok(false), ..ready() };
    assert!(check_bisect_start(&dirty).is_err());
    let unborn = StartSituation { head: None, ..ready() };
    assert!(check_bisect_start(&unborn).is_err());
    let active = StartSituation { has_state: Ok(true), ..ready() };
    assert!(check_bisect_start(&active).is_err());
    let bare = StartSituation { bare: Ok(Some("true".to_string())), ..ready() };
    assert!(check_bisect_start(&bare).is_err());
}

#[test]
fn names_that_do_not_resolve_are_told() {
    let error = resolve_ref("nowhere", Err("not found".to_string())).expect_err("no such ref");
    assert!(error.message().contains("nowhere"));
    assert_eq!(resolve_ref("HEAD", Ok(id(7))).expect("resolved"), id(7));
}

#[test]
fn exit_codes_are_verdicts() {
    assert_eq!(bisect_run_verdict(Some(0)).expect("good"), RunVerdict::Good);
    assert_eq!(bisect_run_verdict(Some(1)).expect("bad"), RunVerdict::Bad);
    assert_eq!(bisect_run_verdict(Some(127)).expect("bad"), RunVerdict::Bad);
    assert_eq!(bisect_run_verdict(Some(125)).expect("skip"), RunVerdict::Skip);
    assert!(matches!(
        bisect_run_verdict(Some(128)),
        Err(BisectError::RunCommandFailed { exit_code: 128 })
    ));
    assert!(matches!(bisect_run_verdict(None), Err(BisectError::RunCommandSignaled)));
}

#[test]
fn runs_need_a_session_with_bounds_and_a_command() {
    let cmd = vec!["make".to_string()];
    let active = BisectState { current: Some(id(4)), ..state(Some(7), &[1], &[]) };
    assert!(check_bisect_run(&Some(active), &cmd).is_ok());
    assert!(check_bisect_run(&Some(state(Some(7), &[1], &[])), &cmd).is_err());
    assert_eq!(
        check_bisect_run(&None, &cmd).expect_err("no session").stable_code(),
        StableErrorCode::BisectNotActive
    );
    assert!(check_bisect_run(&Some(state(None, &[1], &[])), &cmd).is_err());
}

#[test]
fn runs_count_their_steps() {
    let progress = RunProgress { steps: 0, skipped: Vec::new() };
    let progress = count_run_step(progress, RunVerdict::Skip, &Some("abc".to_string()));
    assert_eq!(progress.steps, 1);
    assert_eq!(progress.skipped, vec!["abc"]);
    let progress = count_run_step(progress, RunVerdict::Bad, &Some("def".to_string()));
    assert_eq!(progress.steps, 2);
    assert_eq!(progress.skipped, vec!["abc"]);
}

#[test]
fn a_run_ends_at_the_culprit() {
    let progress = RunProgress { steps: 3, skipped: Vec::new() };
    let going = bisect_run_outcome(&line(), &state(Some(7), &[1], &[]), &progress).expect("readable");
    assert!(going.is_none());
    let found = BisectState { completed: true, ..state(Some(4), &[3], &[]) };
    let done = bisect_run_outcome(&line(), &found, &progress).expect("readable");
    assert!(matches!(done, Some(BisectOutput::Run { steps: 3, .. })));
    let last = run_bisect_bad(&line(), state(Some(7), &[3], &[]), Ok(Some(id(4)))).expect("bad");
    let ended = run_converged(&last.output, &progress);
    assert!(matches!(
        ended,
        Some(BisectOutput::Run { first_bad: Some(found), steps: 3, .. }) if found == id(4)
    ));
    let more = run_bisect_bad(&line(), state(Some(7), &[1], &[]), Ok(Some(id(5)))).expect("bad");
    assert!(run_converged(&more.output, &progress).is_none());
}

#[test]
fn bisect_errors_have_stable_codes() {
    for (error, code) in [
        (BisectError::NotActive, StableErrorCode::BisectNotActive),
        (BisectError::RunCommandFailed { exit_code: 200 }, StableErrorCode::BisectRunFailed),
        (BisectError::RunCommandSignaled, StableErrorCode::BisectRunFailed),
        (BisectError::NoMoreCandidates, StableErrorCode::BisectNoCandidates),
    ] {
        assert_eq!(CliError::from_bisect_error(error).stable_code(), code);
    }
}

#[test]
fn a_reset_goes_back_to_where_the_session_began() {
    let target = run_bisect_reset(&state(Some(7), &[1], &[]), None, &Ok(Some(id(7)))).expect("a target");
    assert_eq!(target.commit, id(7));
    assert_eq!(target.branch.as_deref(), Some("main"));
    let other = run_bisect_reset(&state(Some(7), &[1], &[]), Some(Ok(id(3))), &Ok(Some(id(7)))).expect("a target");
    assert_eq!(other.commit, id(3));
    assert!(restore_to_branch("main", &Some("main".to_string())).is_ok());
    assert!(restore_to_branch("main", &None).is_err());
}

#[test]
fn branch_errors_keep_their_class() {
    let corrupt = BranchStoreError::Corrupt { name: "main".to_string(), detail: "bad id".to_string() };
    assert_eq!(
        map_bisect_branch_store_error("main", &corrupt).stable_code(),
        StableErrorCode::RepoCorrupt
    );
    let query = BranchStoreError::Query("locked".to_string());
    assert_eq!(
        map_bisect_branch_store_error("main", &query).stable_code(),
        StableErrorCode::IoReadFailed
    );
}

#[test]
fn a_view_without_a_session_is_an_invalid_state() {
    let error = run_bisect_view(&line(), &None, None).expect_err("no session");
    assert_eq!(error.stable_code(), StableErrorCode::RepoStateInvalid);
    assert!(run_bisect_view(&line(), &Some(state(Some(7), &[1], &[])), Some(id(4))).is_ok());
}

#[test]
fn sessions_are_saved_and_loaded() {
    let s = BisectState {
        current: Some(id(4)),
        steps: Some(2),
        ..state(Some(7), &[1, 2], &[5])
    };
    let loaded = BisectState::load(Some(s.to_row())).expect("a session");
    assert_eq!(loaded.orig_head, s.orig_head);
    assert_eq!(loaded.orig_head_name, s.orig_head_name);
    assert_eq!(loaded.bad, s.bad);
    assert_eq!(loaded.good, s.good);
    assert_eq!(loaded.current, s.current);
    assert_eq!(loaded.skipped, s.skipped);
    assert_eq!(loaded.steps, s.steps);
    assert_eq!(loaded.completed, s.completed);
    assert!(BisectState::load(None).is_err());
}

#[test]
fn reports_are_quiet_when_asked_to_be() {
    let log = run_bisect_log(&state(Some(7), &[1], &[]));
    assert!(render_bisect_output(&log, true, 7).is_empty());
    assert!(!render_bisect_output(&log, false, 7).is_empty());
}

#[test]
fn a_column_that_was_added_meanwhile_is_no_error() {
    assert!(libra::bisect::report::column_migration_error("x: duplicate column name: completed").is_ok());
    assert_eq!(
        libra::bisect::report::column_migration_error("disk full").unwrap_err(),
        "failed to add completed column: disk full"
    );
}

#[test]
fn every_verdict_leaves_half() {
    let g = line();
    let count = |bad, good: &[u128]| count_commits_to_test(&g, &state(Some(bad), good, &[])).unwrap();
    assert_eq!(count(7, &[1]), 6);
    let BisectNext::Next(middle) =
        find_next_bisect_point(&g, &state(Some(7), &[1], &[])).unwrap()
    else {
        panic!("there is more than one candidate");
    };
    assert_eq!(middle, id(4));
    assert_eq!(count(4, &[1]), 3);
    assert_eq!(count(7, &[1, 4]), 3);
    assert_eq!(count(7, &[4]), 3);
    assert_eq!(count(7, &[5]), 2);
    assert_eq!(count(6, &[5]), 1);
}
