//! Inspecting, ending and automating a bisect session, and what is shown of it.

use vstd::prelude::*;

use crate::bisect::{
    candidate_count, candidates, copy_ids, count_commits_to_test, BisectState, CommitGraph,
};
use crate::bisect::session::{
    mark_text, opt_nat, rev_view, BisectMark, BisectOutput, BisectStatus, OutputView, StateView,
};
use crate::branch::{branch_error_text, BranchStoreError};
use crate::error::{CliError, ErrorView, StableErrorCode};
use crate::object::{
    law_object_name_has_its_digits, law_object_name_is_read_back, object_id_from_str, parsed_id,
    short_display_hash, short_hash, ObjectId,
};
use crate::text::{
    clone_opt_text, clone_texts, concat2, concat3, concat4, concat5, contains_str, decimal,
    has_infix, join, join_seq, lower, opt_text, signed_decimal, signed_text, text_eq, texts,
    usize_text,
};

verus! {

/// Why a bisect command cannot go on.
#[derive(Debug, Clone, Copy, PartialEq, Eq, Structural)]
pub enum BisectError {
    NotActive,
    RunBoundsMissing,
    RunCommandFailed { exit_code: i32 },
    RunCommandSignaled,
    NoMoreCandidates,
}

pub open spec fn bisect_error_text(e: BisectError) -> Seq<char> {
    match e {
        BisectError::NotActive => "not in an active bisect; run `libra bisect start` first"@,
        BisectError::RunBoundsMissing => "bisect run requires bad and good bounds before automation can start"@,
        BisectError::RunCommandFailed { exit_code } => "bisect run command failed with non-recoverable exit code "@
            + signed_decimal(exit_code as int),
        BisectError::RunCommandSignaled => "bisect run command terminated by signal"@,
        BisectError::NoMoreCandidates => "no more candidate commits; bisect already converged"@,
    }
}

/// The command error for each way to fail.
pub open spec fn bisect_error_view(e: BisectError) -> ErrorView {
    let fatal = ErrorView::fatal(bisect_error_text(e));
    match e {
        BisectError::NotActive => fatal.coded(StableErrorCode::BisectNotActive).hint(
            "start a bisect session before calling this subcommand"@,
        ),
        BisectError::RunBoundsMissing => fatal.coded(StableErrorCode::RepoStateInvalid).hint(
            "run 'libra bisect start <bad> --good <good>' before automation"@,
        ),
        BisectError::RunCommandFailed { .. } => fatal.coded(StableErrorCode::BisectRunFailed).hint(
            "re-run with a script that returns 0 (good) / 1-127 (bad) / 125 (skip)"@,
        ),
        BisectError::RunCommandSignaled => fatal.coded(StableErrorCode::BisectRunFailed).hint(
            "ensure the script exits cleanly; signals abort the bisect"@,
        ),
        BisectError::NoMoreCandidates => fatal.coded(StableErrorCode::BisectNoCandidates).hint(
            "run `libra bisect view` to inspect remaining candidates"@,
        ),
    }
}

impl BisectError {
    /// The text of the error.
    pub fn to_string(&self) -> (r: String)
        ensures
            r@ == bisect_error_text(*self),
    {
        match self {
            BisectError::NotActive => "not in an active bisect; run `libra bisect start` first".to_owned(),
            BisectError::RunBoundsMissing => "bisect run requires bad and good bounds before automation can start".to_owned(),
            BisectError::RunCommandFailed { exit_code } => {
                let code = signed_text(*exit_code);
                concat2(
                    "bisect run command failed with non-recoverable exit code ",
                    code.as_str(),
                )
            },
            BisectError::RunCommandSignaled => "bisect run command terminated by signal".to_owned(),
            BisectError::NoMoreCandidates => "no more candidate commits; bisect already converged".to_owned(),
        }
    }
}

impl CliError {
    /// The command error for a bisect error.
    pub fn from_bisect_error(error: BisectError) -> (r: CliError)
        ensures
            r@ == bisect_error_view(error),
    {
        let fatal = CliError::fatal(error.to_string());
        match error {
            BisectError::NotActive => fatal.with_stable_code(
                StableErrorCode::BisectNotActive,
            ).with_hint("start a bisect session before calling this subcommand"),
            BisectError::RunBoundsMissing => fatal.with_stable_code(
                StableErrorCode::RepoStateInvalid,
            ).with_hint("run 'libra bisect start <bad> --good <good>' before automation"),
            BisectError::RunCommandFailed { .. } => fatal.with_stable_code(
                StableErrorCode::BisectRunFailed,
            ).with_hint("re-run with a script that returns 0 (good) / 1-127 (bad) / 125 (skip)"),
            BisectError::RunCommandSignaled => fatal.with_stable_code(
                StableErrorCode::BisectRunFailed,
            ).with_hint("ensure the script exits cleanly; signals abort the bisect"),
            BisectError::NoMoreCandidates => fatal.with_stable_code(
                StableErrorCode::BisectNoCandidates,
            ).with_hint("run `libra bisect view` to inspect remaining candidates"),
        }
    }
}

pub open spec fn branch_repair_hint() -> Seq<char> {
    "repair branch storage or reset to an explicit revision with 'libra bisect reset <rev>'."@
}

/// The command error for a branch that cannot be looked up on reset.
pub open spec fn reset_branch_error(branch_name: Seq<char>, e: BranchStoreError) -> ErrorView {
    let fatal = ErrorView::fatal(
        "failed to restore original branch '"@ + branch_name + "': "@ + branch_error_text(e),
    );
    match e {
        BranchStoreError::Query(_) => fatal.coded(StableErrorCode::IoReadFailed).hint(
            branch_repair_hint(),
        ),
        BranchStoreError::Corrupt { .. } => fatal.coded(StableErrorCode::RepoCorrupt).hint(
            branch_repair_hint(),
        ),
        BranchStoreError::NotFound(_) => fatal.coded(StableErrorCode::RepoStateInvalid),
        BranchStoreError::Delete { .. } => fatal.coded(StableErrorCode::IoWriteFailed),
    }
}

pub fn map_bisect_branch_store_error(branch_name: &str, error: &BranchStoreError) -> (r: CliError)
    ensures
        r@ == reset_branch_error(branch_name@, *error),
{
    let detail = error.to_string();
    let fatal = CliError::fatal(
        concat4("failed to restore original branch '", branch_name, "': ", detail.as_str()),
    );
    match error {
        BranchStoreError::Query(_) => fatal.with_stable_code(
            StableErrorCode::IoReadFailed,
        ).with_hint(
            "repair branch storage or reset to an explicit revision with 'libra bisect reset <rev>'.",
        ),
        BranchStoreError::Corrupt { .. } => fatal.with_stable_code(
            StableErrorCode::RepoCorrupt,
        ).with_hint(
            "repair branch storage or reset to an explicit revision with 'libra bisect reset <rev>'.",
        ),
        BranchStoreError::NotFound(_) => fatal.with_stable_code(StableErrorCode::RepoStateInvalid),
        BranchStoreError::Delete { .. } => fatal.with_stable_code(StableErrorCode::IoWriteFailed),
    }
}

/// Where a reset goes: the commit, and the branch to attach HEAD to.
#[derive(Debug)]
pub struct ResetTarget {
    pub commit: ObjectId,
    pub branch: Option<String>,
}

/// The revision that was named; else the tip of the branch that the session started on, where
/// that still exists; else the commit that it started from.
pub open spec fn reset_choice(
    s: StateView,
    rev: Option<Result<ObjectId, ErrorView>>,
    branch: Result<Option<ObjectId>, BranchStoreError>,
) -> Result<(ObjectId, Option<Seq<char>>), ErrorView> {
    match (rev, s.orig_head_name) {
        (Some(Ok(id)), _) => Ok((id, None)),
        (Some(Err(e)), _) => Err(e),
        (None, None) => Ok((s.orig_head, None)),
        (None, Some(name)) => match branch {
            Ok(Some(tip)) => Ok((tip, Some(name))),
            Ok(None) => Ok((s.orig_head, None)),
            Err(e) => Err(reset_branch_error(name, e)),
        },
    }
}

/// Determine where to reset. `branch` is the tip of the branch that the session started on.
pub fn run_bisect_reset(
    state: &BisectState,
    rev: Option<Result<ObjectId, CliError>>,
    branch: &Result<Option<ObjectId>, BranchStoreError>,
) -> (r: Result<ResetTarget, CliError>)
    ensures
        match (r, reset_choice(state@, rev_view(rev), *branch)) {
            (Ok(t), Ok(want)) => t.commit == want.0 && opt_text(t.branch) == want.1,
            (Err(e), Err(want)) => e@ == want,
            _ => false,
        },
{
    match rev {
        Some(Ok(id)) => {
            return Ok(ResetTarget { commit: id, branch: None });
        },
        Some(Err(e)) => {
            return Err(e);
        },
        None => {},
    }
    match &state.orig_head_name {
        None => Ok(ResetTarget { commit: state.orig_head, branch: None }),
        Some(name) => match branch {
            Ok(Some(tip)) => Ok(ResetTarget { commit: *tip, branch: Some(name.clone()) }),
            Ok(None) => Ok(ResetTarget { commit: state.orig_head, branch: None }),
            Err(e) => Err(map_bisect_branch_store_error(name.as_str(), e)),
        },
    }
}

/// What is reported of a reset: where it went, or that there was no session.
pub fn bisect_reset_output(target: Option<ResetTarget>) -> (r: BisectOutput)
    ensures
        r@ == match target {
            None => OutputView::Reset { restored: false, commit: None, branch: None },
            Some(t) => OutputView::Reset {
                restored: true,
                commit: Some(t.commit),
                branch: opt_text(t.branch),
            },
        },
{
    match target {
        None => BisectOutput::Reset { restored: false, commit: None, branch: None },
        Some(t) => BisectOutput::Reset { restored: true, commit: Some(t.commit), branch: t.branch },
    }
}

/// HEAD must be on the branch after it was attached to it.
pub fn restore_to_branch(branch_name: &str, actual: &Option<String>) -> (r: Result<(), CliError>)
    ensures
        match r {
            Ok(_) => opt_text(*actual) == Some(branch_name@),
            Err(e) => opt_text(*actual) != Some(branch_name@) && e@ == ErrorView::fatal(
                "Failed to update HEAD to branch '"@ + branch_name@ + "'"@,
            ),
        },
{
    if let Some(name) = actual {
        if text_eq(name.as_str(), branch_name) {
            return Ok(());
        }
    }
    Err(CliError::fatal(concat3("Failed to update HEAD to branch '", branch_name, "'")))
}

/// A human-readable status of the session.
pub fn run_bisect_log(state: &BisectState) -> (r: BisectOutput)
    ensures
        r@ == (OutputView::Log {
            bad: state.bad,
            good: state.good@,
            current: state.current,
            skipped: state.skipped@,
            steps: opt_nat(state.steps),
            completed: state.completed,
        }),
{
    BisectOutput::Log {
        bad: state.bad,
        good: copy_ids(&state.good),
        current: state.current,
        skipped: copy_ids(&state.skipped),
        steps: state.steps,
        completed: state.completed,
    }
}

/// How many candidates are left; none where they cannot be counted.
pub open spec fn remaining_count(graph: CommitGraph, s: StateView) -> nat {
    match candidate_count(graph, s.bad, s.good, s.skipped) {
        Ok(n) => n,
        Err(_) => 0,
    }
}

/// The error of `bisect view` without a session.
pub open spec fn no_session_to_view() -> ErrorView {
    ErrorView::fatal(bisect_error_text(BisectError::NotActive)).coded(
        StableErrorCode::RepoStateInvalid,
    ).hint("start a bisect session before calling this subcommand"@)
}

/// The current bounds and how many candidates remain. Without a session this is an error.
pub fn run_bisect_view(graph: &CommitGraph, state: &Option<BisectState>, head: Option<ObjectId>) -> (r:
    Result<BisectOutput, CliError>)
    ensures
        match (r, *state) {
            (Ok(out), Some(s)) => out@ == (OutputView::View {
                head,
                good: s.good@,
                bad: s.bad,
                current: s.current,
                remaining: remaining_count(*graph, s@),
                skipped: s.skipped@,
                completed: s.completed,
            }),
            (Err(e), None) => e@ == no_session_to_view(),
            _ => false,
        },
{
    match state {
        None => Err(
            CliError::fatal(BisectError::NotActive.to_string()).with_stable_code(
                StableErrorCode::RepoStateInvalid,
            ).with_hint("start a bisect session before calling this subcommand"),
        ),
        Some(s) => {
            let remaining: usize = match count_commits_to_test(graph, s) {
                Ok(n) => n,
                Err(_) => 0,
            };
            Ok(
                BisectOutput::View {
                    head,
                    good: copy_ids(&s.good),
                    bad: s.bad,
                    current: s.current,
                    remaining,
                    skipped: copy_ids(&s.skipped),
                    completed: s.completed,
                },
            )
        },
    }
}

/// Whether a session can be automated: it must be active, have both bounds and a commit to test,
/// and a command to run.
pub open spec fn run_check(s: Option<StateView>, cmd_len: nat) -> Option<ErrorView> {
    match s {
        None => Some(bisect_error_view(BisectError::NotActive)),
        Some(s) => if s.completed {
            Some(bisect_error_view(BisectError::NotActive))
        } else if s.bad is None || s.good.len() == 0 || s.current is None {
            Some(bisect_error_view(BisectError::RunBoundsMissing))
        } else if cmd_len == 0 {
            Some(ErrorView::fatal("`bisect run` requires a command to execute"@))
        } else {
            None
        },
    }
}

pub open spec fn opt_state(s: Option<BisectState>) -> Option<StateView> {
    match s {
        Some(s) => Some(s@),
        None => None,
    }
}

pub fn check_bisect_run(state: &Option<BisectState>, cmd: &Vec<String>) -> (r: Result<(), CliError>)
    ensures
        match (r, run_check(opt_state(*state), cmd@.len())) {
            (Ok(_), None) => true,
            (Err(e), Some(want)) => e@ == want,
            _ => false,
        },
{
    match state {
        None => Err(CliError::from_bisect_error(BisectError::NotActive)),
        Some(s) => {
            if s.completed {
                Err(CliError::from_bisect_error(BisectError::NotActive))
            } else if s.bad.is_none() || s.good.is_empty() || s.current.is_none() {
                Err(CliError::from_bisect_error(BisectError::RunBoundsMissing))
            } else if cmd.is_empty() {
                Err(CliError::fatal("`bisect run` requires a command to execute".to_owned()))
            } else {
                Ok(())
            }
        },
    }
}

/// What the exit status of the test command says of a commit.
#[derive(Debug, Clone, Copy, PartialEq, Eq, Structural)]
pub enum RunVerdict {
    Good,
    Skip,
    Bad,
}

/// 0 is good, 125 cannot be tested, any other status up to 127 is bad; the rest ends the run.
pub open spec fn run_verdict(code: Option<i32>) -> Result<RunVerdict, BisectError> {
    match code {
        None => Err(BisectError::RunCommandSignaled),
        Some(c) => if c == 0 {
            Ok(RunVerdict::Good)
        } else if c == 125 {
            Ok(RunVerdict::Skip)
        } else if 1 <= c <= 127 {
            Ok(RunVerdict::Bad)
        } else {
            Err(BisectError::RunCommandFailed { exit_code: c })
        },
    }
}

pub fn bisect_run_verdict(code: Option<i32>) -> (r: Result<RunVerdict, BisectError>)
    ensures
        r == run_verdict(code),
{
    match code {
        None => Err(BisectError::RunCommandSignaled),
        Some(c) => {
            if c == 0 {
                Ok(RunVerdict::Good)
            } else if c == 125 {
                Ok(RunVerdict::Skip)
            } else if 1 <= c && c <= 127 {
                Ok(RunVerdict::Bad)
            } else {
                Err(BisectError::RunCommandFailed { exit_code: c })
            }
        },
    }
}

/// How far an automated session has come: the tests that ran and the commits that they skipped.
#[derive(Debug)]
pub struct RunProgress {
    pub steps: usize,
    pub skipped: Vec<String>,
}

/// Count one test; a skipped commit is noted as HEAD shows it.
pub fn count_run_step(progress: RunProgress, verdict: RunVerdict, head: &Option<String>) -> (r:
    RunProgress)
    requires
        progress.steps < usize::MAX,
    ensures
        r.steps == progress.steps + 1,
        texts(r.skipped@) == if verdict == RunVerdict::Skip {
            texts(progress.skipped@).push(
                match opt_text(*head) {
                    Some(h) => h,
                    None => "(no HEAD)"@,
                },
            )
        } else {
            texts(progress.skipped@)
        },
{
    let ghost before = progress.skipped@;
    let mut skipped = progress.skipped;
    if verdict == RunVerdict::Skip {
        let shown = match head {
            Some(h) => h.clone(),
            None => "(no HEAD)".to_owned(),
        };
        let ghost t = shown@;
        skipped.push(shown);
        assert(texts(skipped@) =~= texts(before).push(t));
    }
    RunProgress { steps: progress.steps + 1, skipped }
}

/// How a run ends with a verdict that named the culprit; `None` where it goes on.
pub fn run_converged(verdict: &BisectOutput, progress: &RunProgress) -> (r: Option<BisectOutput>)
    ensures
        match (r, verdict@) {
            (Some(out), OutputView::Mark { first_bad: Some(id), .. }) => out@ == (OutputView::Run {
                first_bad: Some(id),
                steps: progress.steps as nat,
                skipped: texts(progress.skipped@),
                remaining: Some(0),
            }),
            (Some(_), _) => false,
            (None, OutputView::Mark { first_bad, .. }) => first_bad is None,
            (None, _) => true,
        },
{
    match verdict {
        BisectOutput::Mark { first_bad: Some(id), .. } => Some(
            BisectOutput::Run {
                first_bad: Some(*id),
                steps: progress.steps,
                skipped: clone_texts(&progress.skipped),
                remaining: Some(0),
            },
        ),
        _ => None,
    }
}

/// Where a run stands: `Ok(Some(..))` when the culprit is found, `Ok(None)` while candidates are
/// left, an error when none is.
pub fn bisect_run_outcome(graph: &CommitGraph, state: &BisectState, progress: &RunProgress) -> (r:
    Result<Option<BisectOutput>, CliError>)
    ensures
        match r {
            Ok(Some(out)) => state.completed && out@ == (OutputView::Run {
                first_bad: state.bad,
                steps: progress.steps as nat,
                skipped: texts(progress.skipped@),
                remaining: Some(0),
            }),
            Ok(None) => !state.completed && remaining_count(*graph, state@) > 0,
            Err(e) => !state.completed && remaining_count(*graph, state@) == 0 && e@
                == bisect_error_view(BisectError::NoMoreCandidates),
        },
{
    if state.completed {
        return Ok(
            Some(
                BisectOutput::Run {
                    first_bad: state.bad,
                    steps: progress.steps,
                    skipped: clone_texts(&progress.skipped),
                    remaining: Some(0),
                },
            ),
        );
    }
    let remaining: usize = match count_commits_to_test(graph, state) {
        Ok(n) => n,
        Err(_) => 0,
    };
    if remaining == 0 {
        return Err(CliError::from_bisect_error(BisectError::NoMoreCandidates));
    }
    Ok(None)
}

pub open spec fn short_hashes(ids: Seq<ObjectId>, width: nat) -> Seq<Seq<char>> {
    ids.map_values(|id: ObjectId| short_hash(id, width))
}

fn short_texts(ids: &Vec<ObjectId>, width: usize) -> (r: Vec<String>)
    ensures
        texts(r@) == short_hashes(ids@, width as nat),
{
    let mut out: Vec<String> = Vec::new();
    let mut i: usize = 0;
    while i < ids.len()
        invariant
            i <= ids@.len(),
            texts(out@) == short_hashes(ids@, width as nat).take(i as int),
        decreases ids@.len() - i,
    {
        let ghost before = out@;
        let s = short_display_hash(ids[i], width);
        let ghost t = s@;
        out.push(s);
        assert(texts(out@) =~= texts(before).push(t));
        assert(short_hashes(ids@, width as nat).take(i as int + 1) =~= short_hashes(
            ids@,
            width as nat,
        ).take(i as int).push(t));
        i = i + 1;
    }
    assert(short_hashes(ids@, width as nat).take(ids@.len() as int) =~= short_hashes(
        ids@,
        width as nat,
    ));
    out
}

pub open spec fn short_or(id: Option<ObjectId>, width: nat, none: Seq<char>) -> Seq<char> {
    match id {
        Some(id) => short_hash(id, width),
        None => none,
    }
}

fn short_text_or(id: Option<ObjectId>, width: usize, none: &str) -> (r: String)
    ensures
        r@ == short_or(id, width as nat, none@),
{
    match id {
        Some(id) => short_display_hash(id, width),
        None => none.to_owned(),
    }
}

/// The lines that tell where a session stands.
pub open spec fn progress_lines(
    status: BisectStatus,
    current: Option<ObjectId>,
    first_bad: Option<ObjectId>,
    subject: Option<Seq<char>>,
    remaining: Option<nat>,
    width: nat,
) -> Seq<Seq<char>> {
    let none = Seq::<Seq<char>>::empty();
    match status {
        BisectStatus::Started => none,
        BisectStatus::WaitingForGood => seq!["Status: waiting for good commit(s)"@],
        BisectStatus::WaitingForBad => seq!["Status: waiting for bad commit"@],
        BisectStatus::Testing => (match current {
            Some(id) => seq!["HEAD is now at "@ + short_hash(id, width)],
            None => none,
        }) + (match remaining {
            Some(n) => seq![
                "Bisecting: "@ + decimal(n) + " revisions left to test after this"@,
            ],
            None => none,
        }),
        BisectStatus::Converged => (match first_bad {
            Some(id) => seq![short_hash(id, width) + " is the first bad commit"@],
            None => none,
        }) + (match subject {
            Some(s) => seq![s],
            None => none,
        }),
        BisectStatus::AllSkipped => seq![
            "Cannot narrow down further - all commits have been skipped"@,
        ],
    }
}

pub open spec fn debug_steps(steps: Option<nat>) -> Seq<char> {
    match steps {
        Some(n) => "Some("@ + decimal(n) + ")"@,
        None => "None"@,
    }
}

/// The lines that a command prints.
pub open spec fn output_lines(out: OutputView, width: nat) -> Seq<Seq<char>> {
    match out {
        OutputView::Start { status, current, first_bad, subject, remaining, .. } => seq![
            "Bisect session started"@,
        ] + progress_lines(status, current, first_bad, subject, remaining, width),
        OutputView::Mark { mark, commit, status, current, first_bad, subject, remaining, .. } => seq![
            "Marked "@ + short_hash(commit, width) + " as "@ + mark_text(mark),
        ] + progress_lines(status, current, first_bad, subject, remaining, width),
        OutputView::Skip { commit, status, current, remaining, .. } => seq![
            "Skipped "@ + short_hash(commit, width),
        ] + progress_lines(status, current, None, None, remaining, width),
        OutputView::Reset { restored, commit, branch } => if !restored {
            seq!["No bisect in progress"@]
        } else {
            match commit {
                None => Seq::empty(),
                Some(id) => seq![
                    match branch {
                        Some(name) => "HEAD is now at "@ + short_hash(id, width) + " (on branch "@
                            + name + ")"@,
                        None => "HEAD is now at "@ + short_hash(id, width),
                    },
                    "Bisect session ended, HEAD restored to "@ + short_hash(id, width),
                ],
            }
        },
        OutputView::Log { bad, good, current, skipped, steps, .. } => seq![
            "Bisect log:"@,
            "  Bad: "@ + short_or(bad, width, "not set"@),
            "  Good: "@ + join_seq(short_hashes(good, width), ", "@),
            "  Current: "@ + short_or(current, width, "not set"@),
            "  Skipped: "@ + decimal(skipped.len()) + " commits"@,
            "  Steps remaining: "@ + debug_steps(steps),
        ],
        OutputView::View { head, good, bad, remaining, skipped, .. } => seq![
            "Bisecting between "@ + (if good.len() > 0 {
                short_hash(good[0], width)
            } else {
                "(unset)"@
            }) + " (good) and "@ + short_or(bad, width, "(unset)"@) + " (bad)"@,
            "HEAD: "@ + short_or(head, width, "(none)"@),
            "Remaining: "@ + decimal(remaining) + " candidate(s)"@,
            "Skipped: "@ + (if skipped.len() == 0 {
                "(none)"@
            } else {
                join_seq(short_hashes(skipped, width), ", "@)
            }),
        ],
        OutputView::Run { first_bad, steps, skipped, .. } => (match first_bad {
            Some(id) => seq!["Converged: first bad commit is "@ + short_hash(id, width)],
            None => Seq::<Seq<char>>::empty(),
        }) + seq![decimal(steps) + " steps, "@ + decimal(skipped.len()) + " skipped"@],
    }
}

fn push_line(out: &mut Vec<String>, line: String)
    ensures
        texts(final(out)@) == texts(old(out)@).push(line@),
{
    let ghost before = out@;
    let ghost t = line@;
    out.push(line);
    assert(texts(out@) =~= texts(before).push(t));
}

fn render_bisect_progress(
    out: &mut Vec<String>,
    status: BisectStatus,
    current: Option<ObjectId>,
    first_bad: Option<ObjectId>,
    subject: &Option<String>,
    remaining: Option<usize>,
    width: usize,
)
    ensures
        texts(final(out)@) == texts(old(out)@) + progress_lines(
            status,
            current,
            first_bad,
            opt_text(*subject),
            opt_nat(remaining),
            width as nat,
        ),
{
    let ghost before = texts(out@);
    match status {
        BisectStatus::Started => {},
        BisectStatus::WaitingForGood => {
            push_line(out, "Status: waiting for good commit(s)".to_owned());
        },
        BisectStatus::WaitingForBad => {
            push_line(out, "Status: waiting for bad commit".to_owned());
        },
        BisectStatus::Testing => {
            if let Some(id) = current {
                let short = short_display_hash(id, width);
                push_line(out, concat2("HEAD is now at ", short.as_str()));
            }
            if let Some(n) = remaining {
                let count = usize_text(n);
                push_line(
                    out,
                    concat3("Bisecting: ", count.as_str(), " revisions left to test after this"),
                );
            }
        },
        BisectStatus::Converged => {
            if let Some(id) = first_bad {
                let short = short_display_hash(id, width);
                push_line(out, concat2(short.as_str(), " is the first bad commit"));
            }
            if let Some(s) = subject {
                push_line(out, s.clone());
            }
        },
        BisectStatus::AllSkipped => {
            push_line(
                out,
                "Cannot narrow down further - all commits have been skipped".to_owned(),
            );
        },
    }
    assert(texts(out@) =~= before + progress_lines(
        status,
        current,
        first_bad,
        opt_text(*subject),
        opt_nat(remaining),
        width as nat,
    ));
}

/// The lines that a command prints, none where it is to be quiet. Object names are cut to
/// `width` digits.
pub fn render_bisect_output(result: &BisectOutput, quiet: bool, width: usize) -> (r: Vec<String>)
    ensures
        texts(r@) == if quiet {
            Seq::<Seq<char>>::empty()
        } else {
            output_lines(result@, width as nat)
        },
{
    let mut out: Vec<String> = Vec::new();
    assert(texts(out@) =~= Seq::<Seq<char>>::empty());
    if quiet {
        return out;
    }
    match result {
        BisectOutput::Start { status, current, first_bad, subject, remaining, .. } => {
            push_line(&mut out, "Bisect session started".to_owned());
            render_bisect_progress(
                &mut out,
                *status,
                *current,
                *first_bad,
                subject,
                *remaining,
                width,
            );
        },
        BisectOutput::Mark { mark, commit, status, current, first_bad, subject, remaining, .. } => {
            let short = short_display_hash(*commit, width);
            push_line(&mut out, concat4("Marked ", short.as_str(), " as ", mark.as_str()));
            render_bisect_progress(
                &mut out,
                *status,
                *current,
                *first_bad,
                subject,
                *remaining,
                width,
            );
        },
        BisectOutput::Skip { commit, status, current, remaining, .. } => {
            let short = short_display_hash(*commit, width);
            push_line(&mut out, concat2("Skipped ", short.as_str()));
            render_bisect_progress(&mut out, *status, *current, None, &None, *remaining, width);
        },
        BisectOutput::Reset { restored, commit, branch } => {
            if !*restored {
                push_line(&mut out, "No bisect in progress".to_owned());
            } else if let Some(id) = commit {
                let short = short_display_hash(*id, width);
                match branch {
                    Some(name) => {
                        push_line(
                            &mut out,
                            concat5(
                                "HEAD is now at ",
                                short.as_str(),
                                " (on branch ",
                                name.as_str(),
                                ")",
                            ),
                        );
                    },
                    None => {
                        push_line(&mut out, concat2("HEAD is now at ", short.as_str()));
                    },
                }
                push_line(
                    &mut out,
                    concat2("Bisect session ended, HEAD restored to ", short.as_str()),
                );
            }
        },
        BisectOutput::Log { bad, good, current, skipped, steps, .. } => {
            push_line(&mut out, "Bisect log:".to_owned());
            let shown = short_text_or(*bad, width, "not set");
            push_line(&mut out, concat2("  Bad: ", shown.as_str()));
            let list = join(&short_texts(good, width), ", ");
            push_line(&mut out, concat2("  Good: ", list.as_str()));
            let shown = short_text_or(*current, width, "not set");
            push_line(&mut out, concat2("  Current: ", shown.as_str()));
            let count = usize_text(skipped.len());
            push_line(&mut out, concat3("  Skipped: ", count.as_str(), " commits"));
            let left = match steps {
                Some(n) => {
                    let digits = usize_text(*n);
                    concat3("Some(", digits.as_str(), ")")
                },
                None => "None".to_owned(),
            };
            push_line(&mut out, concat2("  Steps remaining: ", left.as_str()));
        },
        BisectOutput::View { head, good, bad, remaining, skipped, .. } => {
            let first = if good.is_empty() {
                "(unset)".to_owned()
            } else {
                short_display_hash(good[0], width)
            };
            let last = short_text_or(*bad, width, "(unset)");
            push_line(
                &mut out,
                concat5(
                    "Bisecting between ",
                    first.as_str(),
                    " (good) and ",
                    last.as_str(),
                    " (bad)",
                ),
            );
            let shown = short_text_or(*head, width, "(none)");
            push_line(&mut out, concat2("HEAD: ", shown.as_str()));
            let count = usize_text(*remaining);
            push_line(&mut out, concat3("Remaining: ", count.as_str(), " candidate(s)"));
            if skipped.is_empty() {
                push_line(&mut out, concat2("Skipped: ", "(none)"));
            } else {
                let list = join(&short_texts(skipped, width), ", ");
                push_line(&mut out, concat2("Skipped: ", list.as_str()));
            }
        },
        BisectOutput::Run { first_bad, steps, skipped, .. } => {
            if let Some(id) = first_bad {
                let short = short_display_hash(*id, width);
                push_line(&mut out, concat2("Converged: first bad commit is ", short.as_str()));
            }
            let ran = usize_text(*steps);
            let count = usize_text(skipped.len());
            push_line(&mut out, concat4(ran.as_str(), " steps, ", count.as_str(), " skipped"));
        },
    }
    assert(texts(out@) =~= output_lines(result@, width as nat));
    out
}

/// A session as it is stored: one row of plain values.
#[derive(Debug)]
pub struct BisectRow {
    pub orig_head: String,
    pub orig_head_name: Option<String>,
    pub bad: Option<String>,
    pub good: Vec<ObjectId>,
    pub current: Option<String>,
    pub skipped: Vec<ObjectId>,
    pub steps: Option<i64>,
    pub completed: i64,
}

pub struct RowView {
    pub orig_head: Seq<char>,
    pub orig_head_name: Option<Seq<char>>,
    pub bad: Option<Seq<char>>,
    pub good: Seq<ObjectId>,
    pub current: Option<Seq<char>>,
    pub skipped: Seq<ObjectId>,
    pub steps: Option<i64>,
    pub completed: i64,
}

impl View for BisectRow {
    type V = RowView;

    open spec fn view(&self) -> RowView {
        RowView {
            orig_head: self.orig_head@,
            orig_head_name: opt_text(self.orig_head_name),
            bad: opt_text(self.bad),
            good: self.good@,
            current: opt_text(self.current),
            skipped: self.skipped@,
            steps: self.steps,
            completed: self.completed,
        }
    }
}

/// The object name in a column, if there is one.
pub open spec fn column_id(text: Option<Seq<char>>) -> Option<ObjectId> {
    match text {
        None => None,
        Some(t) => match parsed_id(t) {
            Ok(id) => Some(id),
            Err(_) => None,
        },
    }
}

/// The state that a row holds. Only a bad `orig_head` is an error.
pub open spec fn row_state(row: RowView) -> Result<StateView, Seq<char>> {
    match parsed_id(row.orig_head) {
        Err(e) => Err("invalid orig_head hash: "@ + e),
        Ok(id) => Ok(
            StateView {
                orig_head: id,
                orig_head_name: row.orig_head_name,
                bad: column_id(row.bad),
                good: row.good,
                current: column_id(row.current),
                skipped: row.skipped,
                steps: match row.steps {
                    Some(n) => Some((n as usize) as nat),
                    None => None,
                },
                completed: row.completed != 0,
            },
        ),
    }
}

fn id_of_column(text: &Option<String>) -> (r: Option<ObjectId>)
    ensures
        r == column_id(opt_text(*text)),
{
    match text {
        None => None,
        Some(t) => match object_id_from_str(t.as_str()) {
            Ok(id) => Some(id),
            Err(_) => None,
        },
    }
}

impl BisectState {
    /// The state that a row holds.
    pub fn from_row(row: BisectRow) -> (r: Result<BisectState, String>)
        ensures
            match (r, row_state(row@)) {
                (Ok(s), Ok(want)) => s@ == want,
                (Err(e), Err(want)) => e@ == want,
                _ => false,
            },
    {
        let orig_head = match object_id_from_str(row.orig_head.as_str()) {
            Ok(id) => id,
            Err(e) => {
                return Err(concat2("invalid orig_head hash: ", e.as_str()));
            },
        };
        let bad = id_of_column(&row.bad);
        let current = id_of_column(&row.current);
        let steps: Option<usize> = match row.steps {
            Some(n) => Some(
                #[verifier::truncate]
                (n as usize),
            ),
            None => None,
        };
        Ok(
            BisectState {
                orig_head,
                orig_head_name: row.orig_head_name,
                bad,
                good: row.good,
                current,
                skipped: row.skipped,
                steps,
                completed: row.completed != 0,
            },
        )
    }

    /// The row that holds a state.
    pub fn to_row(&self) -> (r: BisectRow)
        ensures
            r@ == state_row(*self),
    {
        BisectRow {
            orig_head: self.orig_head.to_string(),
            orig_head_name: clone_opt_text(&self.orig_head_name),
            bad: match self.bad {
                Some(id) => Some(id.to_string()),
                None => None,
            },
            good: copy_ids(&self.good),
            current: match self.current {
                Some(id) => Some(id.to_string()),
                None => None,
            },
            skipped: copy_ids(&self.skipped),
            steps: match self.steps {
                Some(n) => Some(
                    #[verifier::truncate]
                    (n as i64),
                ),
                None => None,
            },
            completed: if self.completed {
                1
            } else {
                0
            },
        }
    }

    /// The stored session; without one there is nothing to load.
    pub fn load(row: Option<BisectRow>) -> (r: Result<BisectState, String>)
        ensures
            match row {
                None => r matches Err(e) && e@ == "No bisect in progress"@,
                Some(row) => match (r, row_state(row@)) {
                    (Ok(s), Ok(want)) => s@ == want,
                    (Err(e), Err(want)) => e@ == want,
                    _ => false,
                },
            },
    {
        match row {
            None => Err("No bisect in progress".to_owned()),
            Some(row) => BisectState::from_row(row),
        }
    }
}

pub open spec fn opt_id_text(id: Option<ObjectId>) -> Option<Seq<char>> {
    match id {
        Some(id) => Some(id.text()),
        None => None,
    }
}

/// The row that holds a state.
pub open spec fn state_row(s: BisectState) -> RowView {
    RowView {
        orig_head: s.orig_head.text(),
        orig_head_name: opt_text(s.orig_head_name),
        bad: opt_id_text(s.bad),
        good: s.good@,
        current: opt_id_text(s.current),
        skipped: s.skipped@,
        steps: match s.steps {
            Some(n) => Some(n as i64),
            None => None,
        },
        completed: if s.completed {
            1
        } else {
            0
        },
    }
}

/// A session that was saved is loaded as it was.
pub proof fn law_saved_session_is_loaded(s: BisectState)
    requires
        s.orig_head.wf(),
        s.bad matches Some(id) ==> id.wf(),
        s.current matches Some(id) ==> id.wf(),
    ensures
        row_state(state_row(s)) == Ok::<StateView, Seq<char>>(s@),
{
    law_object_name_is_read_back(s.orig_head);
    if let Some(id) = s.bad {
        law_object_name_is_read_back(id);
    }
    if let Some(id) = s.current {
        law_object_name_is_read_back(id);
    }
    if let Some(n) = s.steps {
        assert((n as i64) as usize == n) by (bit_vector);
    }
}

/// A column that another process added meanwhile is no error.
pub fn column_migration_error(detail: &str) -> (r: Result<(), String>)
    ensures
        match r {
            Ok(_) => has_infix(detail@, "duplicate column name"@),
            Err(e) => !has_infix(detail@, "duplicate column name"@) && e@
                == "failed to add completed column: "@ + detail@,
        },
{
    if contains_str(detail, "duplicate column name") {
        Ok(())
    } else {
        Err(concat2("failed to add completed column: ", detail))
    }
}

/// A test command that ends with 0 has found a good commit, and only then; 125 asks to skip the
/// commit, and nothing else does; every other status from 1 to 127 is bad. Any other status, or none,
/// is no verdict.
pub proof fn law_exit_status_is_the_verdict(code: Option<i32>)
    ensures
        run_verdict(code) == Ok::<RunVerdict, BisectError>(RunVerdict::Good) <==> code == Some(0i32),
        run_verdict(code) == Ok::<RunVerdict, BisectError>(RunVerdict::Skip) <==> code == Some(125i32),
        run_verdict(code) == Ok::<RunVerdict, BisectError>(RunVerdict::Bad) <==> (code matches Some(c)
            && 1 <= c <= 127 && c != 125),
        run_verdict(code) is Err <==> (code matches Some(c) ==> c < 0 || c > 127),
        code matches Some(c) ==> (c < 0 || c > 127 ==> run_verdict(code) == Err::<
            RunVerdict,
            BisectError,
        >(BisectError::RunCommandFailed { exit_code: c })),
        code is None ==> run_verdict(code) == Err::<RunVerdict, BisectError>(
            BisectError::RunCommandSignaled,
        ),
{
}

/// A session can be automated exactly where it is under way, has both bounds and a commit to test, and
/// there is a command.
pub proof fn law_run_needs_a_session_under_way(s: Option<StateView>, cmd_len: nat)
    ensures
        run_check(s, cmd_len) is None <==> (s matches Some(t) && !t.completed && t.bad is Some
            && t.good.len() > 0 && t.current is Some && cmd_len > 0),
        (s is None || s->0.completed) ==> (run_check(s, cmd_len) matches Some(e) && e
            == bisect_error_view(BisectError::NotActive)),
{
}

/// A reset goes to the commit that was asked for; else back to where the session began: to the branch
/// that was checked out, where it still is, and else to the commit.
pub proof fn law_reset_goes_back(
    s: StateView,
    rev: Option<Result<ObjectId, ErrorView>>,
    branch: Result<Option<ObjectId>, BranchStoreError>,
)
    ensures
        reset_choice(s, rev, branch) matches Ok(to) ==> {
            &&& rev matches Some(asked) ==> asked == Ok::<ObjectId, ErrorView>(to.0) && to.1 is None
            &&& rev is None && s.orig_head_name is Some && (branch matches Ok(Some(tip))) ==> branch
                == Ok::<Option<ObjectId>, BranchStoreError>(Some(to.0)) && to.1 == s.orig_head_name
            &&& rev is None && (s.orig_head_name is None || branch == Ok::<
                Option<ObjectId>,
                BranchStoreError,
            >(None)) ==> to == (s.orig_head, None::<Seq<char>>)
        },
        reset_choice(s, rev, branch) is Err <==> (rev matches Some(Err(_))) || (rev is None
            && s.orig_head_name is Some && branch is Err),
{
}

/// As many candidates are reported as there are.
pub proof fn law_remaining_is_the_number_of_candidates(graph: CommitGraph, s: StateView)
    ensures
        s.bad matches Some(bad) ==> (s.good.len() > 0 ==> (candidates(graph, bad, s.good, s.skipped)
            matches Ok(list) ==> remaining_count(graph, s) == list.len())),
        s.bad is None || s.good.len() == 0 ==> remaining_count(graph, s) == 0,
{
}

/// What is shown of a search that has converged names the culprit, and what is shown of one that goes
/// on names the commit that is checked out and how many are left.
pub proof fn law_progress_is_shown(
    current: ObjectId,
    found: ObjectId,
    subject: Seq<char>,
    remaining: nat,
    width: nat,
)
    ensures
        ({
            let lines = progress_lines(
                BisectStatus::Converged,
                Some(current),
                Some(found),
                Some(subject),
                Some(remaining),
                width,
            );
            lines.len() == 2 && lines[0] == short_hash(found, width) + " is the first bad commit"@
                && lines[1] == subject
        }),
        ({
            let lines = progress_lines(
                BisectStatus::Testing,
                Some(current),
                None,
                None,
                Some(remaining),
                width,
            );
            lines.len() == 2 && lines[0] == "HEAD is now at "@ + short_hash(current, width) && lines[1]
                == "Bisecting: "@ + decimal(remaining) + " revisions left to test after this"@
        }),
{
}

/// What is shown of a verdict begins with the commit and the verdict; of a skip, with the commit; of a
/// run, with the culprit where there is one.
pub proof fn law_output_names_the_commit(out: OutputView, width: nat)
    ensures
        match out {
            OutputView::Mark { mark, commit, .. } => output_lines(out, width)[0] == "Marked "@
                + short_hash(commit, width) + (match mark {
                BisectMark::Bad => " as "@ + "bad"@,
                BisectMark::Good => " as "@ + "good"@,
            }),
            OutputView::Skip { commit, .. } => output_lines(out, width)[0] == "Skipped "@ + short_hash(
                commit,
                width,
            ),
            OutputView::Run { first_bad: Some(id), .. } => output_lines(out, width)[0]
                == "Converged: first bad commit is "@ + short_hash(id, width),
            OutputView::Log { bad: Some(id), .. } => output_lines(out, width)[1] == "  Bad: "@
                + short_hash(id, width),
            OutputView::Reset { restored: true, commit: Some(id), .. } => output_lines(out, width).last()
                == "Bisect session ended, HEAD restored to "@ + short_hash(id, width),
            OutputView::View { good, bad: Some(id), .. } => good.len() > 0 ==> output_lines(
                out,
                width,
            )[0] == "Bisecting between "@ + short_hash(good[0], width) + " (good) and "@ + short_hash(
                id,
                width,
            ) + " (bad)"@,
            _ => true,
        },
{
    if let OutputView::Mark { mark, commit, .. } = out {
        assert(output_lines(out, width)[0] =~= "Marked "@ + short_hash(commit, width) + (match mark {
            BisectMark::Bad => " as "@ + "bad"@,
            BisectMark::Good => " as "@ + "good"@,
        }));
    }
}

/// What went wrong with a search is told, with the status that its command ended with.
pub proof fn law_search_errors_are_told(code: i32)
    ensures
        bisect_error_text(BisectError::RunCommandFailed { exit_code: code })
            == "bisect run command failed with non-recoverable exit code "@ + signed_decimal(code as int),
        bisect_error_text(BisectError::NotActive) == "not in an active bisect; run `libra bisect start` first"@,
        bisect_error_text(BisectError::RunBoundsMissing)
            == "bisect run requires bad and good bounds before automation can start"@,
        bisect_error_text(BisectError::RunCommandSignaled) == "bisect run command terminated by signal"@,
        bisect_error_text(BisectError::NoMoreCandidates)
            == "no more candidate commits; bisect already converged"@,
{
}

/// A column holds an object where it holds the object's name; an empty one and one that is no name hold
/// none.
pub proof fn law_object_in_a_column(text: Seq<char>)
    ensures
        column_id(None) is None,
        column_id(Some(text)) is Some <==> parsed_id(text) is Ok,
        column_id(Some(text)) matches Some(id) ==> id.text() == lower(text),
{
    law_object_name_has_its_digits(text);
}

/// A branch that cannot be gone back to is told by its name and with what was found out.
pub proof fn law_lost_branch_is_told(name: Seq<char>, e: BranchStoreError)
    ensures
        reset_branch_error(name, e).message == "failed to restore original branch '"@ + name + "': "@
            + branch_error_text(e),
        reset_branch_error(name, e).code == Some(StableErrorCode::IoReadFailed) <==> e is Query,
        reset_branch_error(name, e).code == Some(StableErrorCode::RepoCorrupt) <==> e is Corrupt,
        reset_branch_error(name, e).code == Some(StableErrorCode::RepoStateInvalid) <==> e is NotFound,
        reset_branch_error(name, e).code == Some(StableErrorCode::IoWriteFailed) <==> e is Delete,
{
}

} // verus!
