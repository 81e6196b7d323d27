//! The state of a bisect session and what each command does to it.

use vstd::prelude::*;

use crate::bisect::{
    candidate_count, candidates, copy_ids, count_commits_to_test, culprit, find_commit,
    find_next_bisect_point, law_next_point, next_point, only_candidate, BisectNext, BisectState,
    CommitGraph,
};
use crate::error::{CliError, ErrorView};
use crate::object::ObjectId;
use crate::text::{
    concat2, concat3, concat4, lower, lower_char, opt_text, text_eq, texts, to_lower, trim, trim_seq,
};

verus! {

/// Where a session stands after a command.
#[derive(Debug, Clone, Copy, PartialEq, Eq, Structural)]
pub enum BisectStatus {
    Started,
    WaitingForGood,
    WaitingForBad,
    Testing,
    Converged,
    AllSkipped,
}

pub open spec fn status_text(status: BisectStatus) -> Seq<char> {
    match status {
        BisectStatus::Started => "started"@,
        BisectStatus::WaitingForGood => "waiting_for_good"@,
        BisectStatus::WaitingForBad => "waiting_for_bad"@,
        BisectStatus::Testing => "testing"@,
        BisectStatus::Converged => "converged"@,
        BisectStatus::AllSkipped => "all_skipped"@,
    }
}

impl BisectStatus {
    pub fn as_str(&self) -> (r: &'static str)
        ensures
            r@ == status_text(*self),
    {
        match self {
            BisectStatus::Started => "started",
            BisectStatus::WaitingForGood => "waiting_for_good",
            BisectStatus::WaitingForBad => "waiting_for_bad",
            BisectStatus::Testing => "testing",
            BisectStatus::Converged => "converged",
            BisectStatus::AllSkipped => "all_skipped",
        }
    }
}

/// The verdict on a commit.
#[derive(Debug, Clone, Copy, PartialEq, Eq, Structural)]
pub enum BisectMark {
    Bad,
    Good,
}

pub open spec fn mark_text(mark: BisectMark) -> Seq<char> {
    match mark {
        BisectMark::Bad => "bad"@,
        BisectMark::Good => "good"@,
    }
}

impl BisectMark {
    pub fn as_str(&self) -> (r: &'static str)
        ensures
            r@ == mark_text(*self),
    {
        match self {
            BisectMark::Bad => "bad",
            BisectMark::Good => "good",
        }
    }
}

/// What a bisect command reports.
#[derive(Debug)]
pub enum BisectOutput {
    Start {
        status: BisectStatus,
        bad: Option<ObjectId>,
        good: Vec<ObjectId>,
        current: Option<ObjectId>,
        first_bad: Option<ObjectId>,
        subject: Option<String>,
        remaining: Option<usize>,
        steps: Option<usize>,
    },
    Mark {
        mark: BisectMark,
        commit: ObjectId,
        status: BisectStatus,
        current: Option<ObjectId>,
        first_bad: Option<ObjectId>,
        subject: Option<String>,
        remaining: Option<usize>,
        steps: Option<usize>,
    },
    Skip {
        commit: ObjectId,
        status: BisectStatus,
        current: Option<ObjectId>,
        remaining: Option<usize>,
        steps: Option<usize>,
    },
    Reset { restored: bool, commit: Option<ObjectId>, branch: Option<String> },
    Log {
        bad: Option<ObjectId>,
        good: Vec<ObjectId>,
        current: Option<ObjectId>,
        skipped: Vec<ObjectId>,
        steps: Option<usize>,
        completed: bool,
    },
    View {
        head: Option<ObjectId>,
        good: Vec<ObjectId>,
        bad: Option<ObjectId>,
        current: Option<ObjectId>,
        remaining: usize,
        skipped: Vec<ObjectId>,
        completed: bool,
    },
    Run {
        first_bad: Option<ObjectId>,
        steps: usize,
        skipped: Vec<String>,
        remaining: Option<usize>,
    },
}

/// A [`BisectOutput`] with its texts and lists as sequences.
pub enum OutputView {
    Start {
        status: BisectStatus,
        bad: Option<ObjectId>,
        good: Seq<ObjectId>,
        current: Option<ObjectId>,
        first_bad: Option<ObjectId>,
        subject: Option<Seq<char>>,
        remaining: Option<nat>,
        steps: Option<nat>,
    },
    Mark {
        mark: BisectMark,
        commit: ObjectId,
        status: BisectStatus,
        current: Option<ObjectId>,
        first_bad: Option<ObjectId>,
        subject: Option<Seq<char>>,
        remaining: Option<nat>,
        steps: Option<nat>,
    },
    Skip {
        commit: ObjectId,
        status: BisectStatus,
        current: Option<ObjectId>,
        remaining: Option<nat>,
        steps: Option<nat>,
    },
    Reset { restored: bool, commit: Option<ObjectId>, branch: Option<Seq<char>> },
    Log {
        bad: Option<ObjectId>,
        good: Seq<ObjectId>,
        current: Option<ObjectId>,
        skipped: Seq<ObjectId>,
        steps: Option<nat>,
        completed: bool,
    },
    View {
        head: Option<ObjectId>,
        good: Seq<ObjectId>,
        bad: Option<ObjectId>,
        current: Option<ObjectId>,
        remaining: nat,
        skipped: Seq<ObjectId>,
        completed: bool,
    },
    Run { first_bad: Option<ObjectId>, steps: nat, skipped: Seq<Seq<char>>, remaining: Option<nat> },
}

pub open spec fn opt_nat(o: Option<usize>) -> Option<nat> {
    match o {
        Some(n) => Some(n as nat),
        None => None,
    }
}

impl View for BisectOutput {
    type V = OutputView;

    open spec fn view(&self) -> OutputView {
        match *self {
            BisectOutput::Start {
                status,
                bad,
                good,
                current,
                first_bad,
                subject,
                remaining,
                steps,
            } => OutputView::Start {
                status,
                bad,
                good: good@,
                current,
                first_bad,
                subject: opt_text(subject),
                remaining: opt_nat(remaining),
                steps: opt_nat(steps),
            },
            BisectOutput::Mark {
                mark,
                commit,
                status,
                current,
                first_bad,
                subject,
                remaining,
                steps,
            } => OutputView::Mark {
                mark,
                commit,
                status,
                current,
                first_bad,
                subject: opt_text(subject),
                remaining: opt_nat(remaining),
                steps: opt_nat(steps),
            },
            BisectOutput::Skip { commit, status, current, remaining, steps } => OutputView::Skip {
                commit,
                status,
                current,
                remaining: opt_nat(remaining),
                steps: opt_nat(steps),
            },
            BisectOutput::Reset { restored, commit, branch } => OutputView::Reset {
                restored,
                commit,
                branch: opt_text(branch),
            },
            BisectOutput::Log { bad, good, current, skipped, steps, completed } => OutputView::Log {
                bad,
                good: good@,
                current,
                skipped: skipped@,
                steps: opt_nat(steps),
                completed,
            },
            BisectOutput::View { head, good, bad, current, remaining, skipped, completed } => {
                OutputView::View {
                    head,
                    good: good@,
                    bad,
                    current,
                    remaining: remaining as nat,
                    skipped: skipped@,
                    completed,
                }
            },
            BisectOutput::Run { first_bad, steps, skipped, remaining } => OutputView::Run {
                first_bad,
                steps: steps as nat,
                skipped: texts(skipped@),
                remaining: opt_nat(remaining),
            },
        }
    }
}

/// A [`BisectState`] with its texts and lists as sequences.
pub struct StateView {
    pub orig_head: ObjectId,
    pub orig_head_name: Option<Seq<char>>,
    pub bad: Option<ObjectId>,
    pub good: Seq<ObjectId>,
    pub current: Option<ObjectId>,
    pub skipped: Seq<ObjectId>,
    pub steps: Option<nat>,
    pub completed: bool,
}

impl View for BisectState {
    type V = StateView;

    open spec fn view(&self) -> StateView {
        StateView {
            orig_head: self.orig_head,
            orig_head_name: opt_text(self.orig_head_name),
            bad: self.bad,
            good: self.good@,
            current: self.current,
            skipped: self.skipped@,
            steps: opt_nat(self.steps),
            completed: self.completed,
        }
    }
}

/// What a command leaves behind: the state to save, the commit to check out first, if any, and
/// what to report.
#[derive(Debug)]
pub struct BisectStep {
    pub state: BisectState,
    pub checkout: Option<ObjectId>,
    pub output: BisectOutput,
}

pub struct StepView {
    pub state: StateView,
    pub checkout: Option<ObjectId>,
    pub output: OutputView,
}

impl View for BisectStep {
    type V = StepView;

    open spec fn view(&self) -> StepView {
        StepView { state: self.state@, checkout: self.checkout, output: self.output@ }
    }
}

pub open spec fn step_matches(r: Result<BisectStep, CliError>, want: Result<StepView, ErrorView>) -> bool {
    match (r, want) {
        (Ok(step), Ok(view)) => step@ == view,
        (Err(e), Err(view)) => e@ == view,
        _ => false,
    }
}

/// One search iteration on a state with both bounds.
pub struct Advance {
    pub state: BisectState,
    pub checkout: Option<ObjectId>,
    pub status: BisectStatus,
    pub first_bad: Option<ObjectId>,
    pub subject: Option<String>,
    pub remaining: usize,
}

pub struct AdvanceView {
    pub state: StateView,
    pub checkout: Option<ObjectId>,
    pub status: BisectStatus,
    pub first_bad: Option<ObjectId>,
    pub subject: Option<Seq<char>>,
    pub remaining: nat,
}

impl View for Advance {
    type V = AdvanceView;

    open spec fn view(&self) -> AdvanceView {
        AdvanceView {
            state: self.state@,
            checkout: self.checkout,
            status: self.status,
            first_bad: self.first_bad,
            subject: opt_text(self.subject),
            remaining: self.remaining as nat,
        }
    }
}

/// The subject of a commit, or why it could not be read.
pub open spec fn subject_of(graph: CommitGraph, id: ObjectId) -> Result<Seq<char>, Seq<char>> {
    match find_commit(graph.commits@, id) {
        None => Err("object was not supplied"@),
        Some(c) => match c.facts {
            Ok(f) => Ok(f.subject@),
            Err(detail) => Err(detail@),
        },
    }
}

/// The search goes on with the next commit to test; or ends at the culprit, which is the only
/// candidate; or cannot be narrowed down. Its bounds stay as they are.
pub open spec fn advance(graph: CommitGraph, s: StateView) -> Result<AdvanceView, ErrorView> {
    match next_point(graph, s.bad, s.good, s.skipped) {
        Err(text) => Err(ErrorView::fatal(text)),
        Ok(BisectNext::Next(id)) => match candidate_count(graph, s.bad, s.good, s.skipped) {
            Err(text) => Err(ErrorView::fatal(text)),
            Ok(n) => Ok(
                AdvanceView {
                    state: StateView { current: Some(id), steps: Some(n), ..s },
                    checkout: Some(id),
                    status: BisectStatus::Testing,
                    first_bad: None,
                    subject: None,
                    remaining: n,
                },
            ),
        },
        Ok(BisectNext::Converged) => {
            let found = culprit(graph, s.bad, s.good, s.skipped);
            match subject_of(graph, found) {
                Err(detail) => Err(ErrorView::fatal("Failed to load commit: "@ + detail)),
                Ok(subject) => Ok(
                    AdvanceView {
                        state: StateView { current: Some(found), completed: true, ..s },
                        checkout: Some(found),
                        status: BisectStatus::Converged,
                        first_bad: Some(found),
                        subject: Some(subject),
                        remaining: 0,
                    },
                ),
            }
        },
        Ok(BisectNext::AllSkipped) => Ok(
            AdvanceView {
                state: s,
                checkout: None,
                status: BisectStatus::AllSkipped,
                first_bad: None,
                subject: None,
                remaining: 0,
            },
        ),
    }
}

fn advance_session(graph: &CommitGraph, state: BisectState) -> (r: Result<Advance, CliError>)
    ensures
        match (r, advance(*graph, state@)) {
            (Ok(got), Ok(want)) => got@ == want,
            (Err(e), Err(want)) => e@ == want,
            _ => false,
        },
{
    let next = match find_next_bisect_point(graph, &state) {
        Ok(next) => next,
        Err(text) => {
            return Err(CliError::fatal(text));
        },
    };
    match next {
        BisectNext::Next(id) => {
            let n = match count_commits_to_test(graph, &state) {
                Ok(n) => n,
                Err(text) => {
                    return Err(CliError::fatal(text));
                },
            };
            let state = BisectState { current: Some(id), steps: Some(n), ..state };
            Ok(
                Advance {
                    state,
                    checkout: Some(id),
                    status: BisectStatus::Testing,
                    first_bad: None,
                    subject: None,
                    remaining: n,
                },
            )
        },
        BisectNext::Converged => {
            let found = only_candidate(graph, &state);
            let subject = match graph.load(found) {
                Ok(facts) => facts.subject.clone(),
                Err(detail) => {
                    return Err(
                        CliError::fatal(concat2("Failed to load commit: ", detail.as_str())),
                    );
                },
            };
            let state = BisectState { current: Some(found), completed: true, ..state };
            Ok(
                Advance {
                    state,
                    checkout: Some(found),
                    status: BisectStatus::Converged,
                    first_bad: Some(found),
                    subject: Some(subject),
                    remaining: 0,
                },
            )
        },
        BisectNext::AllSkipped => Ok(
            Advance {
                state,
                checkout: None,
                status: BisectStatus::AllSkipped,
                first_bad: None,
                subject: None,
                remaining: 0,
            },
        ),
    }
}

/// The meaning of a boolean in a configuration, whatever the case of its letters.
pub open spec fn git_bool(value: Seq<char>) -> Option<bool> {
    let v = trim_seq(value);
    if lower(v) == "true"@ || lower(v) == "yes"@ || lower(v) == "on"@ || v == "1"@ {
        Some(true)
    } else if lower(v) == "false"@ || lower(v) == "no"@ || lower(v) == "off"@ || v == "0"@ {
        Some(false)
    } else {
        None
    }
}

pub fn parse_git_bool(value: &str) -> (r: Option<bool>)
    ensures
        r == git_bool(value@),
{
    let v = trim(value);
    let l = to_lower(v.as_str());
    if text_eq(l.as_str(), "true") || text_eq(l.as_str(), "yes") || text_eq(l.as_str(), "on")
        || text_eq(v.as_str(), "1") {
        Some(true)
    } else if text_eq(l.as_str(), "false") || text_eq(l.as_str(), "no") || text_eq(
        l.as_str(),
        "off",
    ) || text_eq(v.as_str(), "0") {
        Some(false)
    } else {
        None
    }
}

/// Whether `core.bare` says that there is no working tree.
pub open spec fn bare_setting(setting: Result<Option<String>, String>) -> Result<bool, ErrorView> {
    match setting {
        Ok(Some(value)) => match git_bool(value@) {
            Some(bare) => Ok(bare),
            None => Err(
                ErrorView::fatal(
                    "Invalid core.bare value: '"@ + value@
                        + "'. Expected true/false/yes/no/on/off/1/0"@,
                ),
            ),
        },
        Ok(None) => Ok(false),
        Err(e) => Err(ErrorView::fatal("Failed to read core.bare config: "@ + e@)),
    }
}

/// Decide from `core.bare` whether the repository has a working tree.
pub fn is_bare_repository(setting: &Result<Option<String>, String>) -> (r: Result<bool, CliError>)
    ensures
        match (r, bare_setting(*setting)) {
            (Ok(got), Ok(want)) => got == want,
            (Err(e), Err(want)) => e@ == want,
            _ => false,
        },
{
    match setting {
        Ok(Some(value)) => match parse_git_bool(value.as_str()) {
            Some(bare) => Ok(bare),
            None => Err(
                CliError::fatal(
                    concat3(
                        "Invalid core.bare value: '",
                        value.as_str(),
                        "'. Expected true/false/yes/no/on/off/1/0",
                    ),
                ),
            ),
        },
        Ok(None) => Ok(false),
        Err(e) => Err(CliError::fatal(concat2("Failed to read core.bare config: ", e.as_str()))),
    }
}

/// What the repository looks like when a session is to start.
#[derive(Debug)]
pub struct StartSituation {
    /// `core.bare`
    pub bare: Result<Option<String>, String>,
    /// Nothing is staged
    pub staged_clean: Result<bool, String>,
    /// Nothing differs in the working tree, ignored files included
    pub unstaged_clean: Result<bool, String>,
    /// A session is stored, active or completed
    pub has_state: Result<bool, String>,
    pub head: Option<ObjectId>,
}

/// The commit that a session starts from, or why none can start.
pub open spec fn start_check(s: StartSituation) -> Result<ObjectId, ErrorView> {
    match bare_setting(s.bare) {
        Err(e) => Err(e),
        Ok(true) => Err(
            ErrorView::fatal("bisect cannot be run in a bare repository"@).hint(
                "bisect requires a working tree to check out commits for testing"@,
            ),
        ),
        Ok(false) => match (s.staged_clean, s.unstaged_clean) {
            (Err(e), _) => Err(ErrorView::fatal("Failed to check staged changes: "@ + e@)),
            (_, Err(e)) => Err(ErrorView::fatal("Failed to check unstaged changes: "@ + e@)),
            (Ok(a), Ok(b)) => if !a || !b {
                Err(
                    ErrorView::fatal("working tree contains uncommitted changes"@).hint(
                        "commit or stash your changes before running bisect. Note: each 'bisect good/bad/skip' step resets the working tree and deletes untracked/ignored files (including build artifacts), so keep important generated files outside the repo or stashed"@,
                    ),
                )
            } else {
                match s.has_state {
                    Err(e) => Err(ErrorView::fatal(e@)),
                    Ok(true) => Err(
                        ErrorView::fatal(
                            "a previous bisect session exists (completed or in progress); run 'bisect reset' first"@,
                        ),
                    ),
                    Ok(false) => match s.head {
                        None => Err(
                            ErrorView::fatal("Cannot start bisect in an empty repository"@),
                        ),
                        Some(id) => Ok(id),
                    },
                }
            },
        },
    }
}

/// Refuse to start in a bare repository, on a dirty tree, over another session or without a
/// commit.
pub fn check_bisect_start(s: &StartSituation) -> (r: Result<ObjectId, CliError>)
    ensures
        match (r, start_check(*s)) {
            (Ok(got), Ok(want)) => got == want,
            (Err(e), Err(want)) => e@ == want,
            _ => false,
        },
{
    match is_bare_repository(&s.bare) {
        Err(e) => {
            return Err(e);
        },
        Ok(bare) => {
            if bare {
                return Err(
                    CliError::fatal(
                        "bisect cannot be run in a bare repository".to_owned(),
                    ).with_hint("bisect requires a working tree to check out commits for testing"),
                );
            }
        },
    }
    let staged = match &s.staged_clean {
        Ok(clean) => *clean,
        Err(e) => {
            return Err(CliError::fatal(concat2("Failed to check staged changes: ", e.as_str())));
        },
    };
    let unstaged = match &s.unstaged_clean {
        Ok(clean) => *clean,
        Err(e) => {
            return Err(CliError::fatal(concat2("Failed to check unstaged changes: ", e.as_str())));
        },
    };
    if !staged || !unstaged {
        return Err(
            CliError::fatal("working tree contains uncommitted changes".to_owned()).with_hint(
                "commit or stash your changes before running bisect. Note: each 'bisect good/bad/skip' step resets the working tree and deletes untracked/ignored files (including build artifacts), so keep important generated files outside the repo or stashed",
            ),
        );
    }
    match &s.has_state {
        Err(e) => {
            return Err(CliError::fatal(e.clone()));
        },
        Ok(stored) => {
            if *stored {
                return Err(
                    CliError::fatal(
                        "a previous bisect session exists (completed or in progress); run 'bisect reset' first".to_owned(),
                    ),
                );
            }
        },
    }
    match s.head {
        Some(id) => Ok(id),
        None => Err(CliError::fatal("Cannot start bisect in an empty repository".to_owned())),
    }
}

/// A session that was just started.
pub open spec fn fresh_state(
    orig_head: ObjectId,
    orig_head_name: Option<Seq<char>>,
    bad: Option<ObjectId>,
    good: Option<ObjectId>,
) -> StateView {
    StateView {
        orig_head,
        orig_head_name,
        bad,
        good: match good {
            Some(id) => seq![id],
            None => Seq::empty(),
        },
        current: None,
        skipped: Seq::empty(),
        steps: None,
        completed: false,
    }
}

/// What `bisect start` does: with both bounds it begins to search, else it waits for what is
/// missing.
pub open spec fn start_step(graph: CommitGraph, s: StateView) -> Result<StepView, ErrorView> {
    if s.bad is Some && s.good.len() > 0 {
        match advance(graph, s) {
            Err(e) => Err(e),
            Ok(a) => Ok(
                StepView {
                    state: a.state,
                    checkout: a.checkout,
                    output: OutputView::Start {
                        status: a.status,
                        bad: a.state.bad,
                        good: a.state.good,
                        current: a.state.current,
                        first_bad: a.first_bad,
                        subject: a.subject,
                        remaining: Some(a.remaining),
                        steps: a.state.steps,
                    },
                },
            ),
        }
    } else {
        Ok(
            StepView {
                state: s,
                checkout: None,
                output: OutputView::Start {
                    status: if s.bad is Some {
                        BisectStatus::WaitingForGood
                    } else if s.good.len() > 0 {
                        BisectStatus::WaitingForBad
                    } else {
                        BisectStatus::Started
                    },
                    bad: s.bad,
                    good: s.good,
                    current: None,
                    first_bad: None,
                    subject: None,
                    remaining: None,
                    steps: None,
                },
            },
        )
    }
}

/// A session that has just begun: nothing has been checked out yet.
pub fn start_session(
    orig_head: ObjectId,
    orig_head_name: Option<String>,
    bad: Option<ObjectId>,
    good: Option<ObjectId>,
) -> (r: BisectState)
    ensures
        r@ == fresh_state(orig_head, opt_text(orig_head_name), bad, good),
{
    let mut list: Vec<ObjectId> = Vec::new();
    if let Some(id) = good {
        list.push(id);
    }
    let state = BisectState {
        orig_head,
        orig_head_name,
        bad,
        good: list,
        current: None,
        skipped: Vec::new(),
        steps: None,
        completed: false,
    };
    assert(state@.good =~= fresh_state(orig_head, opt_text(orig_head_name), bad, good).good);
    assert(state@.skipped =~= Seq::<ObjectId>::empty());
    state
}

/// Initialise a new search session.
pub fn run_bisect_start(
    graph: &CommitGraph,
    orig_head: ObjectId,
    orig_head_name: Option<String>,
    bad: Option<ObjectId>,
    good: Option<ObjectId>,
) -> (r: Result<BisectStep, CliError>)
    ensures
        step_matches(
            r,
            start_step(*graph, fresh_state(orig_head, opt_text(orig_head_name), bad, good)),
        ),
{
    let state = start_session(orig_head, orig_head_name, bad, good);
    if bad.is_some() && good.is_some() {
        let a = match advance_session(graph, state) {
            Ok(a) => a,
            Err(e) => {
                return Err(e);
            },
        };
        let output = BisectOutput::Start {
            status: a.status,
            bad: a.state.bad,
            good: copy_ids(&a.state.good),
            current: a.state.current,
            first_bad: a.first_bad,
            subject: a.subject,
            remaining: Some(a.remaining),
            steps: a.state.steps,
        };
        return Ok(BisectStep { state: a.state, checkout: a.checkout, output });
    }
    let status = if bad.is_some() {
        BisectStatus::WaitingForGood
    } else if good.is_some() {
        BisectStatus::WaitingForBad
    } else {
        BisectStatus::Started
    };
    let output = BisectOutput::Start {
        status,
        bad: state.bad,
        good: copy_ids(&state.good),
        current: None,
        first_bad: None,
        subject: None,
        remaining: None,
        steps: None,
    };
    Ok(BisectStep { state, checkout: None, output })
}

pub open spec fn completed_error() -> ErrorView {
    ErrorView::fatal("bisect session has already found the culprit"@).hint(
        "run 'bisect reset' to end the session and restore your original HEAD"@,
    )
}

fn completed_session() -> (r: CliError)
    ensures
        r@ == completed_error(),
{
    CliError::fatal("bisect session has already found the culprit".to_owned()).with_hint(
        "run 'bisect reset' to end the session and restore your original HEAD",
    )
}

/// Why a revision could not be resolved.
pub fn resolve_ref(name: &str, resolved: Result<ObjectId, String>) -> (r: Result<ObjectId, CliError>)
    ensures
        match (r, resolved) {
            (Ok(got), Ok(id)) => got == id,
            (Err(e), Err(detail)) => e@ == ErrorView::fatal(
                "Cannot resolve '"@ + name@ + "': "@ + detail@,
            ),
            _ => false,
        },
{
    match resolved {
        Ok(id) => Ok(id),
        Err(detail) => Err(
            CliError::fatal(concat4("Cannot resolve '", name, "': ", detail.as_str())),
        ),
    }
}

/// The state with a verdict recorded.
pub open spec fn marked(s: StateView, mark: BisectMark, id: ObjectId) -> StateView {
    match mark {
        BisectMark::Bad => StateView { bad: Some(id), ..s },
        BisectMark::Good => StateView { good: s.good.push(id), ..s },
    }
}

/// What is reported of a verdict that waits for the other bound.
pub open spec fn waiting_output(s: StateView, mark: BisectMark, id: ObjectId) -> OutputView {
    OutputView::Mark {
        mark,
        commit: id,
        status: match mark {
            BisectMark::Bad => BisectStatus::WaitingForGood,
            BisectMark::Good => BisectStatus::WaitingForBad,
        },
        current: s.current,
        first_bad: None,
        subject: None,
        remaining: None,
        steps: s.steps,
    }
}

/// What `bisect bad` and `bisect good` do: record the verdict, then search if both bounds are
/// known. A completed session takes no verdict.
pub open spec fn mark_step(
    graph: CommitGraph,
    s: StateView,
    mark: BisectMark,
    target: Result<Option<ObjectId>, ErrorView>,
) -> Result<StepView, ErrorView> {
    if s.completed {
        Err(completed_error())
    } else {
        match target {
            Err(e) => Err(e),
            Ok(None) => Err(
                ErrorView::fatal(
                    "Cannot mark HEAD as "@ + mark_text(mark) + " - no current commit"@,
                ),
            ),
            Ok(Some(id)) => {
                let m = marked(s, mark, id);
                if m.bad is None || m.good.len() == 0 {
                    Ok(StepView { state: m, checkout: None, output: waiting_output(m, mark, id) })
                } else {
                    match advance(graph, m) {
                        Err(e) => Err(e),
                        Ok(a) => Ok(
                            StepView {
                                state: a.state,
                                checkout: a.checkout,
                                output: OutputView::Mark {
                                    mark,
                                    commit: id,
                                    status: a.status,
                                    current: a.state.current,
                                    first_bad: a.first_bad,
                                    subject: a.subject,
                                    remaining: Some(a.remaining),
                                    steps: a.state.steps,
                                },
                            },
                        ),
                    }
                }
            },
        }
    }
}

pub open spec fn target_view(target: Result<Option<ObjectId>, CliError>) -> Result<
    Option<ObjectId>,
    ErrorView,
> {
    match target {
        Ok(id) => Ok(id),
        Err(e) => Err(e@),
    }
}

fn run_bisect_mark(
    graph: &CommitGraph,
    state: BisectState,
    mark: BisectMark,
    target: Result<Option<ObjectId>, CliError>,
) -> (r: Result<BisectStep, CliError>)
    ensures
        step_matches(r, mark_step(*graph, state@, mark, target_view(target))),
{
    if state.completed {
        return Err(completed_session());
    }
    let id = match target {
        Err(e) => {
            return Err(e);
        },
        Ok(None) => {
            return Err(
                CliError::fatal(
                    concat3("Cannot mark HEAD as ", mark.as_str(), " - no current commit"),
                ),
            );
        },
        Ok(Some(id)) => id,
    };
    let ghost before = state@;
    let mut state = state;
    match mark {
        BisectMark::Bad => {
            state.bad = Some(id);
        },
        BisectMark::Good => {
            state.good.push(id);
        },
    }
    assert(state@ == marked(before, mark, id));
    if state.bad.is_none() || state.good.is_empty() {
        let output = BisectOutput::Mark {
            mark,
            commit: id,
            status: match mark {
                BisectMark::Bad => BisectStatus::WaitingForGood,
                BisectMark::Good => BisectStatus::WaitingForBad,
            },
            current: state.current,
            first_bad: None,
            subject: None,
            remaining: None,
            steps: state.steps,
        };
        return Ok(BisectStep { state, checkout: None, output });
    }
    let a = match advance_session(graph, state) {
        Ok(a) => a,
        Err(e) => {
            return Err(e);
        },
    };
    let output = BisectOutput::Mark {
        mark,
        commit: id,
        status: a.status,
        current: a.state.current,
        first_bad: a.first_bad,
        subject: a.subject,
        remaining: Some(a.remaining),
        steps: a.state.steps,
    };
    Ok(BisectStep { state: a.state, checkout: a.checkout, output })
}

/// Mark a commit as containing the bug. The target is the revision that was named, or HEAD.
pub fn run_bisect_bad(
    graph: &CommitGraph,
    state: BisectState,
    target: Result<Option<ObjectId>, CliError>,
) -> (r: Result<BisectStep, CliError>)
    ensures
        step_matches(r, mark_step(*graph, state@, BisectMark::Bad, target_view(target))),
{
    run_bisect_mark(graph, state, BisectMark::Bad, target)
}

/// Mark a commit as working. The target is the revision that was named, or HEAD.
pub fn run_bisect_good(
    graph: &CommitGraph,
    state: BisectState,
    target: Result<Option<ObjectId>, CliError>,
) -> (r: Result<BisectStep, CliError>)
    ensures
        step_matches(r, mark_step(*graph, state@, BisectMark::Good, target_view(target))),
{
    run_bisect_mark(graph, state, BisectMark::Good, target)
}

/// What `bisect skip` does: the commit is no candidate any more, and the search goes on. A single
/// candidate that is left is reported, but the session stays open.
pub open spec fn skip_step(
    graph: CommitGraph,
    s: StateView,
    rev: Option<Result<ObjectId, ErrorView>>,
) -> Result<StepView, ErrorView> {
    if s.completed {
        Err(completed_error())
    } else {
        match (rev, s.current) {
            (Some(Err(e)), _) => Err(e),
            (None, None) => Err(ErrorView::fatal("No current commit to skip"@)),
            (Some(Ok(id)), _) => skip_commit(graph, s, id),
            (None, Some(id)) => skip_commit(graph, s, id),
        }
    }
}

pub open spec fn skip_commit(graph: CommitGraph, s: StateView, id: ObjectId) -> Result<
    StepView,
    ErrorView,
> {
    let m = StateView { skipped: s.skipped.push(id), ..s };
    match next_point(graph, m.bad, m.good, m.skipped) {
        Err(text) => Err(ErrorView::fatal(text)),
        Ok(BisectNext::Converged) => Ok(
            StepView {
                state: m,
                checkout: None,
                output: OutputView::Skip {
                    commit: id,
                    status: BisectStatus::Converged,
                    current: m.current,
                    remaining: Some(1),
                    steps: m.steps,
                },
            },
        ),
        _ => match advance(graph, m) {
            Err(e) => Err(e),
            Ok(a) => Ok(
                StepView {
                    state: a.state,
                    checkout: a.checkout,
                    output: OutputView::Skip {
                        commit: id,
                        status: a.status,
                        current: a.state.current,
                        remaining: Some(a.remaining),
                        steps: a.state.steps,
                    },
                },
            ),
        },
    }
}

pub open spec fn rev_view(rev: Option<Result<ObjectId, CliError>>) -> Option<
    Result<ObjectId, ErrorView>,
> {
    match rev {
        None => None,
        Some(Ok(id)) => Some(Ok(id)),
        Some(Err(e)) => Some(Err(e@)),
    }
}

/// Exclude a commit, the current one unless another is named, from the candidates.
pub fn run_bisect_skip(
    graph: &CommitGraph,
    state: BisectState,
    rev: Option<Result<ObjectId, CliError>>,
) -> (r: Result<BisectStep, CliError>)
    ensures
        step_matches(r, skip_step(*graph, state@, rev_view(rev))),
{
    if state.completed {
        return Err(completed_session());
    }
    let id = match rev {
        Some(Err(e)) => {
            return Err(e);
        },
        Some(Ok(id)) => id,
        None => match state.current {
            Some(id) => id,
            None => {
                return Err(CliError::fatal("No current commit to skip".to_owned()));
            },
        },
    };
    let ghost before = state@;
    let mut state = state;
    state.skipped.push(id);
    assert(state@ == (StateView { skipped: before.skipped.push(id), ..before }));
    match find_next_bisect_point(graph, &state) {
        Err(text) => {
            return Err(CliError::fatal(text));
        },
        Ok(BisectNext::Converged) => {
            let output = BisectOutput::Skip {
                commit: id,
                status: BisectStatus::Converged,
                current: state.current,
                remaining: Some(1),
                steps: state.steps,
            };
            return Ok(BisectStep { state, checkout: None, output });
        },
        Ok(_) => {},
    }
    let a = match advance_session(graph, state) {
        Ok(a) => a,
        Err(e) => {
            return Err(e);
        },
    };
    let output = BisectOutput::Skip {
        commit: id,
        status: a.status,
        current: a.state.current,
        remaining: Some(a.remaining),
        steps: a.state.steps,
    };
    Ok(BisectStep { state: a.state, checkout: a.checkout, output })
}

/// No command but reset gives up where the session came from: the original HEAD and branch stay as
/// they are, the known good commits and the skipped ones are only added to, and a verdict that is
/// refused leaves no new state.
pub proof fn law_session_keeps_its_origin(
    graph: CommitGraph,
    s: StateView,
    mark: BisectMark,
    target: Result<Option<ObjectId>, ErrorView>,
    rev: Option<Result<ObjectId, ErrorView>>,
)
    ensures
        mark_step(graph, s, mark, target) matches Ok(step) ==> kept(s, step.state),
        skip_step(graph, s, rev) matches Ok(step) ==> kept(s, step.state),
{
}

/// `b` has the origin of `a`, and all its good and skipped commits.
pub open spec fn kept(a: StateView, b: StateView) -> bool {
    &&& b.orig_head == a.orig_head
    &&& b.orig_head_name == a.orig_head_name
    &&& a.good.is_prefix_of(b.good)
    &&& a.skipped.is_prefix_of(b.skipped)
}

/// A search changes neither its bounds nor what was skipped; the culprit that it names is the commit
/// that it ends at.
pub proof fn law_search_keeps_its_bounds(graph: CommitGraph, s: StateView)
    ensures
        advance(graph, s) matches Ok(a) ==> {
            &&& a.state.bad == s.bad
            &&& a.state.good == s.good
            &&& a.state.skipped == s.skipped
            &&& a.first_bad is Some ==> a.state.completed && a.state.current == a.first_bad
                && a.checkout == a.first_bad
        },
{
}

/// The culprit that a search names is the bad commit, unless that was skipped.
pub proof fn law_culprit_is_the_bad_commit(graph: CommitGraph, s: StateView)
    requires
        s.bad matches Some(bad) && !s.skipped.contains(bad),
    ensures
        advance(graph, s) matches Ok(a) ==> (a.first_bad is Some ==> a.first_bad == s.bad),
{
    law_next_point(graph, s.bad->0, s.good, s.skipped);
}

/// Once the culprit is found, the session takes no verdict and skips nothing until it is reset.
pub proof fn law_completed_session_is_closed(
    graph: CommitGraph,
    s: StateView,
    mark: BisectMark,
    target: Result<Option<ObjectId>, ErrorView>,
    rev: Option<Result<ObjectId, ErrorView>>,
)
    requires
        s.completed,
    ensures
        mark_step(graph, s, mark, target) == Err::<StepView, ErrorView>(completed_error()),
        skip_step(graph, s, rev) == Err::<StepView, ErrorView>(completed_error()),
{
}

/// The words for true and for false, whatever the case of their letters and the white space around
/// them; a word is not both.
pub proof fn law_boolean_words(value: Seq<char>)
    ensures
        git_bool(value) == Some(true) <==> {
            let w = lower(trim_seq(value));
            w == "true"@ || w == "yes"@ || w == "on"@ || w == "1"@
        },
        git_bool(value) == Some(false) <==> {
            let w = lower(trim_seq(value));
            w == "false"@ || w == "no"@ || w == "off"@ || w == "0"@
        },
{
    reveal_strlit("true");
    reveal_strlit("yes");
    reveal_strlit("on");
    reveal_strlit("1");
    reveal_strlit("false");
    reveal_strlit("no");
    reveal_strlit("off");
    reveal_strlit("0");
    let v = trim_seq(value);
    let w = lower(v);
    assert(w == "1"@ <==> v == "1"@) by {
        if w == "1"@ {
            assert(w.len() == 1 && w[0] == '1');
            assert(lower_char(v[0]) == '1');
            assert(v =~= "1"@);
        }
        if v == "1"@ {
            assert(w =~= "1"@);
        }
    }
    assert(w == "0"@ <==> v == "0"@) by {
        if w == "0"@ {
            assert(w.len() == 1 && w[0] == '0');
            assert(lower_char(v[0]) == '0');
            assert(v =~= "0"@);
        }
        if v == "0"@ {
            assert(w =~= "0"@);
        }
    }
    assert("true"@.len() == 4 && "yes"@.len() == 3 && "on"@.len() == 2 && "1"@.len() == 1);
    assert("false"@.len() == 5 && "off"@.len() == 3 && "no"@.len() == 2 && "0"@.len() == 1);
    assert("yes"@ != "off"@) by {
        assert("yes"@[0] != "off"@[0]);
    }
    assert("on"@ != "no"@) by {
        assert("on"@[0] != "no"@[0]);
    }
    assert("1"@ != "0"@) by {
        assert("1"@[0] != "0"@[0]);
    }
}

/// A session starts exactly where the repository has a working tree without changes, no session is
/// stored and there is a commit; that commit is what the session goes back to.
pub proof fn law_start_needs_a_clean_worktree(s: StartSituation)
    ensures
        start_check(s) is Ok <==> {
            &&& s.bare matches Ok(setting) && (setting matches Some(v) ==> git_bool(v@) == Some(false))
            &&& s.staged_clean == Ok::<bool, String>(true)
            &&& s.unstaged_clean == Ok::<bool, String>(true)
            &&& s.has_state == Ok::<bool, String>(false)
            &&& s.head is Some
        },
        start_check(s) matches Ok(id) ==> s.head == Some(id),
{
}

/// A new session knows the bounds that were given, nothing else, and where it began. It waits for a
/// bound that was not given, and checks out nothing before it has both.
pub proof fn law_new_session(
    graph: CommitGraph,
    orig_head: ObjectId,
    orig_head_name: Option<Seq<char>>,
    bad: Option<ObjectId>,
    good: Option<ObjectId>,
)
    ensures
        ({
            let s = fresh_state(orig_head, orig_head_name, bad, good);
            let r = start_step(graph, s);
            &&& s.orig_head == orig_head && s.orig_head_name == orig_head_name && s.bad == bad
            &&& s.good.len() == (if good is Some { 1nat } else { 0nat })
            &&& good matches Some(id) ==> s.good[0] == id
            &&& s.skipped.len() == 0 && !s.completed && s.current is None
            &&& bad is None || good is None ==> (r matches Ok(step) && step.state == s
                && step.checkout is None && (step.output matches OutputView::Start { status, .. }
                && status == (match (bad, good) {
                (Some(_), _) => BisectStatus::WaitingForGood,
                (None, Some(_)) => BisectStatus::WaitingForBad,
                (None, None) => BisectStatus::Started,
            })))
            &&& r matches Ok(step) ==> step.state.bad == bad && step.state.good == s.good
                && step.state.skipped == s.skipped && step.state.orig_head == orig_head
                && step.state.orig_head_name == orig_head_name
        }),
{
}

/// A verdict is recorded for the commit that it is about and changes nothing else of the bounds: a bad
/// commit becomes the bad bound, a good one is added to the good ones. What is shown names it.
pub proof fn law_verdict_is_recorded(
    graph: CommitGraph,
    s: StateView,
    mark: BisectMark,
    target: Result<Option<ObjectId>, ErrorView>,
)
    ensures
        mark_step(graph, s, mark, target) matches Ok(step) ==> (!s.completed && (target matches Ok(Some(id))
            && {
            &&& mark == BisectMark::Bad ==> step.state.bad == Some(id) && step.state.good == s.good
            &&& mark == BisectMark::Good ==> step.state.bad == s.bad && step.state.good
                == s.good.push(id)
            &&& step.state.skipped == s.skipped
            &&& step.output matches OutputView::Mark { mark: m, commit, .. } && m == mark && commit
                == id
        })),
{
}

/// Where a verdict leaves a bound open, the session waits for it: nothing is checked out, and no
/// culprit is named.
pub proof fn law_session_waits_for_a_bound(
    graph: CommitGraph,
    s: StateView,
    mark: BisectMark,
    id: ObjectId,
)
    requires
        !s.completed,
        mark == BisectMark::Bad ==> s.good.len() == 0,
        mark == BisectMark::Good ==> s.bad is None,
    ensures
        mark_step(graph, s, mark, Ok(Some(id))) matches Ok(step) && step.checkout is None
            && step.state.current == s.current && !step.state.completed && (step.output
            matches OutputView::Mark { status, first_bad, .. } && first_bad is None && status == (
        match mark {
            BisectMark::Bad => BisectStatus::WaitingForGood,
            BisectMark::Good => BisectStatus::WaitingForBad,
        })),
{
}

/// A skip adds a commit to the skipped ones, the current commit unless another is named, and leaves
/// the bounds as they are.
pub proof fn law_skip_is_recorded(
    graph: CommitGraph,
    s: StateView,
    rev: Option<Result<ObjectId, ErrorView>>,
)
    ensures
        skip_step(graph, s, rev) matches Ok(step) ==> ({
            let id = match rev {
                Some(r) => r->Ok_0,
                None => s.current->0,
            };
            &&& !s.completed && (rev matches Some(r) ==> r is Ok) && (rev is None ==> s.current is Some)
            &&& step.state.skipped == s.skipped.push(id)
            &&& step.state.bad == s.bad && step.state.good == s.good
            &&& !step.state.completed
            &&& step.output matches OutputView::Skip { commit, .. } && commit == id
        }),
{
}

/// Where the search goes on, the commit that is checked out and made the current one is a candidate
/// under the bounds as they now are, and not the bad commit; as many are left as there are
/// candidates. A culprit is named only where one candidate is left, which it is, and ends the session.
pub proof fn law_search_tests_candidates(graph: CommitGraph, s: StateView)
    requires
        s.bad is Some,
        s.good.len() > 0,
        !s.completed,
    ensures
        advance(graph, s) matches Ok(a) ==> (candidates(graph, s.bad->0, s.good, s.skipped) matches Ok(list)
            && {
            &&& a.status == BisectStatus::Testing <==> list.len() > 1
            &&& a.status == BisectStatus::Testing ==> (a.checkout matches Some(id) && list.contains(id)
                && Some(id) != s.bad && a.state.current == Some(id) && a.remaining == list.len()
                && a.state.steps == Some(list.len()) && !a.state.completed && a.first_bad is None)
            &&& a.status == BisectStatus::Converged <==> list.len() == 1
            &&& a.status == BisectStatus::Converged ==> (a.first_bad == Some(list[0]) && a.checkout
                == Some(list[0]) && a.state.completed && a.remaining == 0 && (find_commit(
                graph.commits@,
                list[0],
            ) matches Some(c) && c.facts is Ok && a.subject == Some(c.facts->Ok_0.subject@)))
            &&& a.status == BisectStatus::AllSkipped <==> list.len() == 0
            &&& a.status == BisectStatus::AllSkipped ==> a.state == s && a.checkout is None
                && a.first_bad is None && a.remaining == 0
        }),
{
    law_next_point(graph, s.bad->0, s.good, s.skipped);
}

/// What a verdict leads to is what the search makes of the bounds with that verdict.
pub proof fn law_verdict_leads_the_search(
    graph: CommitGraph,
    s: StateView,
    mark: BisectMark,
    id: ObjectId,
)
    requires
        !s.completed,
        mark == BisectMark::Bad ==> s.good.len() > 0,
        mark == BisectMark::Good ==> s.bad is Some,
    ensures
        ({
            let now = StateView {
                bad: if mark == BisectMark::Bad { Some(id) } else { s.bad },
                good: if mark == BisectMark::Good { s.good.push(id) } else { s.good },
                ..s
            };
            match (mark_step(graph, s, mark, Ok(Some(id))), advance(graph, now)) {
                (Ok(step), Ok(a)) => step.state == a.state && step.checkout == a.checkout && (
                step.output matches OutputView::Mark { status, current, first_bad, subject, remaining, .. }
                    && status == a.status && current == a.state.current && first_bad == a.first_bad
                    && subject == a.subject && remaining == Some(a.remaining)),
                (Err(e), Err(want)) => e == want,
                _ => false,
            }
        }),
{
}

/// Every status and every verdict has a text of its own.
pub proof fn law_status_texts_differ(a: BisectStatus, b: BisectStatus, m: BisectMark, n: BisectMark)
    ensures
        status_text(a) == status_text(b) <==> a == b,
        mark_text(m) == mark_text(n) <==> m == n,
{
    reveal_strlit("started");
    reveal_strlit("waiting_for_good");
    reveal_strlit("waiting_for_bad");
    reveal_strlit("testing");
    reveal_strlit("converged");
    reveal_strlit("all_skipped");
    reveal_strlit("bad");
    reveal_strlit("good");
    assert("started"@ != "testing"@) by {
        assert("started"@[0] != "testing"@[0]);
    }
    assert("started"@.len() == 7 && "testing"@.len() == 7 && "waiting_for_good"@.len() == 16);
    assert("waiting_for_bad"@.len() == 15 && "converged"@.len() == 9 && "all_skipped"@.len() == 11);
    assert("bad"@.len() == 3 && "good"@.len() == 4);
}

/// A repository is bare where its setting says so, and not where there is none; a setting that cannot be
/// read, or is no boolean, is refused.
pub proof fn law_bare_repositories(setting: Result<Option<String>, String>)
    ensures
        (setting matches Ok(None)) ==> bare_setting(setting) == Ok::<bool, ErrorView>(false),
        setting is Err ==> bare_setting(setting) is Err,
        setting matches Ok(Some(v)) ==> match git_bool(v@) {
            Some(bare) => bare_setting(setting) == Ok::<bool, ErrorView>(bare),
            None => bare_setting(setting) is Err,
        },
{
}

/// A commit's subject is the one that was supplied for it.
pub proof fn law_subject_of_a_commit(graph: CommitGraph, id: ObjectId)
    ensures
        find_commit(graph.commits@, id) is None ==> subject_of(graph, id) is Err,
        find_commit(graph.commits@, id) matches Some(c) ==> match c.facts {
            Ok(f) => subject_of(graph, id) == Ok::<Seq<char>, Seq<char>>(f.subject@),
            Err(why) => subject_of(graph, id) == Err::<Seq<char>, Seq<char>>(why@),
        },
{
}

} // verus!
