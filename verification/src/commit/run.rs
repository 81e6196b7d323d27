//! The course of a commit: which step follows which, and what each one leaves.

use vstd::prelude::*;

use crate::commit::draft::{
    check_commit_start, check_conventional, commit_message, draft, draft_commit, given_message,
    run_pre_commit_hook, runs_pre_commit_hook, start_fault, AmendedCommit, Changes,
};
use crate::commit::{CommitArgs, CommitError, CommitErrorView, UserIdentity};
use crate::object::ObjectId;
use crate::text::{opt_text, signed_decimal};

verus! {

/// What is to be done next.
#[derive(Debug, Clone, Copy, PartialEq, Eq, Structural)]
pub enum CommitStage {
    /// Stage the changes of files that are in the index, where that was asked for
    Staging,
    /// Find out what is staged
    Checking,
    /// Run the hook
    Hooking,
    /// Read the message
    Messaging,
    /// Write the tree
    Building,
    /// Find out who commits, and on what
    Drafting,
    /// Judge the message
    Validating,
    /// Sign the commit
    Signing,
    /// Write the commit
    Saving,
    /// Move HEAD to the commit
    Moving,
    /// Nothing: the commit is made
    Done,
}

/// A commit on its way.
#[derive(Debug)]
pub struct CommitRun {
    pub stage: CommitStage,
    /// Whether changes were staged
    pub auto_staged: bool,
    /// Whether the hook passed; one that is not there does
    pub hook_passed: bool,
    pub message: String,
    pub tree: Option<ObjectId>,
    pub parents: Vec<ObjectId>,
    /// `Some(true)` where the message was held against the convention
    pub conventional: Option<bool>,
    pub signature: Option<String>,
    /// The commit, once it is written
    pub commit: Option<ObjectId>,
}

pub struct RunView {
    pub stage: CommitStage,
    pub auto_staged: bool,
    pub hook_passed: bool,
    pub message: Seq<char>,
    pub tree: Option<ObjectId>,
    pub parents: Seq<ObjectId>,
    pub conventional: Option<bool>,
    pub signature: Option<Seq<char>>,
    pub commit: Option<ObjectId>,
}

impl View for CommitRun {
    type V = RunView;

    open spec fn view(&self) -> RunView {
        RunView {
            stage: self.stage,
            auto_staged: self.auto_staged,
            hook_passed: self.hook_passed,
            message: self.message@,
            tree: self.tree,
            parents: self.parents@,
            conventional: self.conventional,
            signature: opt_text(self.signature),
            commit: self.commit,
        }
    }
}

/// What a step gave.
#[derive(Debug)]
pub enum CommitEvent {
    /// Whether anything was staged
    AutoStaged { outcome: Result<bool, CommitError> },
    StagedRead { index_empty: bool, staged: Result<Changes, String> },
    HookEnded { hook: String, outcome: Result<Option<i32>, String> },
    /// What the file of the message holds, where there is one
    MessageRead { file: Option<Result<String, String>> },
    TreeBuilt { outcome: Result<ObjectId, CommitError> },
    /// Who commits, the commits that HEAD is on, and the one to amend
    Known {
        committer: Result<UserIdentity, CommitError>,
        heads: Vec<ObjectId>,
        amended: Result<AmendedCommit, String>,
    },
    /// Whether the message follows the convention
    Judged { follows: bool },
    /// The signature, where commits are signed
    Signed { outcome: Result<Option<String>, CommitError> },
    Saved { outcome: Result<ObjectId, CommitError> },
    HeadMoved { outcome: Result<(), CommitError> },
}

pub open spec fn first_run(args: CommitArgs) -> RunView {
    RunView {
        stage: if args.all {
            CommitStage::Staging
        } else {
            CommitStage::Checking
        },
        auto_staged: false,
        hook_passed: false,
        message: Seq::empty(),
        tree: None,
        parents: Seq::empty(),
        conventional: None,
        signature: None,
        commit: None,
    }
}

/// Start a commit.
pub fn start_commit(args: &CommitArgs) -> (r: CommitRun)
    ensures
        r@ == first_run(*args),
{
    let r = CommitRun {
        stage: if args.all {
            CommitStage::Staging
        } else {
            CommitStage::Checking
        },
        auto_staged: false,
        hook_passed: false,
        message: String::new(),
        tree: None,
        parents: Vec::new(),
        conventional: None,
        signature: None,
        commit: None,
    };
    assert(r@.message =~= Seq::<char>::empty());
    assert(r@.parents =~= Seq::<ObjectId>::empty());
    r
}

/// What is wrong with the end of a hook.
pub open spec fn hook_fault(hook: Seq<char>, outcome: Result<Option<i32>, String>) -> Option<
    CommitErrorView,
> {
    match outcome {
        Ok(Some(0)) => None,
        Ok(code) => Some(
            CommitErrorView::PreCommitHook(
                "hook "@ + hook + " failed with exit code "@ + signed_decimal(
                    match code {
                        Some(c) => c as int,
                        None => -1,
                    },
                ),
            ),
        ),
        Err(e) => Some(
            CommitErrorView::PreCommitHook("failed to execute hook "@ + hook + ": "@ + e@),
        ),
    }
}

/// Whether the message is held against the convention.
pub open spec fn is_judged(args: CommitArgs) -> bool {
    args.conventional && !args.skip_hooks
}

/// The commit after one step, or the error that ends it. A step that is not the next one changes
/// nothing.
pub open spec fn stepped(args: CommitArgs, run: RunView, event: CommitEvent) -> Result<
    RunView,
    CommitErrorView,
> {
    match (run.stage, event) {
        (CommitStage::Staging, CommitEvent::AutoStaged { outcome }) => match outcome {
            Ok(staged) => Ok(RunView { stage: CommitStage::Checking, auto_staged: staged, ..run }),
            Err(e) => Err(e@),
        },
        (CommitStage::Checking, CommitEvent::StagedRead { index_empty, staged }) => match start_fault(
            args,
            index_empty,
            run.auto_staged,
            staged,
        ) {
            Some(e) => Err(e),
            None => Ok(
                RunView {
                    stage: if args.disable_pre || args.skip_hooks {
                        CommitStage::Messaging
                    } else {
                        CommitStage::Hooking
                    },
                    ..run
                },
            ),
        },
        (CommitStage::Hooking, CommitEvent::HookEnded { hook, outcome }) => match hook_fault(
            hook@,
            outcome,
        ) {
            Some(e) => Err(e),
            None => Ok(RunView { stage: CommitStage::Messaging, hook_passed: true, ..run }),
        },
        (CommitStage::Messaging, CommitEvent::MessageRead { file }) => match given_message(
            args,
            file,
        ) {
            Ok(message) => Ok(RunView { stage: CommitStage::Building, message, ..run }),
            Err(e) => Err(e),
        },
        (CommitStage::Building, CommitEvent::TreeBuilt { outcome }) => match outcome {
            Ok(tree) => Ok(RunView { stage: CommitStage::Drafting, tree: Some(tree), ..run }),
            Err(e) => Err(e@),
        },
        (CommitStage::Drafting, CommitEvent::Known { committer, heads, amended }) => match committer {
            Err(e) => Err(e@),
            Ok(by) => match draft(args, run.message, by.name@, by.email@, heads@, amended) {
                Ok((parents, message)) => Ok(
                    RunView { stage: CommitStage::Validating, parents, message, ..run },
                ),
                Err(e) => Err(e),
            },
        },
        (CommitStage::Validating, CommitEvent::Judged { follows }) => if is_judged(args) && !follows {
            Err(
                CommitErrorView::ConventionalCommit(
                    "commit message does not follow conventional commits"@,
                ),
            )
        } else {
            Ok(
                RunView {
                    stage: CommitStage::Signing,
                    conventional: if is_judged(args) {
                        Some(true)
                    } else {
                        None
                    },
                    ..run
                },
            )
        },
        (CommitStage::Signing, CommitEvent::Signed { outcome }) => match outcome {
            Ok(signature) => Ok(
                RunView { stage: CommitStage::Saving, signature: opt_text(signature), ..run },
            ),
            Err(e) => Err(e@),
        },
        (CommitStage::Saving, CommitEvent::Saved { outcome }) => match outcome {
            Ok(id) => Ok(RunView { stage: CommitStage::Moving, commit: Some(id), ..run }),
            Err(e) => Err(e@),
        },
        (CommitStage::Moving, CommitEvent::HeadMoved { outcome }) => match outcome {
            Ok(_) => Ok(RunView { stage: CommitStage::Done, ..run }),
            Err(e) => Err(e@),
        },
        _ => Ok(run),
    }
}

/// Take what a step gave, and say what is next.
pub fn run_commit(args: &CommitArgs, run: CommitRun, event: CommitEvent) -> (r: Result<
    CommitRun,
    CommitError,
>)
    ensures
        match (r, stepped(*args, run@, event)) {
            (Ok(next), Ok(want)) => next@ == want,
            (Err(e), Err(want)) => e@ == want,
            _ => false,
        },
{
    let mut next = run;
    match (next.stage, event) {
        (CommitStage::Staging, CommitEvent::AutoStaged { outcome }) => match outcome {
            Ok(staged) => {
                next.auto_staged = staged;
                next.stage = CommitStage::Checking;
                Ok(next)
            },
            Err(e) => Err(e),
        },
        (CommitStage::Checking, CommitEvent::StagedRead { index_empty, staged }) => {
            match check_commit_start(args, index_empty, next.auto_staged, &staged) {
                Err(e) => Err(e),
                Ok(_) => {
                    next.stage = if runs_pre_commit_hook(args) {
                        CommitStage::Hooking
                    } else {
                        CommitStage::Messaging
                    };
                    Ok(next)
                },
            }
        },
        (CommitStage::Hooking, CommitEvent::HookEnded { hook, outcome }) => {
            match run_pre_commit_hook(hook.as_str(), &outcome) {
                Err(e) => Err(e),
                Ok(_) => {
                    next.hook_passed = true;
                    next.stage = CommitStage::Messaging;
                    Ok(next)
                },
            }
        },
        (CommitStage::Messaging, CommitEvent::MessageRead { file }) => {
            match commit_message(args, &file) {
                Err(e) => Err(e),
                Ok(message) => {
                    next.message = message;
                    next.stage = CommitStage::Building;
                    Ok(next)
                },
            }
        },
        (CommitStage::Building, CommitEvent::TreeBuilt { outcome }) => match outcome {
            Ok(tree) => {
                next.tree = Some(tree);
                next.stage = CommitStage::Drafting;
                Ok(next)
            },
            Err(e) => Err(e),
        },
        (CommitStage::Drafting, CommitEvent::Known { committer, heads, amended }) => match committer {
            Err(e) => Err(e),
            Ok(by) => {
                match draft_commit(args, next.message.as_str(), &by, &heads, &amended) {
                    Ok(d) => {
                        next.parents = d.parents;
                        next.message = d.message;
                        next.stage = CommitStage::Validating;
                        Ok(next)
                    },
                    Err(e) => Err(e),
                }
            },
        },
        (CommitStage::Validating, CommitEvent::Judged { follows }) => {
            match check_conventional(args, follows) {
                Err(e) => Err(e),
                Ok(conventional) => {
                    next.conventional = conventional;
                    next.stage = CommitStage::Signing;
                    Ok(next)
                },
            }
        },
        (CommitStage::Signing, CommitEvent::Signed { outcome }) => match outcome {
            Ok(signature) => {
                next.signature = signature;
                next.stage = CommitStage::Saving;
                Ok(next)
            },
            Err(e) => Err(e),
        },
        (CommitStage::Saving, CommitEvent::Saved { outcome }) => match outcome {
            Ok(id) => {
                next.commit = Some(id);
                next.stage = CommitStage::Moving;
                Ok(next)
            },
            Err(e) => Err(e),
        },
        (CommitStage::Moving, CommitEvent::HeadMoved { outcome }) => match outcome {
            Ok(_) => {
                next.stage = CommitStage::Done;
                Ok(next)
            },
            Err(e) => Err(e),
        },
        _ => Ok(next),
    }
}

/// Whether the hook is behind the commit.
pub open spec fn past_hook(stage: CommitStage) -> bool {
    !(stage == CommitStage::Staging || stage == CommitStage::Checking || stage
        == CommitStage::Hooking)
}

/// Whether the judging of the message is behind the commit.
pub open spec fn past_validation(stage: CommitStage) -> bool {
    stage == CommitStage::Signing || past_signing(stage)
}

pub open spec fn past_signing(stage: CommitStage) -> bool {
    stage == CommitStage::Saving || past_saving(stage)
}

pub open spec fn past_saving(stage: CommitStage) -> bool {
    stage == CommitStage::Moving || stage == CommitStage::Done
}

/// What holds of a commit at each stage.
pub open spec fn in_course(args: CommitArgs, run: RunView) -> bool {
    &&& past_hook(run.stage) ==> run.hook_passed || args.disable_pre || args.skip_hooks
    &&& past_validation(run.stage) ==> run.conventional == (if is_judged(args) {
        Some(true)
    } else {
        None
    })
    &&& past_validation(run.stage) || run.stage == CommitStage::Validating || run.stage
        == CommitStage::Drafting ==> run.tree is Some
    &&& past_saving(run.stage) <==> run.commit is Some
}

/// The commit after some steps, or the error that ended it.
pub open spec fn run_of(args: CommitArgs, events: Seq<CommitEvent>) -> Result<RunView, CommitErrorView>
    decreases events.len(),
{
    if events.len() == 0 {
        Ok(first_run(args))
    } else {
        match run_of(args, events.drop_last()) {
            Ok(run) => stepped(args, run, events.last()),
            Err(e) => Err(e),
        }
    }
}

/// Whatever the steps give, a commit stays in its course: it is written only after the hook has
/// passed and the message has been judged, unless they were switched off, and HEAD moves only to a
/// commit that has been written.
pub proof fn law_commit_stays_in_course(args: CommitArgs, events: Seq<CommitEvent>)
    ensures
        run_of(args, events) matches Ok(run) ==> in_course(args, run),
    decreases events.len(),
{
    if events.len() > 0 {
        law_commit_stays_in_course(args, events.drop_last());
    }
}

/// A commit that failed makes no more steps.
pub proof fn law_failed_commit_has_ended(args: CommitArgs, events: Seq<CommitEvent>, more: CommitEvent)
    requires
        run_of(args, events) is Err,
    ensures
        run_of(args, events.push(more)) == run_of(args, events),
{
    assert(events.push(more).drop_last() =~= events);
}

/// A commit goes from stage to stage, one thing after the other: it stages, checks that there is
/// something to commit, runs the hook unless that is switched off, takes the message, builds the tree,
/// drafts the commit, has the message judged, signs, saves and moves the head. What each stage found out
/// is kept, the first failure ends it, and an event of another stage changes nothing.
pub proof fn law_commit_goes_from_stage_to_stage(args: CommitArgs, run: RunView, event: CommitEvent)
    ensures
        first_run(args).stage == if args.all {
            CommitStage::Staging
        } else {
            CommitStage::Checking
        },
        !first_run(args).auto_staged && !first_run(args).hook_passed && first_run(args).commit is None
            && first_run(args).tree is None && first_run(args).signature is None,
        match (run.stage, event) {
            (CommitStage::Staging, CommitEvent::AutoStaged { outcome }) => match outcome {
                Ok(staged) => stepped(args, run, event) == Ok::<RunView, CommitErrorView>(
                    (RunView { stage: CommitStage::Checking, auto_staged: staged, ..run }),
                ),
                Err(e) => stepped(args, run, event) == Err::<RunView, CommitErrorView>(e@),
            },
            (CommitStage::Checking, CommitEvent::StagedRead { index_empty, staged }) => {
                let fault = start_fault(args, index_empty, run.auto_staged, staged);
                &&& fault matches Some(e) ==> stepped(args, run, event) == Err::<RunView, CommitErrorView>(e)
                &&& fault is None && (args.disable_pre || args.skip_hooks) ==> stepped(args, run, event)
                    == Ok::<RunView, CommitErrorView>(
                    (RunView { stage: CommitStage::Messaging, ..run }),
                )
                &&& fault is None && !args.disable_pre && !args.skip_hooks ==> stepped(args, run, event)
                    == Ok::<RunView, CommitErrorView>((RunView { stage: CommitStage::Hooking, ..run }))
            },
            (CommitStage::Hooking, CommitEvent::HookEnded { outcome, .. }) => {
                &&& (outcome matches Ok(Some(0))) ==> stepped(args, run, event) == Ok::<
                    RunView,
                    CommitErrorView,
                >((RunView { stage: CommitStage::Messaging, hook_passed: true, ..run }))
                &&& !(outcome matches Ok(Some(0))) ==> (stepped(args, run, event) matches Err(
                    CommitErrorView::PreCommitHook(_),
                ))
            },
            (CommitStage::Messaging, CommitEvent::MessageRead { file }) => match given_message(args, file) {
                Ok(message) => stepped(args, run, event) == Ok::<RunView, CommitErrorView>(
                    (RunView { stage: CommitStage::Building, message, ..run }),
                ),
                Err(e) => stepped(args, run, event) == Err::<RunView, CommitErrorView>(e),
            },
            (CommitStage::Building, CommitEvent::TreeBuilt { outcome }) => match outcome {
                Ok(tree) => stepped(args, run, event) == Ok::<RunView, CommitErrorView>(
                    (RunView { stage: CommitStage::Drafting, tree: Some(tree), ..run }),
                ),
                Err(e) => stepped(args, run, event) == Err::<RunView, CommitErrorView>(e@),
            },
            (CommitStage::Drafting, CommitEvent::Known { committer, heads, amended }) => {
                &&& committer matches Err(e) ==> stepped(args, run, event) == Err::<RunView, CommitErrorView>(
                    e@,
                )
                &&& committer matches Ok(by) ==> match draft(
                    args,
                    run.message,
                    by.name@,
                    by.email@,
                    heads@,
                    amended,
                ) {
                    Ok((parents, message)) => stepped(args, run, event) == Ok::<RunView, CommitErrorView>(
                        (RunView { stage: CommitStage::Validating, parents, message, ..run }),
                    ),
                    Err(e) => stepped(args, run, event) == Err::<RunView, CommitErrorView>(e),
                }
            },
            (CommitStage::Validating, CommitEvent::Judged { follows }) => {
                &&& args.conventional && !args.skip_hooks && !follows ==> (stepped(args, run, event) matches Err(
                    CommitErrorView::ConventionalCommit(_),
                ))
                &&& args.conventional && !args.skip_hooks && follows ==> stepped(args, run, event) == Ok::<
                    RunView,
                    CommitErrorView,
                >((RunView { stage: CommitStage::Signing, conventional: Some(true), ..run }))
                &&& !args.conventional || args.skip_hooks ==> stepped(args, run, event) == Ok::<
                    RunView,
                    CommitErrorView,
                >((RunView { stage: CommitStage::Signing, conventional: None, ..run }))
            },
            (CommitStage::Signing, CommitEvent::Signed { outcome }) => match outcome {
                Ok(signature) => stepped(args, run, event) matches Ok(next) && next.stage
                    == CommitStage::Saving && next.signature == opt_text(signature) && next.commit
                    == run.commit && next.tree == run.tree && next.parents == run.parents && next.message
                    == run.message,
                Err(e) => stepped(args, run, event) == Err::<RunView, CommitErrorView>(e@),
            },
            (CommitStage::Saving, CommitEvent::Saved { outcome }) => match outcome {
                Ok(id) => stepped(args, run, event) == Ok::<RunView, CommitErrorView>(
                    (RunView { stage: CommitStage::Moving, commit: Some(id), ..run }),
                ),
                Err(e) => stepped(args, run, event) == Err::<RunView, CommitErrorView>(e@),
            },
            (CommitStage::Moving, CommitEvent::HeadMoved { outcome }) => match outcome {
                Ok(_) => stepped(args, run, event) == Ok::<RunView, CommitErrorView>(
                    (RunView { stage: CommitStage::Done, ..run }),
                ),
                Err(e) => stepped(args, run, event) == Err::<RunView, CommitErrorView>(e@),
            },
            _ => stepped(args, run, event) == Ok::<RunView, CommitErrorView>(run),
        },
{
}

/// A hook lets a commit pass exactly where it ran and ended with nought; else what it ended with, or why
/// it did not run, is told.
pub proof fn law_hook_must_end_well(hook: Seq<char>, outcome: Result<Option<i32>, String>)
    ensures
        hook_fault(hook, outcome) is None <==> (outcome matches Ok(Some(0))),
        outcome matches Ok(Some(c)) ==> (c != 0 ==> hook_fault(hook, outcome) == Some(
            CommitErrorView::PreCommitHook(
                "hook "@ + hook + " failed with exit code "@ + signed_decimal(c as int),
            ),
        )),
        (outcome matches Ok(None)) ==> hook_fault(hook, outcome) == Some(
            CommitErrorView::PreCommitHook(
                "hook "@ + hook + " failed with exit code "@ + signed_decimal(-1),
            ),
        ),
        outcome matches Err(why) ==> hook_fault(hook, outcome) == Some(
            CommitErrorView::PreCommitHook("failed to execute hook "@ + hook + ": "@ + why@),
        ),
{
}

/// A commit is made by its events in their order: an event after others is a step from where they led.
pub proof fn law_commit_is_made_by_its_events(
    args: CommitArgs,
    events: Seq<CommitEvent>,
    more: CommitEvent,
)
    ensures
        run_of(args, Seq::empty()) == Ok::<RunView, CommitErrorView>(first_run(args)),
        run_of(args, events) matches Ok(run) ==> run_of(args, events.push(more)) == stepped(
            args,
            run,
            more,
        ),
        run_of(args, events) is Err ==> run_of(args, events.push(more)) == run_of(args, events),
{
    assert(events.push(more).drop_last() =~= events);
}

} // verus!
