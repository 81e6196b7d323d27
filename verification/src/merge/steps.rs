//! The order in which a merge writes.

use vstd::prelude::*;

use crate::merge::flow::{PullPlan, ThreeWayOutcome};

verus! {

/// Something that a merge writes, or checks before it does.
#[derive(Debug, Clone, Copy, PartialEq, Eq, Structural)]
pub enum MergeStep {
    /// No file that is not in the index would be overwritten
    CheckUntracked,
    /// Write the merged tree
    WriteTree,
    /// Write the merge commit
    WriteCommit,
    /// Record the merge, so that it can be continued or aborted
    SaveState,
    /// Write an index with the conflicts in it
    SaveIndex,
    /// Move HEAD, with an entry in the reflog
    MoveHead,
    /// Bring index and working tree to a tree
    ResetWorktree,
    /// Write the files that were merged
    WriteFiles,
    /// Remove the files that the merge leaves nothing at
    RemoveFiles,
    /// Write the files in conflict
    WriteConflicts,
    /// Forget the merge
    DropState,
}

/// What a merge comes to.
#[derive(Debug, Clone, Copy, PartialEq, Eq, Structural)]
pub enum MergeEnd {
    UpToDate,
    FastForward,
    SquashFastForward,
    Conflicts { squash: bool },
    Squash,
    NoCommit,
    Commit,
    Continue,
    Abort,
    Quit,
}

/// What a merge comes to that needs no three-way merge.
pub fn end_of_plan(plan: PullPlan) -> (r: Option<MergeEnd>)
    ensures
        r == (match plan {
            PullPlan::AlreadyUpToDate => Some(MergeEnd::UpToDate),
            PullPlan::FastForwardUnborn => Some(MergeEnd::FastForward),
            PullPlan::FastForward => Some(MergeEnd::FastForward),
            PullPlan::SquashFastForward => Some(MergeEnd::SquashFastForward),
            PullPlan::ThreeWay => None,
        }),
{
    match plan {
        PullPlan::AlreadyUpToDate => Some(MergeEnd::UpToDate),
        PullPlan::FastForwardUnborn => Some(MergeEnd::FastForward),
        PullPlan::FastForward => Some(MergeEnd::FastForward),
        PullPlan::SquashFastForward => Some(MergeEnd::SquashFastForward),
        PullPlan::ThreeWay => None,
    }
}

/// What a three-way merge comes to.
pub fn end_of_outcome(outcome: &ThreeWayOutcome, squash: bool) -> (r: MergeEnd)
    ensures
        r == (match *outcome {
            ThreeWayOutcome::Conflicts { .. } => MergeEnd::Conflicts { squash },
            ThreeWayOutcome::Squash => MergeEnd::Squash,
            ThreeWayOutcome::NoCommit => MergeEnd::NoCommit,
            ThreeWayOutcome::Commit => MergeEnd::Commit,
        }),
{
    match outcome {
        ThreeWayOutcome::Conflicts { .. } => MergeEnd::Conflicts { squash },
        ThreeWayOutcome::Squash => MergeEnd::Squash,
        ThreeWayOutcome::NoCommit => MergeEnd::NoCommit,
        ThreeWayOutcome::Commit => MergeEnd::Commit,
    }
}

/// The steps of a merge, in order. A squashed merge with conflicts cannot be continued, so it is not
/// recorded.
pub open spec fn steps_of(end: MergeEnd) -> Seq<MergeStep> {
    match end {
        MergeEnd::UpToDate => Seq::empty(),
        MergeEnd::FastForward => seq![
            MergeStep::CheckUntracked,
            MergeStep::MoveHead,
            MergeStep::ResetWorktree,
        ],
        MergeEnd::SquashFastForward => seq![MergeStep::ResetWorktree],
        MergeEnd::Conflicts { squash } => if squash {
            seq![
                MergeStep::CheckUntracked,
                MergeStep::SaveIndex,
                MergeStep::WriteFiles,
                MergeStep::RemoveFiles,
                MergeStep::WriteConflicts,
            ]
        } else {
            seq![
                MergeStep::CheckUntracked,
                MergeStep::SaveState,
                MergeStep::SaveIndex,
                MergeStep::WriteFiles,
                MergeStep::RemoveFiles,
                MergeStep::WriteConflicts,
            ]
        },
        MergeEnd::Squash => seq![
            MergeStep::CheckUntracked,
            MergeStep::WriteTree,
            MergeStep::ResetWorktree,
        ],
        MergeEnd::NoCommit => seq![
            MergeStep::CheckUntracked,
            MergeStep::WriteTree,
            MergeStep::SaveState,
            MergeStep::ResetWorktree,
        ],
        MergeEnd::Commit => seq![
            MergeStep::CheckUntracked,
            MergeStep::WriteTree,
            MergeStep::WriteCommit,
            MergeStep::MoveHead,
            MergeStep::ResetWorktree,
        ],
        MergeEnd::Continue => seq![
            MergeStep::WriteTree,
            MergeStep::WriteCommit,
            MergeStep::MoveHead,
            MergeStep::ResetWorktree,
            MergeStep::DropState,
        ],
        MergeEnd::Abort => seq![
            MergeStep::MoveHead,
            MergeStep::ResetWorktree,
            MergeStep::DropState,
        ],
        MergeEnd::Quit => seq![MergeStep::DropState],
    }
}

/// List the steps of a merge.
pub fn merge_steps(end: MergeEnd) -> (r: Vec<MergeStep>)
    ensures
        r@ == steps_of(end),
{
    let r = match end {
        MergeEnd::UpToDate => Vec::new(),
        MergeEnd::FastForward => vec![
            MergeStep::CheckUntracked,
            MergeStep::MoveHead,
            MergeStep::ResetWorktree,
        ],
        MergeEnd::SquashFastForward => vec![MergeStep::ResetWorktree],
        MergeEnd::Conflicts { squash } => if squash {
            vec![
                MergeStep::CheckUntracked,
                MergeStep::SaveIndex,
                MergeStep::WriteFiles,
                MergeStep::RemoveFiles,
                MergeStep::WriteConflicts,
            ]
        } else {
            vec![
                MergeStep::CheckUntracked,
                MergeStep::SaveState,
                MergeStep::SaveIndex,
                MergeStep::WriteFiles,
                MergeStep::RemoveFiles,
                MergeStep::WriteConflicts,
            ]
        },
        MergeEnd::Squash => vec![
            MergeStep::CheckUntracked,
            MergeStep::WriteTree,
            MergeStep::ResetWorktree,
        ],
        MergeEnd::NoCommit => vec![
            MergeStep::CheckUntracked,
            MergeStep::WriteTree,
            MergeStep::SaveState,
            MergeStep::ResetWorktree,
        ],
        MergeEnd::Commit => vec![
            MergeStep::CheckUntracked,
            MergeStep::WriteTree,
            MergeStep::WriteCommit,
            MergeStep::MoveHead,
            MergeStep::ResetWorktree,
        ],
        MergeEnd::Continue => vec![
            MergeStep::WriteTree,
            MergeStep::WriteCommit,
            MergeStep::MoveHead,
            MergeStep::ResetWorktree,
            MergeStep::DropState,
        ],
        MergeEnd::Abort => vec![
            MergeStep::MoveHead,
            MergeStep::ResetWorktree,
            MergeStep::DropState,
        ],
        MergeEnd::Quit => vec![MergeStep::DropState],
    };
    assert(r@ =~= steps_of(end));
    r
}

/// Whether the record of the merge is dropped again where a step fails: the index could not be
/// written, so there is nothing to continue.
pub fn drops_state_on_failure(step: MergeStep) -> (r: bool)
    ensures
        r == (step == MergeStep::SaveIndex),
{
    match step {
        MergeStep::SaveIndex => true,
        _ => false,
    }
}

/// Whether every `a` comes before every `b`.
pub open spec fn precedes(steps: Seq<MergeStep>, a: MergeStep, b: MergeStep) -> bool {
    forall|i: int, j: int|
        0 <= i < steps.len() && 0 <= j < steps.len() && #[trigger] steps[i] == a && #[trigger] steps[j]
            == b ==> i < j
}

/// Whether a step changes files of the working tree.
pub open spec fn touches_files(step: MergeStep) -> bool {
    step == MergeStep::ResetWorktree || step == MergeStep::WriteFiles || step
        == MergeStep::RemoveFiles || step == MergeStep::WriteConflicts
}

/// HEAD moves only to a commit that has been written, the working tree follows HEAD, files that are
/// not in the index are looked for before any file is touched, a merge that waits is recorded before
/// the working tree shows it, and it is forgotten only when everything else is done.
pub proof fn law_merge_writes_in_order(end: MergeEnd)
    ensures
        precedes(steps_of(end), MergeStep::WriteTree, MergeStep::WriteCommit),
        precedes(steps_of(end), MergeStep::WriteCommit, MergeStep::MoveHead),
        precedes(steps_of(end), MergeStep::MoveHead, MergeStep::ResetWorktree),
        precedes(steps_of(end), MergeStep::SaveState, MergeStep::ResetWorktree),
        precedes(steps_of(end), MergeStep::SaveState, MergeStep::SaveIndex),
        precedes(steps_of(end), MergeStep::SaveIndex, MergeStep::WriteFiles),
        precedes(steps_of(end), MergeStep::WriteFiles, MergeStep::WriteConflicts),
        forall|step: MergeStep|
            touches_files(step) ==> #[trigger] precedes(
                steps_of(end),
                MergeStep::CheckUntracked,
                step,
            ),
        forall|step: MergeStep|
            step != MergeStep::DropState ==> #[trigger] precedes(
                steps_of(end),
                step,
                MergeStep::DropState,
            ),
{
}

/// What a merge does, by how it ends: the head moves where a commit is made or taken up, and then alone;
/// a state is kept where the merge waits, and dropped where it is over; files that are not recorded are
/// looked at before a merge changes any; and a merge that was up to date does nothing.
pub proof fn law_merge_does_what_its_end_needs(end: MergeEnd)
    ensures
        steps_of(MergeEnd::UpToDate).len() == 0,
        steps_of(end).contains(MergeStep::MoveHead) <==> end is FastForward || end is Commit
            || end is Continue || end is Abort,
        steps_of(end).contains(MergeStep::WriteCommit) <==> end is Commit || end is Continue,
        steps_of(end).contains(MergeStep::WriteTree) <==> end is Squash || end is NoCommit || end is Commit
            || end is Continue,
        steps_of(end).contains(MergeStep::SaveState) <==> end is NoCommit || (end
            == MergeEnd::Conflicts { squash: false }),
        steps_of(end).contains(MergeStep::DropState) <==> end is Continue || end is Abort || end is Quit,
        steps_of(end).contains(MergeStep::CheckUntracked) <==> end is FastForward || end is Conflicts
            || end is Squash || end is NoCommit || end is Commit,
        steps_of(end).contains(MergeStep::ResetWorktree) <==> !(end is UpToDate) && !(end is Conflicts)
            && !(end is Quit),
        steps_of(end).contains(MergeStep::SaveIndex) <==> end is Conflicts,
        steps_of(end).contains(MergeStep::WriteFiles) <==> end is Conflicts,
        steps_of(end).contains(MergeStep::RemoveFiles) <==> end is Conflicts,
        steps_of(end).contains(MergeStep::WriteConflicts) <==> end is Conflicts,
        steps_of(end).no_duplicates(),
{
    let s = steps_of(end);
    assert(s.len() <= 6);
    assert(s.len() > 0 ==> s.contains(s[0]));
    assert(s.len() > 1 ==> s.contains(s[1]));
    assert(s.len() > 2 ==> s.contains(s[2]));
    assert(s.len() > 3 ==> s.contains(s[3]));
    assert(s.len() > 4 ==> s.contains(s[4]));
    assert(s.len() > 5 ==> s.contains(s[5]));
}

} // verus!
