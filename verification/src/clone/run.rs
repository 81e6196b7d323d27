//! The course of a clone: which step follows which, and what a failure leaves behind.

use vstd::prelude::*;

use crate::clone::errors::CloneError;
use crate::clone::flow::{
    check_destination, check_remote_branch, cleanup_of, Cleanup, CloneArgs, Destination,
};

verus! {

/// A step that works on the destination.
#[derive(Debug, Clone, Copy, PartialEq, Eq, Structural)]
pub enum CloneWork {
    /// Change to the destination
    Enter,
    /// Make an empty repository
    Initialize,
    /// Fetch the objects of a remote
    Fetch,
    /// Configure the repository and check out its files
    SetUp,
    /// Restore the objects of a published site
    RestoreObjects,
    /// Restore its refs
    RestoreMetadata,
    /// Restore its AI objects
    RestoreAi,
    /// Point HEAD at what was published
    Configure,
    /// Check out its files
    CheckOut,
    /// Convert ignore files
    Convert,
    /// Change back
    Leave,
}

/// What is to be done next.
#[derive(Debug, Clone, Copy, PartialEq, Eq, Structural)]
pub enum CloneStage {
    /// Ask the remote for its refs
    Discovering,
    /// Look at the destination
    Probing,
    /// Make the destination
    Creating,
    /// Look for the branch that was asked for
    Branching,
    Working { work: CloneWork },
    Done,
}

/// A clone on its way.
#[derive(Debug, Clone, Copy, PartialEq, Eq, Structural)]
pub struct CloneRun {
    /// Whether a published site is cloned
    pub cloud: bool,
    pub stage: CloneStage,
    /// Whether the clone made the destination
    pub created: bool,
}

/// What a step gave.
#[derive(Debug)]
pub enum CloneEvent {
    Discovered { outcome: Result<(), CloneError> },
    Probed { at: Destination },
    Created { outcome: Result<(), CloneError> },
    /// Whether the remote has the branch
    BranchLooked { found: bool },
    Worked { outcome: Result<(), CloneError> },
}

/// How a clone failed, and how its destination is cleaned up.
#[derive(Debug)]
pub struct CloneFailed {
    pub error: CloneError,
    pub cleanup: Option<Cleanup>,
}

pub open spec fn first_clone_run(cloud: bool) -> CloneRun {
    CloneRun {
        cloud,
        stage: if cloud {
            CloneStage::Probing
        } else {
            CloneStage::Discovering
        },
        created: false,
    }
}

/// Start a clone of a remote, or of a published site.
pub fn start_clone(cloud: bool) -> (r: CloneRun)
    ensures
        r == first_clone_run(cloud),
{
    CloneRun {
        cloud,
        stage: if cloud {
            CloneStage::Probing
        } else {
            CloneStage::Discovering
        },
        created: false,
    }
}

/// What follows once there is a destination.
pub open spec fn at_destination(cloud: bool) -> CloneStage {
    if cloud {
        CloneStage::Working { work: CloneWork::Enter }
    } else {
        CloneStage::Branching
    }
}

/// What follows a step that works on the destination.
pub open spec fn after_work(cloud: bool, bare: bool, work: CloneWork) -> CloneStage {
    match work {
        CloneWork::Enter => CloneStage::Working { work: CloneWork::Initialize },
        CloneWork::Initialize => if cloud {
            CloneStage::Working { work: CloneWork::RestoreObjects }
        } else {
            CloneStage::Working { work: CloneWork::Fetch }
        },
        CloneWork::Fetch => CloneStage::Working { work: CloneWork::SetUp },
        CloneWork::SetUp => if bare {
            CloneStage::Working { work: CloneWork::Leave }
        } else {
            CloneStage::Working { work: CloneWork::Convert }
        },
        CloneWork::RestoreObjects => CloneStage::Working { work: CloneWork::RestoreMetadata },
        CloneWork::RestoreMetadata => CloneStage::Working { work: CloneWork::RestoreAi },
        CloneWork::RestoreAi => CloneStage::Working { work: CloneWork::Configure },
        CloneWork::Configure => CloneStage::Working { work: CloneWork::CheckOut },
        CloneWork::CheckOut => CloneStage::Working { work: CloneWork::Convert },
        CloneWork::Convert => CloneStage::Working { work: CloneWork::Leave },
        CloneWork::Leave => CloneStage::Done,
    }
}

fn next_work(cloud: bool, bare: bool, work: CloneWork) -> (r: CloneStage)
    ensures
        r == after_work(cloud, bare, work),
{
    match work {
        CloneWork::Enter => CloneStage::Working { work: CloneWork::Initialize },
        CloneWork::Initialize => if cloud {
            CloneStage::Working { work: CloneWork::RestoreObjects }
        } else {
            CloneStage::Working { work: CloneWork::Fetch }
        },
        CloneWork::Fetch => CloneStage::Working { work: CloneWork::SetUp },
        CloneWork::SetUp => if bare {
            CloneStage::Working { work: CloneWork::Leave }
        } else {
            CloneStage::Working { work: CloneWork::Convert }
        },
        CloneWork::RestoreObjects => CloneStage::Working { work: CloneWork::RestoreMetadata },
        CloneWork::RestoreMetadata => CloneStage::Working { work: CloneWork::RestoreAi },
        CloneWork::RestoreAi => CloneStage::Working { work: CloneWork::Configure },
        CloneWork::Configure => CloneStage::Working { work: CloneWork::CheckOut },
        CloneWork::CheckOut => CloneStage::Working { work: CloneWork::Convert },
        CloneWork::Convert => CloneStage::Working { work: CloneWork::Leave },
        CloneWork::Leave => CloneStage::Done,
    }
}

/// How a destination that a clone has taken is cleaned up.
pub open spec fn cleanup_for(created: bool) -> Cleanup {
    if created {
        Cleanup::RemoveDirectory
    } else {
        Cleanup::ClearContents
    }
}

/// A step that gave an outcome goes on, or fails with its error.
pub open spec fn goes_on(
    r: Result<CloneRun, CloneFailed>,
    outcome: Result<(), CloneError>,
    next: CloneRun,
    cleanup: Option<Cleanup>,
) -> bool {
    match (r, outcome) {
        (Ok(run), Ok(_)) => run == next,
        (Err(f), Err(e)) => f.error == e && f.cleanup == cleanup,
        _ => false,
    }
}

/// Whether this is the clone after one step. A step that is not the next one changes nothing.
pub open spec fn is_clone_step(
    r: Result<CloneRun, CloneFailed>,
    args: CloneArgs,
    local_path: Seq<char>,
    run: CloneRun,
    event: CloneEvent,
) -> bool {
    match (run.stage, event) {
        (CloneStage::Discovering, CloneEvent::Discovered { outcome }) => goes_on(
            r,
            outcome,
            CloneRun { stage: CloneStage::Probing, ..run },
            None,
        ),
        (CloneStage::Probing, CloneEvent::Probed { at }) => if at.has_repo {
            r matches Err(f) && f.cleanup is None && (f.error matches CloneError::DestinationAlreadyRepo {
                path,
            } && path@ == local_path)
        } else if at.exists && !at.empty {
            r matches Err(f) && f.cleanup is None
                && (f.error matches CloneError::DestinationExistsNonEmpty { path } && path@
                == local_path)
        } else {
            r matches Ok(next) && next == (CloneRun {
                stage: if at.exists {
                    at_destination(run.cloud)
                } else {
                    CloneStage::Creating
                },
                ..run
            })
        },
        (CloneStage::Creating, CloneEvent::Created { outcome }) => goes_on(
            r,
            outcome,
            CloneRun { stage: at_destination(run.cloud), created: true, ..run },
            None,
        ),
        (CloneStage::Branching, CloneEvent::BranchLooked { found }) => match args.branch {
            Some(name) if !found => r matches Err(f) && f.cleanup == Some(cleanup_for(run.created)) && (
            f.error matches CloneError::RemoteBranchNotFound { branch } && branch@ == name@),
            _ => r matches Ok(next) && next == (CloneRun {
                stage: CloneStage::Working { work: CloneWork::Enter },
                ..run
            }),
        },
        (CloneStage::Working { work }, CloneEvent::Worked { outcome }) => goes_on(
            r,
            outcome,
            CloneRun { stage: after_work(run.cloud, args.bare, work), ..run },
            Some(cleanup_for(run.created)),
        ),
        _ => r matches Ok(next) && next == run,
    }
}

fn go_on(outcome: Result<(), CloneError>, next: CloneRun, cleanup: Option<Cleanup>) -> (r: Result<
    CloneRun,
    CloneFailed,
>)
    ensures
        goes_on(r, outcome, next, cleanup),
{
    match outcome {
        Ok(_) => Ok(next),
        Err(error) => Err(CloneFailed { error, cleanup }),
    }
}

/// Take what a step gave, and say what is next.
pub fn run_clone(args: &CloneArgs, local_path: &str, run: CloneRun, event: CloneEvent) -> (r: Result<
    CloneRun,
    CloneFailed,
>)
    ensures
        is_clone_step(r, *args, local_path@, run, event),
{
    let taken = if run.cloud {
        CloneStage::Working { work: CloneWork::Enter }
    } else {
        CloneStage::Branching
    };
    match (run.stage, event) {
        (CloneStage::Discovering, CloneEvent::Discovered { outcome }) => go_on(
            outcome,
            CloneRun { cloud: run.cloud, stage: CloneStage::Probing, created: run.created },
            None,
        ),
        (CloneStage::Probing, CloneEvent::Probed { at }) => match check_destination(local_path, at) {
            Err(error) => Err(CloneFailed { error, cleanup: None }),
            Ok(create) => Ok(
                CloneRun {
                    cloud: run.cloud,
                    stage: if create {
                        CloneStage::Creating
                    } else {
                        taken
                    },
                    created: run.created,
                },
            ),
        },
        (CloneStage::Creating, CloneEvent::Created { outcome }) => go_on(
            outcome,
            CloneRun { cloud: run.cloud, stage: taken, created: true },
            None,
        ),
        (CloneStage::Branching, CloneEvent::BranchLooked { found }) => match check_remote_branch(
            args,
            found,
        ) {
            Err(error) => Err(CloneFailed { error, cleanup: Some(cleanup_of(run.created)) }),
            Ok(_) => Ok(
                CloneRun {
                    cloud: run.cloud,
                    stage: CloneStage::Working { work: CloneWork::Enter },
                    created: run.created,
                },
            ),
        },
        (CloneStage::Working { work }, CloneEvent::Worked { outcome }) => go_on(
            outcome,
            CloneRun {
                cloud: run.cloud,
                stage: next_work(run.cloud, args.bare, work),
                created: run.created,
            },
            Some(cleanup_of(run.created)),
        ),
        _ => Ok(run),
    }
}

/// Whether the clone has taken its destination.
pub open spec fn has_destination(stage: CloneStage) -> bool {
    stage is Branching || stage is Working || stage is Done
}

/// A clone that has not taken a destination has made none, and one that works on it went through the
/// check for it.
pub open spec fn clone_in_course(run: CloneRun) -> bool {
    &&& !has_destination(run.stage) ==> !run.created
    &&& run.cloud ==> !(run.stage is Branching) && !(run.stage is Discovering)
}

/// A clone stays in its course whatever its steps give.
pub proof fn law_clone_stays_in_course(
    r: Result<CloneRun, CloneFailed>,
    args: CloneArgs,
    local_path: Seq<char>,
    run: CloneRun,
    event: CloneEvent,
)
    requires
        clone_in_course(run),
        is_clone_step(r, args, local_path, run, event),
    ensures
        clone_in_course(first_clone_run(run.cloud)),
        r matches Ok(next) ==> clone_in_course(next) && next.cloud == run.cloud,
{
}

/// A failed clone touches nothing that it did not take: what was at the destination before it was
/// taken is left alone, a directory that was there is emptied, which it was, and only one that the
/// clone made is removed.
pub proof fn law_failed_clone_removes_what_it_made(
    r: Result<CloneRun, CloneFailed>,
    args: CloneArgs,
    local_path: Seq<char>,
    run: CloneRun,
    event: CloneEvent,
)
    requires
        clone_in_course(run),
        is_clone_step(r, args, local_path, run, event),
        r is Err,
    ensures
        r->Err_0.cleanup is Some <==> has_destination(run.stage),
        r->Err_0.cleanup == Some(Cleanup::RemoveDirectory) ==> run.created,
        r->Err_0.cleanup == Some(Cleanup::ClearContents) ==> !run.created,
{
}

/// How many steps a clone has left at most.
pub open spec fn steps_left(stage: CloneStage) -> nat {
    match stage {
        CloneStage::Discovering => 14,
        CloneStage::Probing => 13,
        CloneStage::Creating => 12,
        CloneStage::Branching => 11,
        CloneStage::Done => 0,
        CloneStage::Working { work } => match work {
            CloneWork::Enter => 10,
            CloneWork::Initialize => 9,
            CloneWork::Fetch => 8,
            CloneWork::SetUp => 7,
            CloneWork::RestoreObjects => 8,
            CloneWork::RestoreMetadata => 7,
            CloneWork::RestoreAi => 6,
            CloneWork::Configure => 5,
            CloneWork::CheckOut => 4,
            CloneWork::Convert => 3,
            CloneWork::Leave => 2,
        },
    }
}

/// Every step that changes a clone brings it nearer to its end.
pub proof fn law_clone_ends(
    r: Result<CloneRun, CloneFailed>,
    args: CloneArgs,
    local_path: Seq<char>,
    run: CloneRun,
    event: CloneEvent,
)
    requires
        is_clone_step(r, args, local_path, run, event),
    ensures
        r matches Ok(next) ==> next == run || steps_left(next.stage) < steps_left(run.stage),
{
}

/// A clone does its work in one order: it enters and makes a repository; then it fetches and sets up, or
/// restores what was published and checks it out; then it converts the ignore files, unless it is bare,
/// and leaves.
pub proof fn law_order_of_the_work(bare: bool, i: int)
    ensures
        ({
            let fetched = seq![
                CloneWork::Enter,
                CloneWork::Initialize,
                CloneWork::Fetch,
                CloneWork::SetUp,
                CloneWork::Convert,
                CloneWork::Leave,
            ];
            let restored = seq![
                CloneWork::Enter,
                CloneWork::Initialize,
                CloneWork::RestoreObjects,
                CloneWork::RestoreMetadata,
                CloneWork::RestoreAi,
                CloneWork::Configure,
                CloneWork::CheckOut,
                CloneWork::Convert,
                CloneWork::Leave,
            ];
            &&& 0 <= i < 5 && (i != 3 || !bare) ==> after_work(false, bare, fetched[i]) == (
            CloneStage::Working { work: fetched[i + 1] })
            &&& 0 <= i < 8 ==> after_work(true, false, restored[i]) == (CloneStage::Working {
                work: restored[i + 1],
            })
            &&& after_work(false, true, CloneWork::SetUp) == (CloneStage::Working { work: CloneWork::Leave })
            &&& after_work(true, bare, CloneWork::Leave) is Done
            &&& after_work(false, bare, CloneWork::Leave) is Done
        }),
{
}

/// A clone that goes well goes from stage to stage: it asks the remote, looks at the destination, makes
/// it where it is not there, and works; one from the cloud does not ask for a branch.
pub proof fn law_clone_goes_from_stage_to_stage(
    r: Result<CloneRun, CloneFailed>,
    args: CloneArgs,
    local_path: Seq<char>,
    run: CloneRun,
    event: CloneEvent,
)
    requires
        is_clone_step(r, args, local_path, run, event),
    ensures
        first_clone_run(true).stage is Probing && first_clone_run(true).cloud,
        first_clone_run(false).stage is Discovering && !first_clone_run(false).cloud,
        !first_clone_run(run.cloud).created,
        r matches Ok(next) ==> next.cloud == run.cloud && (next.created <==> run.created || (run.stage is Creating
            && event is Created)),
        match (run.stage, event) {
            (CloneStage::Discovering, CloneEvent::Discovered { outcome }) => {
                &&& outcome is Ok ==> (r matches Ok(next) && next.stage is Probing)
                &&& outcome matches Err(why) ==> (r matches Err(f) && f.error == why && f.cleanup is None)
            },
            (CloneStage::Probing, CloneEvent::Probed { at }) => {
                &&& r is Ok <==> !at.has_repo && (!at.exists || at.empty)
                &&& r matches Ok(next) ==> {
                    &&& !at.exists ==> next.stage is Creating
                    &&& at.exists && !run.cloud ==> next.stage is Branching
                    &&& at.exists && run.cloud ==> next.stage == (CloneStage::Working {
                        work: CloneWork::Enter,
                    })
                }
                &&& at.has_repo ==> (r matches Err(f) && (f.error matches CloneError::DestinationAlreadyRepo {
                    path,
                } && path@ == local_path))
            },
            (CloneStage::Creating, CloneEvent::Created { outcome }) => {
                &&& outcome is Ok && !run.cloud ==> (r matches Ok(next) && next.stage is Branching)
                &&& outcome is Ok && run.cloud ==> (r matches Ok(next) && next.stage == (
                CloneStage::Working { work: CloneWork::Enter }))
                &&& outcome matches Err(why) ==> (r matches Err(f) && f.error == why)
            },
            (CloneStage::Branching, CloneEvent::BranchLooked { found }) => {
                &&& args.branch is None || found ==> (r matches Ok(next) && next.stage == (
                CloneStage::Working { work: CloneWork::Enter }))
                &&& args.branch matches Some(name) ==> (!found ==> (r matches Err(f) && (
                f.error matches CloneError::RemoteBranchNotFound { branch } && branch@ == name@)))
            },
            (CloneStage::Working { work }, CloneEvent::Worked { outcome }) => {
                &&& outcome is Ok ==> (r matches Ok(next) && next.stage == after_work(
                    run.cloud,
                    args.bare,
                    work,
                ))
                &&& outcome matches Err(why) ==> (r matches Err(f) && f.error == why && f.cleanup == Some(
                    if run.created {
                        Cleanup::RemoveDirectory
                    } else {
                        Cleanup::ClearContents
                    },
                ))
            },
            _ => r matches Ok(next) && next == run,
        },
{
}

} // verus!
