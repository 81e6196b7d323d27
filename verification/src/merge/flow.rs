//! The steps of a merge: what is done next, and what is reported.

use vstd::prelude::*;

use crate::merge::PullMergeError;
use crate::merge::checks::{clash, ensure_no_directory_file_conflicts, first_clash};
use crate::merge::content::{is_load_error, BlobStore, NewBlob};
use crate::merge::items::{changed_paths, count_item_map_changes, paths_of, TreeItems};
use crate::merge::options::{
    apply_merge_ff_config, ff_setting, MergeArgs, MergeConfig, MergeConflictStyle, MergeStrategy,
    PullMergeOptions,
};
use crate::merge::renames::{applied_renames, apply_all, merge_tree_items_with_options, MergeMaps};
use crate::merge::three_way::{
    conflict_paths, is_merge_fault, is_merge_of, PathConflict, ThreeWayMergeResult,
};
use crate::object::{
    law_object_name_is_read_back, object_id_from_str, parsed_id, HashKind, ObjectId,
};
use crate::text::{
    clone_opt_text, concat2, concat3, concat4, concat6, has_prefix, join, join_seq, opt_text, split,
    split_seq, strip_prefix, text_eq, texts, trim, trim_seq,
};

verus! {

/// What a call of the merge command asks for.
#[derive(Debug, Clone, Copy, PartialEq, Eq, Structural)]
pub enum MergeAction {
    Single,
    Octopus,
    Continue,
    Abort,
    Quit,
}

/// What the command line asks for: heads to merge, or one of the three ways to end a merge.
pub fn select_merge_action(args: &MergeArgs) -> (r: Result<MergeAction, PullMergeError>)
    ensures
        ({
            let heads = args.branches@.len();
            let asked = (if args.continue_merge {
                1int
            } else {
                0
            }) + (if args.abort {
                1int
            } else {
                0
            }) + (if args.quit {
                1int
            } else {
                0
            });
            match r {
                Ok(MergeAction::Single) => heads == 1 && asked == 0,
                Ok(MergeAction::Octopus) => heads > 1 && asked == 0,
                Ok(MergeAction::Continue) => heads == 0 && asked == 1 && args.continue_merge,
                Ok(MergeAction::Abort) => heads == 0 && asked == 1 && args.abort,
                Ok(MergeAction::Quit) => heads == 0 && asked == 1 && args.quit,
                Err(PullMergeError::MissingAction) => heads == 0 && asked == 0,
                Err(PullMergeError::ConflictingAction) => asked > 1 || (heads > 0 && asked > 0),
                Err(_) => false,
            }
        }),
{
    let heads: usize = args.branches.len();
    match (args.continue_merge, args.abort, args.quit) {
        (false, false, false) => {
            if heads == 1 {
                Ok(MergeAction::Single)
            } else if heads > 1 {
                Ok(MergeAction::Octopus)
            } else {
                Err(PullMergeError::MissingAction)
            }
        },
        (true, false, false) => if heads == 0 {
            Ok(MergeAction::Continue)
        } else {
            Err(PullMergeError::ConflictingAction)
        },
        (false, true, false) => if heads == 0 {
            Ok(MergeAction::Abort)
        } else {
            Err(PullMergeError::ConflictingAction)
        },
        (false, false, true) => if heads == 0 {
            Ok(MergeAction::Quit)
        } else {
            Err(PullMergeError::ConflictingAction)
        },
        _ => Err(PullMergeError::ConflictingAction),
    }
}

/// A merge that waits to be finished.
#[derive(Debug)]
pub struct MergeState {
    pub head_name: String,
    pub orig_head: String,
    pub target: String,
    pub target_ref: String,
    pub base: String,
    pub conflicted_paths: Vec<String>,
    pub message: Option<String>,
    pub signoff: bool,
    pub log: Option<usize>,
    pub conflict_style: MergeConflictStyle,
    /// Stash id saved by `--autostash`, reapplied on `--continue`/`--abort`.
    pub autostash: Option<String>,
}

impl MergeState {
    /// Where the state of an unfinished merge is kept.
    pub fn path(storage: &str) -> (r: String)
        ensures
            r@ == storage@ + "/merge-state.json"@,
    {
        concat2(storage, "/merge-state.json")
    }

    /// The state of the merge in progress, from what loading it gave.
    pub fn load_required(loaded: Result<Option<MergeState>, String>) -> (r: Result<
        MergeState,
        PullMergeError,
    >)
        ensures
            match loaded {
                Ok(Some(state)) => r == Ok::<MergeState, PullMergeError>(state),
                Ok(None) => r matches Err(PullMergeError::NoMergeInProgress),
                Err(detail) => r == Err::<MergeState, PullMergeError>(
                    PullMergeError::StateLoad(detail),
                ),
            },
    {
        match loaded {
            Ok(Some(state)) => Ok(state),
            Ok(None) => Err(PullMergeError::NoMergeInProgress),
            Err(detail) => Err(PullMergeError::StateLoad(detail)),
        }
    }
}

/// Refuses to finish a merge while tracked files have changes that are not staged.
pub fn ensure_no_unstaged_changes_for_continue(modified: &Vec<String>, deleted: &Vec<String>) -> (r:
    Result<(), PullMergeError>)
    ensures
        match r {
            Ok(_) => modified@.len() == 0 && deleted@.len() == 0,
            Err(e) => (modified@.len() > 0 || deleted@.len() > 0) && e is DirtyWorktree,
        },
{
    if !modified.is_empty() || !deleted.is_empty() {
        return Err(PullMergeError::DirtyWorktree);
    }
    Ok(())
}

/// Refuses a merge while another one waits, after the configuration decided about
/// fast-forwards where the command line did not.
pub fn check_merge_start(
    options: &mut PullMergeOptions,
    config: &MergeConfig,
    loaded: Result<Option<MergeState>, String>,
) -> (r: Result<(), PullMergeError>)
    ensures
        ({
            let open = !old(options).ff_only && !old(options).no_ff;
            let set = ff_setting(opt_text(config.ff));
            match r {
                Ok(_) => {
                    &&& loaded matches Ok(None)
                    &&& open ==> set is Some
                    &&& *final(options) == (PullMergeOptions {
                        ff_only: if open {
                            (set->0).0
                        } else {
                            old(options).ff_only
                        },
                        no_ff: if open {
                            (set->0).1
                        } else {
                            old(options).no_ff
                        },
                        ..*old(options)
                    })
                },
                Err(PullMergeError::InvalidMergeFfConfig { value }) => open && set is None && Some(value@)
                    == opt_text(config.ff),
                Err(PullMergeError::StateLoad(d)) => !(open && set is None) && loaded
                    == Err::<Option<MergeState>, String>(d),
                Err(PullMergeError::MergeInProgress) => !(open && set is None) && loaded matches Ok(
                    Some(_),
                ),
                Err(_) => false,
            }
        }),
{
    if !options.ff_only && !options.no_ff {
        let mut ff_only = options.ff_only;
        let mut no_ff = options.no_ff;
        if let Err(e) = apply_merge_ff_config(&mut ff_only, &mut no_ff, config) {
            return Err(e);
        }
        options.ff_only = ff_only;
        options.no_ff = no_ff;
    }
    match loaded {
        Err(detail) => Err(PullMergeError::StateLoad(detail)),
        Ok(Some(_)) => Err(PullMergeError::MergeInProgress),
        Ok(None) => Ok(()),
    }
}

/// Refuses an unsigned target where signatures are asked for.
pub fn check_merge_target(options: &PullMergeOptions, upstream: &str, signed: bool) -> (r: Result<
    (),
    PullMergeError,
>)
    ensures
        match r {
            Ok(_) => signed || !options.verify_signatures,
            Err(e) => !signed && options.verify_signatures && (e matches PullMergeError::UnsignedTarget {
                target,
            } && target@ == upstream@),
        },
{
    if options.verify_signatures && !signed {
        return Err(PullMergeError::UnsignedTarget { target: upstream.to_owned() });
    }
    Ok(())
}

/// How a single head is merged.
#[derive(Debug, Clone, Copy, PartialEq, Eq, Structural)]
pub enum PullPlan {
    /// There is no commit yet: the target becomes the first one.
    FastForwardUnborn,
    AlreadyUpToDate,
    /// The tree of the target is staged, no commit is made.
    SquashFastForward,
    FastForward,
    ThreeWay,
}

/// How a single head is merged, or which refusal stands against it: histories without a common
/// base, and more than a fast-forward where only that is allowed.
pub open spec fn pull_plan(
    ff_only: bool,
    no_ff: bool,
    squash: bool,
    allow_unrelated: bool,
    current: Option<ObjectId>,
    target: ObjectId,
    base: Option<ObjectId>,
) -> Option<PullPlan> {
    match current {
        None => Some(PullPlan::FastForwardUnborn),
        Some(c) => if base is None && !allow_unrelated {
            None
        } else if base == Some(target) {
            Some(PullPlan::AlreadyUpToDate)
        } else if base == Some(c) && !no_ff {
            if squash {
                Some(PullPlan::SquashFastForward)
            } else {
                Some(PullPlan::FastForward)
            }
        } else if ff_only {
            None
        } else {
            Some(PullPlan::ThreeWay)
        },
    }
}

/// How a single head is merged: `base` is the common ancestor of `current` and `target`.
pub fn plan_pull_merge(
    options: &PullMergeOptions,
    current: Option<ObjectId>,
    target: ObjectId,
    base: Option<ObjectId>,
) -> (r: Result<PullPlan, PullMergeError>)
    ensures
        match (
            r,
            pull_plan(
                options.ff_only,
                options.no_ff,
                options.squash,
                options.allow_unrelated_histories,
                current,
                target,
                base,
            ),
        ) {
            (Ok(got), Some(want)) => got == want,
            (Err(PullMergeError::UnrelatedHistories), None) => base is None
                && !options.allow_unrelated_histories,
            (Err(PullMergeError::NonFastForward { current: c, target: t }), None) => (base is Some
                || options.allow_unrelated_histories) && current is Some && c@ == current->0.text() && t@
                == target.text(),
            _ => false,
        },
{
    let current_id = match current {
        None => {
            return Ok(PullPlan::FastForwardUnborn);
        },
        Some(id) => id,
    };
    if base.is_none() && !options.allow_unrelated_histories {
        return Err(PullMergeError::UnrelatedHistories);
    }
    if let Some(b) = base {
        if b == target {
            return Ok(PullPlan::AlreadyUpToDate);
        }
        if b == current_id && !options.no_ff {
            return Ok(
                if options.squash {
                    PullPlan::SquashFastForward
                } else {
                    PullPlan::FastForward
                },
            );
        }
    }
    if options.ff_only {
        return Err(
            PullMergeError::NonFastForward {
                current: current_id.to_string(),
                target: target.to_string(),
            },
        );
    }
    Ok(PullPlan::ThreeWay)
}

/// What a merge reports.
#[derive(Debug)]
pub struct PullMergeSummary {
    pub strategy: String,
    /// The previous HEAD commit before merge (None for root commits).
    pub old_commit: Option<String>,
    pub commit: Option<String>,
    pub files_changed: usize,
    pub up_to_date: bool,
    pub parents: Vec<String>,
    pub conflicted_paths: Vec<String>,
    pub aborted: bool,
    pub continued: bool,
}

/// A [`PullMergeSummary`] with its texts as sequences of characters.
pub struct SummaryView {
    pub strategy: Seq<char>,
    pub old_commit: Option<Seq<char>>,
    pub commit: Option<Seq<char>>,
    pub files_changed: usize,
    pub up_to_date: bool,
    pub parents: Seq<Seq<char>>,
    pub conflicted_paths: Seq<Seq<char>>,
    pub aborted: bool,
    pub continued: bool,
}

impl View for PullMergeSummary {
    type V = SummaryView;

    open spec fn view(&self) -> SummaryView {
        SummaryView {
            strategy: self.strategy@,
            old_commit: opt_text(self.old_commit),
            commit: opt_text(self.commit),
            files_changed: self.files_changed,
            up_to_date: self.up_to_date,
            parents: texts(self.parents@),
            conflicted_paths: texts(self.conflicted_paths@),
            aborted: self.aborted,
            continued: self.continued,
        }
    }
}

/// Whether a flag is off.
pub fn is_false(value: &bool) -> (r: bool)
    ensures
        r == !*value,
{
    !*value
}

pub open spec fn opt_id_text(id: Option<ObjectId>) -> Option<Seq<char>> {
    match id {
        Some(i) => Some(i.text()),
        None => None,
    }
}

pub open spec fn id_texts(ids: Seq<ObjectId>) -> Seq<Seq<char>> {
    ids.map_values(|id: ObjectId| id.text())
}

/// A report without conflicts.
pub open spec fn plain_summary(
    strategy: Seq<char>,
    old_commit: Option<ObjectId>,
    commit: Option<ObjectId>,
    files_changed: usize,
    parents: Seq<ObjectId>,
) -> SummaryView {
    SummaryView {
        strategy,
        old_commit: opt_id_text(old_commit),
        commit: opt_id_text(commit),
        files_changed,
        up_to_date: false,
        parents: id_texts(parents),
        conflicted_paths: Seq::empty(),
        aborted: false,
        continued: false,
    }
}

fn opt_id_string(id: Option<ObjectId>) -> (r: Option<String>)
    ensures
        opt_text(r) == opt_id_text(id),
{
    match id {
        Some(i) => Some(i.to_string()),
        None => None,
    }
}

fn id_strings(ids: &Vec<ObjectId>) -> (r: Vec<String>)
    ensures
        texts(r@) == id_texts(ids@),
{
    let mut out: Vec<String> = Vec::new();
    let mut i: usize = 0;
    while i < ids.len()
        invariant
            i <= ids@.len(),
            out@.len() == i,
            forall|j: int| 0 <= j < i ==> (#[trigger] out@[j])@ == ids@[j].text(),
        decreases ids@.len() - i,
    {
        out.push(ids[i].to_string());
        i = i + 1;
    }
    assert(texts(out@) =~= id_texts(ids@));
    out
}

fn make_summary(
    strategy: &str,
    old_commit: Option<ObjectId>,
    commit: Option<ObjectId>,
    files_changed: usize,
    parents: &Vec<ObjectId>,
) -> (r: PullMergeSummary)
    ensures
        r@ == plain_summary(strategy@, old_commit, commit, files_changed, parents@),
        r.conflicted_paths@.len() == 0,
{
    let r = PullMergeSummary {
        strategy: strategy.to_owned(),
        old_commit: opt_id_string(old_commit),
        commit: opt_id_string(commit),
        files_changed,
        up_to_date: false,
        parents: id_strings(parents),
        conflicted_paths: Vec::new(),
        aborted: false,
        continued: false,
    };
    assert(texts(r.conflicted_paths@) =~= Seq::<Seq<char>>::empty());
    r
}

/// What a merge that makes no new commit reports.
pub open spec fn pull_summary_view(
    plan: PullPlan,
    current: Option<ObjectId>,
    target: ObjectId,
    files_changed: usize,
) -> SummaryView {
    match plan {
        PullPlan::FastForwardUnborn => plain_summary(
            "fast-forward"@,
            None,
            Some(target),
            files_changed,
            Seq::empty(),
        ),
        PullPlan::AlreadyUpToDate => SummaryView {
            up_to_date: true,
            ..plain_summary("already-up-to-date"@, current, None, 0, Seq::empty())
        },
        PullPlan::SquashFastForward => plain_summary(
            "squash"@,
            current,
            None,
            files_changed,
            Seq::empty(),
        ),
        _ => plain_summary("fast-forward"@, current, Some(target), files_changed, Seq::empty()),
    }
}

/// The report of a merge that needs no three-way merge.
pub fn pull_summary(
    plan: PullPlan,
    current: Option<ObjectId>,
    target: ObjectId,
    files_changed: usize,
) -> (r: PullMergeSummary)
    requires
        plan != PullPlan::ThreeWay,
    ensures
        r@ == pull_summary_view(plan, current, target, files_changed),
{
    let none: Vec<ObjectId> = Vec::new();
    match plan {
        PullPlan::FastForwardUnborn => make_summary(
            "fast-forward",
            None,
            Some(target),
            files_changed,
            &none,
        ),
        PullPlan::AlreadyUpToDate => {
            let mut r = make_summary("already-up-to-date", current, None, 0, &none);
            r.up_to_date = true;
            r
        },
        PullPlan::SquashFastForward => make_summary("squash", current, None, files_changed, &none),
        _ => make_summary("fast-forward", current, Some(target), files_changed, &none),
    }
}

/// What becomes of a three-way merge.
#[derive(Debug)]
pub enum ThreeWayOutcome {
    /// Conflicts in the paths listed; nothing is committed.
    Conflicts { paths: String },
    /// The merged tree is staged, no commit is made.
    Squash,
    /// The merged tree is staged, the commit waits.
    NoCommit,
    Commit,
}

/// A three-way merge, ready to be written.
#[derive(Debug)]
pub struct ThreeWayPlan {
    pub result: ThreeWayMergeResult,
    pub files_changed: usize,
    pub outcome: ThreeWayOutcome,
}

/// Every path that a merge result has something at: merged files, then conflicts.
pub open spec fn result_paths(r: ThreeWayMergeResult) -> Seq<Seq<char>> {
    paths_of(r.merged_items.items@) + conflict_paths(r.conflicts@)
}

fn collect_result_paths(r: &ThreeWayMergeResult) -> (paths: Vec<String>)
    ensures
        texts(paths@) == result_paths(*r),
{
    let mut out: Vec<String> = Vec::new();
    let mut i: usize = 0;
    let ghost merged = paths_of(r.merged_items.items@);
    let ghost conflicted = conflict_paths(r.conflicts@);
    assert(texts(out@) =~= merged.take(0));
    while i < r.merged_items.items.len()
        invariant
            i <= r.merged_items.items@.len(),
            merged == paths_of(r.merged_items.items@),
            texts(out@) == merged.take(i as int),
        decreases r.merged_items.items@.len() - i,
    {
        let ghost before = out@;
        out.push(r.merged_items.items[i].path.clone());
        assert(texts(out@) =~= texts(before).push(merged[i as int]));
        assert(merged.take(i as int + 1) =~= merged.take(i as int).push(merged[i as int]));
        i = i + 1;
    }
    let mut k: usize = 0;
    assert(texts(out@) =~= merged + conflicted.take(0));
    while k < r.conflicts.len()
        invariant
            k <= r.conflicts@.len(),
            conflicted == conflict_paths(r.conflicts@),
            texts(out@) == merged + conflicted.take(k as int),
        decreases r.conflicts@.len() - k,
    {
        let ghost before = out@;
        out.push(r.conflicts[k].path.clone());
        assert(texts(out@) =~= texts(before).push(conflicted[k as int]));
        assert(merged + conflicted.take(k as int + 1) =~= (merged + conflicted.take(k as int)).push(
            conflicted[k as int],
        ));
        k = k + 1;
    }
    assert(conflicted.take(conflicted.len() as int) =~= conflicted);
    out
}

fn collect_conflict_paths(conflicts: &Vec<PathConflict>) -> (r: Vec<String>)
    ensures
        texts(r@) == conflict_paths(conflicts@),
{
    let mut out: Vec<String> = Vec::new();
    let mut k: usize = 0;
    while k < conflicts.len()
        invariant
            k <= conflicts@.len(),
            out@.len() == k,
            forall|j: int| 0 <= j < k ==> (#[trigger] out@[j])@ == conflicts@[j].path@,
        decreases conflicts@.len() - k,
    {
        out.push(conflicts[k].path.clone());
        k = k + 1;
    }
    assert(texts(out@) =~= conflict_paths(conflicts@));
    out
}

/// The paths in conflict, one after the other.
pub open spec fn conflict_list(conflicts: Seq<PathConflict>) -> Seq<char> {
    join_seq(conflict_paths(conflicts), ", "@)
}

/// The outcome that the options and the conflicts call for.
pub open spec fn outcome_is(
    outcome: ThreeWayOutcome,
    conflicts: Seq<PathConflict>,
    squash: bool,
    no_commit: bool,
) -> bool {
    match outcome {
        ThreeWayOutcome::Conflicts { paths } => conflicts.len() > 0 && paths@ == conflict_list(
            conflicts,
        ),
        ThreeWayOutcome::Squash => conflicts.len() == 0 && squash,
        ThreeWayOutcome::NoCommit => conflicts.len() == 0 && !squash && no_commit,
        ThreeWayOutcome::Commit => conflicts.len() == 0 && !squash && !no_commit,
    }
}

/// The merge keeps our tree as it is.
pub open spec fn keeps_ours(r: ThreeWayMergeResult, ours: TreeItems) -> bool {
    &&& r.merged_items.wf()
    &&& r.merged_items@ == ours@
    &&& r.conflicts@.len() == 0
    &&& r.new_blobs@.len() == 0
}

/// The result is the one that the strategy asks for.
pub open spec fn is_strategy_result(
    r: ThreeWayMergeResult,
    base: TreeItems,
    ours: TreeItems,
    theirs: TreeItems,
    options: PullMergeOptions,
    store: BlobStore,
    kind: HashKind,
) -> bool {
    if options.strategy == Some(MergeStrategy::Ours) {
        keeps_ours(r, ours)
    } else {
        match applied_renames(base, ours, theirs, options, store, kind) {
            Err(_) => false,
            Ok(renames) => {
                let m = apply_all(
                    MergeMaps { base: base@, ours: ours@, theirs: theirs@ },
                    renames,
                );
                is_merge_of(r, m.base, m.ours, m.theirs, options, store, kind)
            },
        }
    }
}

/// `e` is a blob that could not be read while the trees were merged.
pub open spec fn is_strategy_fault(
    e: PullMergeError,
    base: TreeItems,
    ours: TreeItems,
    theirs: TreeItems,
    options: PullMergeOptions,
    store: BlobStore,
    kind: HashKind,
) -> bool {
    options.strategy != Some(MergeStrategy::Ours) && match applied_renames(
        base,
        ours,
        theirs,
        options,
        store,
        kind,
    ) {
        Err(fault) => is_load_error(e, fault),
        Ok(renames) => {
            let m = apply_all(MergeMaps { base: base@, ours: ours@, theirs: theirs@ }, renames);
            is_merge_fault(e, m.base, m.ours, m.theirs, options, store, kind)
        },
    }
}

/// Merges two trees and decides what becomes of the result.
pub fn plan_three_way_merge(
    base_items: &TreeItems,
    our_items: &TreeItems,
    their_items: &TreeItems,
    options: &PullMergeOptions,
    store: &BlobStore,
    kind: HashKind,
) -> (r: Result<ThreeWayPlan, PullMergeError>)
    requires
        base_items.wf(),
        our_items.wf(),
        their_items.wf(),
    ensures
        match r {
            Ok(plan) => {
                &&& is_strategy_result(
                    plan.result,
                    *base_items,
                    *our_items,
                    *their_items,
                    *options,
                    *store,
                    kind,
                )
                &&& plan.files_changed == changed_paths(
                    our_items@,
                    plan.result.merged_items@,
                ).len()
                &&& forall|i: int, j: int| !(#[trigger] clash(result_paths(plan.result), i, j))
                &&& outcome_is(
                    plan.outcome,
                    plan.result.conflicts@,
                    options.squash,
                    options.no_commit,
                )
            },
            Err(PullMergeError::DirectoryFileConflict { path }) => exists|
                result: ThreeWayMergeResult,
                i: int,
                j: int,
            |
                is_strategy_result(
                    result,
                    *base_items,
                    *our_items,
                    *their_items,
                    *options,
                    *store,
                    kind,
                ) && #[trigger] clash(result_paths(result), i, j) && result_paths(result)[i] == path@
                    && first_clash(result_paths(result), path@),
            Err(e) => is_strategy_fault(
                e,
                *base_items,
                *our_items,
                *their_items,
                *options,
                *store,
                kind,
            ),
        },
{
    let result = if options.strategy == Some(MergeStrategy::Ours) {
        let none: Vec<PathConflict> = Vec::new();
        let no_blobs: Vec<NewBlob> = Vec::new();
        ThreeWayMergeResult { merged_items: our_items.copy(), conflicts: none, new_blobs: no_blobs }
    } else {
        match merge_tree_items_with_options(
            base_items,
            our_items,
            their_items,
            options,
            store,
            kind,
        ) {
            Ok(result) => result,
            Err(e) => {
                return Err(e);
            },
        }
    };
    assert(is_strategy_result(
        result,
        *base_items,
        *our_items,
        *their_items,
        *options,
        *store,
        kind,
    ));
    let files_changed: usize = count_item_map_changes(our_items, &result.merged_items);
    let paths = collect_result_paths(&result);
    if let Err(e) = ensure_no_directory_file_conflicts(&paths) {
        proof {
            let path = e->DirectoryFileConflict_path;
            let (i, j) = choose|i: int, j: int|
                (#[trigger] clash(texts(paths@), i, j)) && paths@[i]@ == path@;
            assert(clash(result_paths(result), i, j));
            assert(result_paths(result)[i] == path@);
            assert(first_clash(result_paths(result), path@));
        }
        return Err(e);
    }
    let outcome = if !result.conflicts.is_empty() {
        let listed = collect_conflict_paths(&result.conflicts);
        ThreeWayOutcome::Conflicts { paths: join(&listed, ", ") }
    } else if options.squash {
        ThreeWayOutcome::Squash
    } else if options.no_commit {
        ThreeWayOutcome::NoCommit
    } else {
        ThreeWayOutcome::Commit
    };
    Ok(ThreeWayPlan { result, files_changed, outcome })
}

/// What a merge with conflicts ends in.
pub fn conflict_error(squash: bool, paths: String) -> (r: PullMergeError)
    ensures
        squash ==> r is SquashConflicts,
        !squash ==> r == (PullMergeError::Conflicts { paths }),
{
    if squash {
        PullMergeError::SquashConflicts
    } else {
        PullMergeError::Conflicts { paths }
    }
}

/// What a three-way merge without conflicts reports.
pub open spec fn three_way_summary_view(
    squash: bool,
    no_commit: bool,
    current: ObjectId,
    target: ObjectId,
    commit: ObjectId,
    files_changed: usize,
) -> SummaryView {
    if squash {
        plain_summary("squash"@, Some(current), None, files_changed, Seq::empty())
    } else if no_commit {
        plain_summary(
            "no-commit"@,
            Some(current),
            None,
            files_changed,
            seq![current, target],
        )
    } else {
        plain_summary(
            "three-way"@,
            Some(current),
            Some(commit),
            files_changed,
            seq![current, target],
        )
    }
}

/// The report of a three-way merge without conflicts; `commit` is the merge commit, where one
/// was made.
pub fn three_way_summary(
    options: &PullMergeOptions,
    current: ObjectId,
    target: ObjectId,
    commit: ObjectId,
    files_changed: usize,
) -> (r: PullMergeSummary)
    ensures
        r@ == three_way_summary_view(
            options.squash,
            options.no_commit,
            current,
            target,
            commit,
            files_changed,
        ),
{
    let none: Vec<ObjectId> = Vec::new();
    let mut parents: Vec<ObjectId> = Vec::new();
    parents.push(current);
    parents.push(target);
    assert(parents@ =~= seq![current, target]);
    if options.squash {
        make_summary("squash", Some(current), None, files_changed, &none)
    } else if options.no_commit {
        make_summary("no-commit", Some(current), None, files_changed, &parents)
    } else {
        make_summary("three-way", Some(current), Some(commit), files_changed, &parents)
    }
}

/// The report of a merge that was finished after its conflicts were resolved.
pub fn continue_summary(
    orig_head: ObjectId,
    target: ObjectId,
    commit: ObjectId,
    files_changed: usize,
) -> (r: PullMergeSummary)
    ensures
        r@ == (SummaryView {
            continued: true,
            ..plain_summary(
                "three-way"@,
                Some(orig_head),
                Some(commit),
                files_changed,
                seq![orig_head, target],
            )
        }),
{
    let mut parents: Vec<ObjectId> = Vec::new();
    parents.push(orig_head);
    parents.push(target);
    assert(parents@ =~= seq![orig_head, target]);
    let mut r = make_summary("three-way", Some(orig_head), Some(commit), files_changed, &parents);
    r.continued = true;
    r
}

/// Read an object name that a merge left in its state.
pub fn object_hash_from_state(field: &str, value: &str) -> (r: Result<ObjectId, PullMergeError>)
    ensures
        match (r, parsed_id(value@)) {
            (Ok(id), Ok(want)) => id == want,
            (Err(PullMergeError::StateLoad(text)), Err(e)) => text@ == "invalid "@ + field@ + " '"@
                + value@ + "': "@ + e,
            _ => false,
        },
{
    match object_id_from_str(value) {
        Ok(id) => Ok(id),
        Err(e) => Err(
            PullMergeError::StateLoad(
                concat6("invalid ", field, " '", value, "': ", e.as_str()),
            ),
        ),
    }
}

/// The key of a path in the index: the path itself, where it is text. `shown` is the path as it is
/// displayed.
pub fn path_to_index_key<'a>(path: Option<&'a str>, shown: &str) -> (r: Result<&'a str, PullMergeError>)
    ensures
        match (r, path) {
            (Ok(key), Some(p)) => key@ == p@,
            (Err(PullMergeError::IndexSave(text)), None) => text@ == "path is not valid UTF-8: "@
                + shown@,
            _ => false,
        },
{
    match path {
        Some(p) => Ok(p),
        None => Err(
            PullMergeError::IndexSave(concat2("path is not valid UTF-8: ", shown)),
        ),
    }
}

/// The report of a merge that was given up and undone.
pub fn run_merge_abort(orig_head: ObjectId) -> (r: PullMergeSummary)
    ensures
        r@ == (SummaryView {
            aborted: true,
            ..plain_summary("abort"@, Some(orig_head), Some(orig_head), 0, Seq::empty())
        }),
{
    let none: Vec<ObjectId> = Vec::new();
    let mut r = make_summary("abort", Some(orig_head), Some(orig_head), 0, &none);
    r.aborted = true;
    r
}

/// The report of a merge that was forgotten.
pub fn run_merge_quit() -> (r: PullMergeSummary)
    ensures
        r@ == plain_summary("quit"@, None, None, 0, Seq::empty()),
{
    let none: Vec<ObjectId> = Vec::new();
    make_summary("quit", None, None, 0, &none)
}

/// The report of a merge of several heads.
pub fn octopus_summary(
    current: ObjectId,
    commit: ObjectId,
    files_changed: usize,
    parents: &Vec<ObjectId>,
) -> (r: PullMergeSummary)
    ensures
        r@ == plain_summary(
            "octopus"@,
            Some(current),
            Some(commit),
            files_changed,
            parents@,
        ),
{
    make_summary("octopus", Some(current), Some(commit), files_changed, parents)
}

/// Refuses options that a merge of several heads does not know.
pub fn check_octopus_options(options: &PullMergeOptions) -> (r: Result<(), PullMergeError>)
    ensures
        ({
            let advanced = options.squash || options.no_commit || options.strategy is Some
                || options.strategy_option is Some;
            match r {
                Ok(_) => !advanced,
                Err(e) => advanced && (e matches PullMergeError::OctopusConflict { detail } && detail@
                    == "advanced merge options are only supported for single-head merges"@),
            }
        }),
{
    if options.squash || options.no_commit || options.strategy.is_some()
        || options.strategy_option.is_some() {
        return Err(
            PullMergeError::OctopusConflict {
                detail: "advanced merge options are only supported for single-head merges".to_owned(),
            },
        );
    }
    Ok(())
}

/// The commit that an octopus merge starts from.
pub fn octopus_start(head: Option<ObjectId>) -> (r: Result<ObjectId, PullMergeError>)
    ensures
        match r {
            Ok(id) => head == Some(id),
            Err(e) => head is None && (e matches PullMergeError::OctopusConflict { detail }
                && detail@ == "current branch has no commits"@),
        },
{
    match head {
        Some(id) => Ok(id),
        None => Err(
            PullMergeError::OctopusConflict { detail: "current branch has no commits".to_owned() },
        ),
    }
}

/// Refuses a head that HEAD is not an ancestor of.
pub fn check_octopus_head(branch: &str, current: ObjectId, base: Option<ObjectId>) -> (r: Result<
    (),
    PullMergeError,
>)
    ensures
        match r {
            Ok(_) => base == Some(current),
            Err(e) => base != Some(current) && (e matches PullMergeError::OctopusConflict { detail }
                && detail@ == "target '"@ + branch@ + "' is not a clean descendant of HEAD"@),
        },
{
    let descends = match base {
        Some(b) => b == current,
        None => false,
    };
    if descends {
        Ok(())
    } else {
        Err(
            PullMergeError::OctopusConflict {
                detail: concat3("target '", branch, "' is not a clean descendant of HEAD"),
            },
        )
    }
}

/// The message of a merge of several heads.
pub fn octopus_message(options: &PullMergeOptions, head_name: &str, targets: &Vec<String>) -> (r:
    String)
    ensures
        r@ == (match options.message {
            Some(message) => message@,
            None => "Merge branches "@ + join_seq(texts(targets@), ", "@) + " into "@ + (match options.into_name {
                Some(name) => name@,
                None => head_name@,
            }),
        }),
{
    match &options.message {
        Some(message) => message.clone(),
        None => {
            let into = match &options.into_name {
                Some(name) => name.as_str(),
                None => head_name,
            };
            let listed = join(targets, ", ");
            concat4("Merge branches ", listed.as_str(), " into ", into)
        },
    }
}

/// The merge started at `ours` and brings in `theirs`.
pub open spec fn waits_between(state: MergeState, ours: ObjectId, theirs: ObjectId) -> bool {
    state.orig_head@ == ours.text() && state.target@ == theirs.text()
}

/// What a merge that waits is continued with, or gone back to when it is aborted, is what it
/// started with: its state gives back both commits.
pub proof fn law_waiting_merge_gives_back_its_commits(
    state: MergeState,
    ours: ObjectId,
    theirs: ObjectId,
)
    requires
        ours.wf(),
        theirs.wf(),
        waits_between(state, ours, theirs),
    ensures
        parsed_id(state.orig_head@) == Ok::<ObjectId, Seq<char>>(ours),
        parsed_id(state.target@) == Ok::<ObjectId, Seq<char>>(theirs),
{
    law_object_name_is_read_back(ours);
    law_object_name_is_read_back(theirs);
}

/// The state of a merge that waits: with its conflicts, or clean but not committed.
pub fn merge_state_for(
    head_name: &str,
    upstream: &str,
    ours: ObjectId,
    theirs: ObjectId,
    base: Option<ObjectId>,
    kind: HashKind,
    conflicts: &Vec<PathConflict>,
    message: String,
    options: &PullMergeOptions,
) -> (r: MergeState)
    ensures
        r.head_name@ == head_name@,
        waits_between(r, ours, theirs),
        r.target_ref@ == upstream@,
        r.base@ == (match base {
            Some(b) => b.text(),
            None => (ObjectId { kind, hi: 0, lo: 0 }).text(),
        }),
        texts(r.conflicted_paths@) == conflict_paths(conflicts@),
        r.message == Some(message),
        r.signoff == options.signoff,
        r.log == options.log,
        r.conflict_style == options.conflict_style,
        r.autostash is None,
{
    let base_id = match base {
        Some(b) => b,
        None => ObjectId::zero(kind),
    };
    MergeState {
        head_name: head_name.to_owned(),
        orig_head: ours.to_string(),
        target: theirs.to_string(),
        target_ref: upstream.to_owned(),
        base: base_id.to_string(),
        conflicted_paths: collect_conflict_paths(conflicts),
        message: Some(message),
        signoff: options.signoff,
        log: options.log,
        conflict_style: options.conflict_style,
        autostash: None,
    }
}

/// What happens to stashed changes once a merge has settled.
#[derive(Debug)]
pub enum AutostashStep {
    Nothing,
    /// The merge waits: the stash is noted in its state.
    Record(String),
    Reapply,
}

/// What happens to stashed changes: a merge that waits keeps them, a settled one gives them back.
pub fn finalize_autostash(stash_id: Option<String>, merge_waits: bool) -> (r: AutostashStep)
    ensures
        match stash_id {
            None => r is Nothing,
            Some(id) => if merge_waits {
                r == AutostashStep::Record(id)
            } else {
                r is Reapply
            },
        },
{
    match stash_id {
        None => AutostashStep::Nothing,
        Some(id) => if merge_waits {
            AutostashStep::Record(id)
        } else {
            AutostashStep::Reapply
        },
    }
}

/// Which common ancestor a merge uses.
#[derive(Debug, Clone, Copy, PartialEq, Eq, Structural)]
pub enum MergeBasePlan {
    NoBase,
    Single(ObjectId),
    /// Several: they are merged into one first.
    Virtual,
}

/// Which common ancestor a merge uses, given the best ones.
pub fn recursive_merge_base(base_ids: &Vec<ObjectId>) -> (r: MergeBasePlan)
    ensures
        r == (if base_ids@.len() == 0 {
            MergeBasePlan::NoBase
        } else if base_ids@.len() == 1 {
            MergeBasePlan::Single(base_ids@[0])
        } else {
            MergeBasePlan::Virtual
        }),
{
    if base_ids.len() == 0 {
        MergeBasePlan::NoBase
    } else if base_ids.len() == 1 {
        MergeBasePlan::Single(base_ids[0])
    } else {
        MergeBasePlan::Virtual
    }
}

/// The common ancestor that is merged into the virtual one next, after `done` of them were merged
/// into the first.
pub fn next_virtual_base(done: usize, bases: &Vec<ObjectId>) -> (r: Option<ObjectId>)
    ensures
        r == (if done + 1 < bases@.len() {
            Some(bases@[done + 1])
        } else {
            None
        }),
{
    if done < bases.len() && bases.len() - done > 1 {
        Some(bases[done + 1])
    } else {
        None
    }
}

/// A common ancestor that several are merged into. It is not stored.
#[derive(Debug, Clone)]
pub struct VirtualCommit {
    pub tree: ObjectId,
    pub parents: Vec<ObjectId>,
    pub message: String,
}

/// The commit of two ancestors that were merged into a tree.
pub fn virtual_commit(tree: ObjectId, lhs: ObjectId, rhs: ObjectId) -> (r: VirtualCommit)
    ensures
        r.tree == tree,
        r.parents@ == seq![lhs, rhs],
        r.message@ == "virtual recursive merge base"@,
{
    let mut parents: Vec<ObjectId> = Vec::new();
    parents.push(lhs);
    parents.push(rhs);
    VirtualCommit { tree, parents, message: "virtual recursive merge base".to_owned() }
}

/// Some merge of the two ancestors has the conflicts that `text` lists.
pub open spec fn is_pair_conflict(
    text: Seq<char>,
    base: TreeItems,
    lhs: TreeItems,
    rhs: TreeItems,
    options: PullMergeOptions,
    store: BlobStore,
    kind: HashKind,
) -> bool {
    exists|result: ThreeWayMergeResult|
        #[trigger] is_strategy_result(result, base, lhs, rhs, options, store, kind)
            && result.conflicts@.len() > 0 && text == "recursive merge base conflicts in "@
            + conflict_list(result.conflicts@)
}

/// `r` is what merging two ancestors gives: a tree without conflicts, or why there is none.
pub open spec fn is_pair_outcome(
    r: Result<ThreeWayMergeResult, PullMergeError>,
    base: TreeItems,
    lhs: TreeItems,
    rhs: TreeItems,
    options: PullMergeOptions,
    store: BlobStore,
    kind: HashKind,
) -> bool {
    match r {
        Ok(result) => result.conflicts@.len() == 0 && is_strategy_result(
            result,
            base,
            lhs,
            rhs,
            options,
            store,
            kind,
        ),
        Err(PullMergeError::VirtualMergeBase(d)) => is_pair_conflict(
            d@,
            base,
            lhs,
            rhs,
            options,
            store,
            kind,
        ),
        Err(e) => is_strategy_fault(e, base, lhs, rhs, options, store, kind),
    }
}

/// The tree of a virtual ancestor: two ancestors merged without any option but renames.
pub fn merge_base_pair(
    base_items: &TreeItems,
    lhs_items: &TreeItems,
    rhs_items: &TreeItems,
    store: &BlobStore,
    kind: HashKind,
) -> (r: Result<ThreeWayMergeResult, PullMergeError>)
    requires
        base_items.wf(),
        lhs_items.wf(),
        rhs_items.wf(),
    ensures
        exists|options: PullMergeOptions|
            #[trigger] options.is_plain(true) && is_pair_outcome(
                r,
                *base_items,
                *lhs_items,
                *rhs_items,
                options,
                *store,
                kind,
            ),
{
    let options = PullMergeOptions::plain(true);
    assert(options.is_plain(true));
    match merge_tree_items_with_options(
        base_items,
        lhs_items,
        rhs_items,
        &options,
        store,
        kind,
    ) {
        Ok(result) => {
            assert(is_strategy_result(
                result,
                *base_items,
                *lhs_items,
                *rhs_items,
                options,
                *store,
                kind,
            ));
            if !result.conflicts.is_empty() {
                let listed = collect_conflict_paths(&result.conflicts);
                let shown = join(&listed, ", ");
                return Err(
                    PullMergeError::VirtualMergeBase(
                        concat2("recursive merge base conflicts in ", shown.as_str()),
                    ),
                );
            }
            Ok(result)
        },
        Err(e) => Err(e),
    }
}

/// An editor command that can be run: not empty, and not one that does nothing.
pub open spec fn runnable_editor(value: Option<Seq<char>>) -> Option<Seq<char>> {
    match value {
        None => None,
        Some(v) => {
            let t = trim_seq(v);
            if t.len() == 0 || t == ":"@ || t == "true"@ {
                None
            } else {
                Some(t)
            }
        },
    }
}

pub open spec fn first_editor(values: Seq<Option<Seq<char>>>) -> Option<Seq<char>>
    decreases values.len(),
{
    if values.len() == 0 {
        None
    } else {
        match runnable_editor(values[0]) {
            Some(editor) => Some(editor),
            None => first_editor(values.drop_first()),
        }
    }
}

pub open spec fn opt_texts(values: Seq<Option<String>>) -> Seq<Option<Seq<char>>> {
    values.map_values(|v: Option<String>| opt_text(v))
}

/// The first editor of the list that can be run.
pub fn resolve_editor(values: &Vec<Option<String>>) -> (r: Option<String>)
    ensures
        opt_text(r) == first_editor(opt_texts(values@)),
{
    let ghost all = opt_texts(values@);
    let mut i: usize = 0;
    assert(all.skip(0) =~= all);
    while i < values.len()
        invariant
            i <= values@.len(),
            all == opt_texts(values@),
            first_editor(all) == first_editor(all.skip(i as int)),
        decreases values@.len() - i,
    {
        proof {
            assert(all.skip(i as int)[0] == opt_text(values@[i as int]));
            assert(all.skip(i as int).drop_first() =~= all.skip(i as int + 1));
        }
        if let Some(value) = &values[i] {
            let t = trim(value.as_str());
            if !t.as_str().is_empty() && !text_eq(t.as_str(), ":") && !text_eq(t.as_str(), "true") {
                return Some(t);
            }
        }
        i = i + 1;
    }
    None
}

/// The remote that a remote-tracking reference belongs to.
pub open spec fn remote_of(target: Seq<char>) -> Option<Seq<char>> {
    let prefix = "refs/remotes/"@;
    if has_prefix(target, prefix) && split_seq(
        target.skip(prefix.len() as int),
        '/',
    ).len() > 1 {
        Some(split_seq(target.skip(prefix.len() as int), '/')[0])
    } else {
        None
    }
}

/// The remote in `refs/remotes/<remote>/<branch>`.
pub fn resolve_merge_target(target_ref: &str) -> (r: Option<String>)
    ensures
        opt_text(r) == remote_of(target_ref@),
{
    match strip_prefix(target_ref, "refs/remotes/") {
        Some(rest) => {
            let parts = split(rest.as_str(), '/');
            if parts.len() > 1 {
                assert(texts(parts@)[0] == parts@[0]@);
                Some(parts[0].clone())
            } else {
                None
            }
        },
        None => None,
    }
}

/// The commit that a signed merge makes must carry the signature.
pub fn create_merge_commit(sign: bool, signature: Option<String>) -> (r: Result<
    Option<String>,
    PullMergeError,
>)
    ensures
        if !sign {
            r matches Ok(None)
        } else {
            match signature {
                Some(_) => r == Ok::<Option<String>, PullMergeError>(signature),
                None => r matches Err(PullMergeError::Sign(d)) && d@
                    == "vault signing key unavailable; configure libra vault to use --gpg-sign"@,
            }
        },
{
    if !sign {
        return Ok(None);
    }
    match signature {
        Some(sig) => Ok(Some(sig)),
        None => Err(
            PullMergeError::Sign(
                "vault signing key unavailable; configure libra vault to use --gpg-sign".to_owned(),
            ),
        ),
    }
}

/// The message that a finished merge is committed with: the one now given, else the one that
/// was kept, else `None` for a new one.
pub fn continue_message(options: &PullMergeOptions, state: &MergeState) -> (r: Option<String>)
    ensures
        opt_text(r) == (match options.message {
            Some(m) => Some(m@),
            None => opt_text(state.message),
        }),
{
    match &options.message {
        Some(message) => Some(message.clone()),
        None => clone_opt_text(&state.message),
    }
}

/// The closing line of a merge.
pub open spec fn closing_line(s: SummaryView) -> Seq<char> {
    if s.up_to_date {
        "Already up to date."@
    } else if s.aborted {
        "Merge aborted."@
    } else if s.continued {
        "Merge completed."@
    } else if s.conflicted_paths.len() > 0 {
        "Automatic merge failed; fix conflicts and then commit the result."@
    } else if s.strategy == "three-way"@ {
        "Merge made by the 'three-way' strategy."@
    } else if s.strategy == "octopus"@ {
        "Merge made by the 'octopus' strategy."@
    } else if s.strategy == "squash"@ {
        "Squash commit -- not updating HEAD."@
    } else if s.strategy == "no-commit"@ {
        "Automatic merge went well; stopped before committing as requested."@
    } else {
        "Fast-forward"@
    }
}

/// Whether a diffstat is shown: asked for, and something was merged.
pub open spec fn shows_stat(s: SummaryView, want_stat: bool) -> bool {
    want_stat && !s.up_to_date && !s.aborted && s.conflicted_paths.len() == 0
}

/// The lines that report a merge: the diffstat, where it is wanted, and the closing line.
pub fn render_merge_output(result: &PullMergeSummary, want_stat: bool, stat: Option<String>) -> (r: Vec<
    String,
>)
    ensures
        texts(r@) == (match opt_text(stat) {
            Some(text) => if shows_stat(result@, want_stat) {
                seq![text, closing_line(result@)]
            } else {
                seq![closing_line(result@)]
            },
            None => seq![closing_line(result@)],
        }),
{
    let mut out: Vec<String> = Vec::new();
    let show = want_stat && !result.up_to_date && !result.aborted && result.conflicted_paths.is_empty();
    if show {
        if let Some(text) = stat {
            out.push(text);
        }
    }
    let strategy = result.strategy.as_str();
    let line = if result.up_to_date {
        "Already up to date."
    } else if result.aborted {
        "Merge aborted."
    } else if result.continued {
        "Merge completed."
    } else if !result.conflicted_paths.is_empty() {
        "Automatic merge failed; fix conflicts and then commit the result."
    } else if text_eq(strategy, "three-way") {
        "Merge made by the 'three-way' strategy."
    } else if text_eq(strategy, "octopus") {
        "Merge made by the 'octopus' strategy."
    } else if text_eq(strategy, "squash") {
        "Squash commit -- not updating HEAD."
    } else if text_eq(strategy, "no-commit") {
        "Automatic merge went well; stopped before committing as requested."
    } else {
        "Fast-forward"
    };
    let ghost before = out@;
    out.push(line.to_owned());
    proof {
        assert(texts(out@) =~= texts(before).push(closing_line(result@)));
        assert(texts(before).len() == before.len());
        if before.len() == 0 {
            assert(texts(out@) =~= seq![closing_line(result@)]);
        } else {
            assert(texts(out@) =~= seq![before[0]@, closing_line(result@)]);
        }
    }
    out
}

/// What a merge comes to is told by where the histories meet. Where they meet at the target, there is
/// nothing to do; where they meet at the current commit, it can be moved, unless a merge was asked for;
/// else both sides are merged, unless only moving was asked for. Histories that do not meet are merged
/// only on demand, and where there is no commit yet the target is taken as it is.
pub proof fn law_merge_is_told_by_the_base(
    ff_only: bool,
    no_ff: bool,
    squash: bool,
    unrelated: bool,
    current: ObjectId,
    target: ObjectId,
    base: Option<ObjectId>,
)
    ensures
        pull_plan(ff_only, no_ff, squash, unrelated, None, target, base) == Some(
            PullPlan::FastForwardUnborn,
        ),
        ({
            let plan = pull_plan(ff_only, no_ff, squash, unrelated, Some(current), target, base);
            &&& plan == Some(PullPlan::AlreadyUpToDate) <==> base == Some(target)
            &&& plan == Some(PullPlan::FastForward) <==> base == Some(current) && current != target
                && !no_ff && !squash
            &&& plan == Some(PullPlan::SquashFastForward) <==> base == Some(current) && current != target
                && !no_ff && squash
            &&& plan == Some(PullPlan::ThreeWay) <==> base != Some(target) && !ff_only && (base
                == Some(current) ==> no_ff) && (base is None ==> unrelated)
            &&& plan is None <==> (base is None && !unrelated) || (ff_only && base != Some(target) && (base
                == Some(current) ==> no_ff))
            &&& plan != Some(PullPlan::FastForwardUnborn)
        }),
{
}

/// What is told of a merge that needed none: the commit that was left, and the one that was moved to
/// where it was moved; nothing has changed where all was up to date, and nothing is committed by a
/// squash.
pub proof fn law_moved_merge_is_summed_up(
    current: Option<ObjectId>,
    target: ObjectId,
    files: usize,
)
    ensures
        ({
            let unborn = pull_summary_view(PullPlan::FastForwardUnborn, current, target, files);
            let same = pull_summary_view(PullPlan::AlreadyUpToDate, current, target, files);
            let squashed = pull_summary_view(PullPlan::SquashFastForward, current, target, files);
            let moved = pull_summary_view(PullPlan::FastForward, current, target, files);
            &&& unborn.strategy == "fast-forward"@ && unborn.old_commit is None && unborn.commit == Some(
                target.text(),
            ) && unborn.files_changed == files && !unborn.up_to_date
            &&& same.strategy == "already-up-to-date"@ && same.up_to_date && same.commit is None
                && same.files_changed == 0
            &&& squashed.strategy == "squash"@ && squashed.commit is None && squashed.files_changed == files
                && !squashed.up_to_date
            &&& moved.strategy == "fast-forward"@ && moved.commit == Some(target.text())
                && moved.files_changed == files && !moved.up_to_date
            &&& current matches Some(c) ==> same.old_commit == Some(c.text()) && squashed.old_commit == Some(
                c.text(),
            ) && moved.old_commit == Some(c.text())
            &&& unborn.parents.len() == 0 && same.parents.len() == 0 && squashed.parents.len() == 0
                && moved.parents.len() == 0
            &&& !moved.aborted && !moved.continued && moved.conflicted_paths.len() == 0
        }),
{
}

/// What is told of a merge of two sides: a squash commits nothing and has no parents, a merge that is
/// not committed names its two sides, and a committed one its commit too.
pub proof fn law_two_sided_merge_is_summed_up(
    squash: bool,
    no_commit: bool,
    current: ObjectId,
    target: ObjectId,
    commit: ObjectId,
    files: usize,
)
    ensures
        ({
            let s = three_way_summary_view(squash, no_commit, current, target, commit, files);
            &&& s.old_commit == Some(current.text()) && s.files_changed == files && !s.up_to_date && !s.aborted
                && !s.continued && s.conflicted_paths.len() == 0
            &&& squash ==> s.strategy == "squash"@ && s.commit is None && s.parents.len() == 0
            &&& !squash ==> s.parents.len() == 2 && s.parents[0] == current.text() && s.parents[1]
                == target.text()
            &&& !squash && no_commit ==> s.strategy == "no-commit"@ && s.commit is None
            &&& !squash && !no_commit ==> s.strategy == "three-way"@ && s.commit == Some(commit.text())
        }),
{
}

/// A summary tells the commits it was made with, each parent in its order, and nothing else happened.
pub proof fn law_plain_summary_tells_what_it_was_given(
    strategy: Seq<char>,
    old: Option<ObjectId>,
    new: Option<ObjectId>,
    files: usize,
    parents: Seq<ObjectId>,
    i: int,
)
    ensures
        ({
            let s = plain_summary(strategy, old, new, files, parents);
            &&& s.strategy == strategy && s.files_changed == files
            &&& s.old_commit is Some <==> old is Some
            &&& old matches Some(id) ==> s.old_commit == Some(id.text())
            &&& s.commit is Some <==> new is Some
            &&& new matches Some(id) ==> s.commit == Some(id.text())
            &&& s.parents.len() == parents.len()
            &&& 0 <= i < parents.len() ==> s.parents[i] == parents[i].text()
            &&& !s.up_to_date && !s.aborted && !s.continued && s.conflicted_paths.len() == 0
        }),
{
}

/// A merge ends in a commit only where it has no conflict and nothing asked it to stop; a conflict is
/// told whatever was asked for, with the paths that it is in.
pub proof fn law_conflicts_are_never_committed(
    outcome: ThreeWayOutcome,
    conflicts: Seq<PathConflict>,
    squash: bool,
    no_commit: bool,
)
    requires
        outcome_is(outcome, conflicts, squash, no_commit),
    ensures
        outcome is Conflicts <==> conflicts.len() > 0,
        outcome matches ThreeWayOutcome::Conflicts { paths } ==> paths@ == join_seq(
            conflict_paths(conflicts),
            ", "@,
        ),
        outcome is Squash <==> conflicts.len() == 0 && squash,
        outcome is NoCommit <==> conflicts.len() == 0 && !squash && no_commit,
        outcome is Commit <==> conflicts.len() == 0 && !squash && !no_commit,
{
}

/// The strategy that keeps our side leaves it as it is, whatever theirs is, without a conflict. Any
/// other merges the two sides, after the renames that were found, and where there is none as they are.
pub proof fn law_strategy_is_followed(
    r: ThreeWayMergeResult,
    base: TreeItems,
    ours: TreeItems,
    theirs: TreeItems,
    options: PullMergeOptions,
    store: BlobStore,
    kind: HashKind,
)
    requires
        is_strategy_result(r, base, ours, theirs, options, store, kind),
    ensures
        options.strategy == Some(MergeStrategy::Ours) ==> r.merged_items@ == ours@ && r.conflicts@.len() == 0
            && r.new_blobs@.len() == 0,
        options.strategy != Some(MergeStrategy::Ours) ==> (applied_renames(
            base,
            ours,
            theirs,
            options,
            store,
            kind,
        ) matches Ok(renames) && (renames.len() == 0 ==> is_merge_of(
            r,
            base@,
            ours@,
            theirs@,
            options,
            store,
            kind,
        ))),
{
}

/// The paths of a result are those of its files and of its conflicts.
pub proof fn law_paths_of_a_result(r: ThreeWayMergeResult, i: int)
    ensures
        result_paths(r).len() == r.merged_items.items@.len() + r.conflicts@.len(),
        0 <= i < r.merged_items.items@.len() ==> result_paths(r)[i] == r.merged_items.items@[i].path@,
        0 <= i < r.conflicts@.len() ==> result_paths(r)[r.merged_items.items@.len() + i]
            == r.conflicts@[i].path@,
{
}

/// A base that is merged from two is taken only without a conflict, and a conflict is told with its
/// paths.
pub proof fn law_merged_base_has_no_conflict(
    r: Result<ThreeWayMergeResult, PullMergeError>,
    base: TreeItems,
    lhs: TreeItems,
    rhs: TreeItems,
    options: PullMergeOptions,
    store: BlobStore,
    kind: HashKind,
)
    requires
        is_pair_outcome(r, base, lhs, rhs, options, store, kind),
    ensures
        r matches Ok(result) ==> result.conflicts@.len() == 0 && is_strategy_result(
            result,
            base,
            lhs,
            rhs,
            options,
            store,
            kind,
        ),
        r matches Err(PullMergeError::VirtualMergeBase(text)) ==> exists|result: ThreeWayMergeResult| #[trigger]
            is_strategy_result(result, base, lhs, rhs, options, store, kind) && result.conflicts@.len() > 0
                && text@ == "recursive merge base conflicts in "@ + join_seq(
                conflict_paths(result.conflicts@),
                ", "@,
            ),
{
}

/// An editor is the first of those given that runs anything: an empty one, `:` and `true` do not.
pub proof fn law_first_editor_that_runs(value: Seq<char>, rest: Seq<Option<Seq<char>>>)
    ensures
        first_editor(Seq::empty()) is None,
        first_editor(seq![None] + rest) == first_editor(rest),
        ({
            let t = trim_seq(value);
            &&& t.len() > 0 && t != ":"@ && t != "true"@ ==> first_editor(seq![Some(value)] + rest) == Some(t)
            &&& t.len() == 0 || t == ":"@ || t == "true"@ ==> first_editor(seq![Some(value)] + rest)
                == first_editor(rest)
        }),
{
    assert((seq![None] + rest).drop_first() =~= rest);
    assert((seq![Some(value)] + rest).drop_first() =~= rest);
}

/// A remote's branch is known by the remote's name, before the slash; any other target is of no remote.
pub proof fn law_remote_of_a_branch(remote: Seq<char>, branch: Seq<char>, target: Seq<char>)
    ensures
        !remote.contains('/') ==> remote_of("refs/remotes/"@ + remote + seq!['/'] + branch) == Some(remote),
        !"refs/remotes/"@.is_prefix_of(target) ==> remote_of(target) is None,
        !remote.contains('/') ==> remote_of("refs/remotes/"@ + remote) is None,
{
    let prefix = "refs/remotes/"@;
    let rest = remote + seq!['/'] + branch;
    let full = prefix + remote + seq!['/'] + branch;
    assert(full =~= prefix + rest);
    assert(prefix.is_prefix_of(full));
    assert(full.skip(prefix.len() as int) =~= rest);
    let alone = prefix + remote;
    assert(prefix.is_prefix_of(alone));
    assert(alone.skip(prefix.len() as int) =~= remote);
    if !remote.contains('/') {
        lemma_first_part(remote, branch);
        lemma_one_part(remote);
    }
}

proof fn lemma_one_part(s: Seq<char>)
    requires
        !s.contains('/'),
    ensures
        split_seq(s, '/') == seq![s],
    decreases s.len(),
{
    if s.len() == 0 {
        assert(s =~= Seq::<char>::empty());
    } else {
        let head = s.drop_last();
        assert forall|i: int| 0 <= i < head.len() implies head[i] != '/' by {
            assert(s[i] == head[i]);
        }
        lemma_one_part(head);
        assert(s[s.len() - 1] == s.last());
        assert(seq![head].update(0, head.push(s.last())) =~= seq![s]) by {
            assert(head.push(s.last()) =~= s);
        }
    }
}

proof fn lemma_first_part(s: Seq<char>, rest: Seq<char>)
    requires
        !s.contains('/'),
    ensures
        split_seq(s + seq!['/'] + rest, '/').len() > 1,
        split_seq(s + seq!['/'] + rest, '/')[0] == s,
    decreases rest.len(),
{
    let all = s + seq!['/'] + rest;
    if rest.len() == 0 {
        lemma_one_part(s);
        assert(all.drop_last() =~= s);
        assert(all.last() == '/');
    } else {
        lemma_first_part(s, rest.drop_last());
        assert(all.drop_last() =~= s + seq!['/'] + rest.drop_last());
    }
}

/// What a merge closes with says what became of it.
pub proof fn law_closing_line_says_what_became(s: SummaryView)
    ensures
        s.up_to_date ==> closing_line(s) == "Already up to date."@,
        !s.up_to_date && s.aborted ==> closing_line(s) == "Merge aborted."@,
        !s.up_to_date && !s.aborted && s.continued ==> closing_line(s) == "Merge completed."@,
        !s.up_to_date && !s.aborted && !s.continued && s.conflicted_paths.len() > 0 ==> closing_line(s)
            == "Automatic merge failed; fix conflicts and then commit the result."@,
        !s.up_to_date && !s.aborted && !s.continued && s.conflicted_paths.len() == 0 ==> {
            &&& s.strategy == "three-way"@ ==> closing_line(s) == "Merge made by the 'three-way' strategy."@
            &&& s.strategy == "octopus"@ ==> closing_line(s) == "Merge made by the 'octopus' strategy."@
            &&& s.strategy == "squash"@ ==> closing_line(s) == "Squash commit -- not updating HEAD."@
            &&& s.strategy == "no-commit"@ ==> closing_line(s)
                == "Automatic merge went well; stopped before committing as requested."@
            &&& s.strategy == "fast-forward"@ ==> closing_line(s) == "Fast-forward"@
        },
        shows_stat(s, false) == false,
        shows_stat(s, true) <==> !s.up_to_date && !s.aborted && s.conflicted_paths.len() == 0,
{
    reveal_strlit("three-way");
    reveal_strlit("octopus");
    reveal_strlit("squash");
    reveal_strlit("no-commit");
    reveal_strlit("fast-forward");
    assert("three-way"@.len() == 9 && "octopus"@.len() == 7 && "squash"@.len() == 6 && "no-commit"@.len() == 9
        && "fast-forward"@.len() == 12);
    assert("three-way"@[0] != "no-commit"@[0]);
}

} // verus!
