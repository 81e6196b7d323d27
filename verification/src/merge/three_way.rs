//! Three-way merge of trees, with renames.

use vstd::prelude::*;

use crate::merge::content::{
    blob_listed, blobs_named, is_load_error, merged_entry, three_way_bytes, try_merge_blob_contents,
    BlobStore, LoadFault, NewBlob,
};
use crate::merge::items::{
    lemma_paths_are_plain, lookup, union_paths, MergeTreeEntry, TreeItems,
};
use crate::merge::options::{MergeFavor, PullMergeOptions};
use crate::merge::PullMergeError;
use crate::merge::whitespace::canonical_bytes;
use crate::object::{object_id, HashKind, ObjectId, TreeItemMode};
use crate::text::texts;

verus! {

pub type PathMap = Map<Seq<char>, MergeTreeEntry>;

/// How two sides disagree about a path.
#[derive(Debug, Clone, Copy, PartialEq, Eq, Structural)]
pub enum ConflictKind {
    BothChanged { ours: ObjectId, theirs: ObjectId },
    OursModifiedTheirsDeleted { ours: ObjectId },
    TheirsModifiedOursDeleted { theirs: ObjectId },
}

/// What a merge makes of one path.
#[derive(Debug, Clone, Copy, PartialEq, Eq, Structural)]
pub enum MergeResolution {
    Use(MergeTreeEntry),
    Delete,
    Conflict(ConflictKind),
}

/// What one side did to a path since the common ancestor.
#[derive(Debug, Clone, Copy, PartialEq, Eq, Structural)]
pub enum RelativeState {
    Same(MergeTreeEntry),
    Modified(MergeTreeEntry),
    Deleted,
    Added(MergeTreeEntry),
    Missing,
}

pub open spec fn relative_state(
    base: Option<MergeTreeEntry>,
    side: Option<MergeTreeEntry>,
) -> RelativeState {
    match (base, side) {
        (Some(b), Some(s)) => if b == s {
            RelativeState::Same(s)
        } else {
            RelativeState::Modified(s)
        },
        (Some(_), None) => RelativeState::Deleted,
        (None, Some(s)) => RelativeState::Added(s),
        (None, None) => RelativeState::Missing,
    }
}

/// What `side` did to the path since `base`.
pub fn classify_relative_to_base(
    base: Option<MergeTreeEntry>,
    side: Option<MergeTreeEntry>,
) -> (r: RelativeState)
    ensures
        r == relative_state(base, side),
{
    match (base, side) {
        (Some(b), Some(s)) => if b == s {
            RelativeState::Same(s)
        } else {
            RelativeState::Modified(s)
        },
        (Some(_), None) => RelativeState::Deleted,
        (None, Some(s)) => RelativeState::Added(s),
        (None, None) => RelativeState::Missing,
    }
}

/// The path as one side has it.
pub open spec fn take_side(side: Option<MergeTreeEntry>) -> MergeResolution {
    match side {
        Some(entry) => MergeResolution::Use(entry),
        None => MergeResolution::Delete,
    }
}

pub open spec fn state_side(state: RelativeState) -> Option<MergeTreeEntry> {
    match state {
        RelativeState::Same(entry)
        | RelativeState::Modified(entry)
        | RelativeState::Added(entry) => Some(entry),
        RelativeState::Deleted | RelativeState::Missing => None,
    }
}

/// The path as the side in `state` has it.
pub fn state_to_resolution(state: RelativeState) -> (r: MergeResolution)
    ensures
        r == take_side(state_side(state)),
{
    match state {
        RelativeState::Same(entry)
        | RelativeState::Modified(entry)
        | RelativeState::Added(entry) => MergeResolution::Use(entry),
        RelativeState::Deleted | RelativeState::Missing => MergeResolution::Delete,
    }
}

/// A disagreement: the favored side, or a conflict where none is.
pub open spec fn favored(
    favor: Option<MergeFavor>,
    ours: Option<MergeTreeEntry>,
    theirs: Option<MergeTreeEntry>,
    kind: ConflictKind,
) -> MergeResolution {
    match favor {
        Some(MergeFavor::Ours) => take_side(ours),
        Some(MergeFavor::Theirs) => take_side(theirs),
        None => MergeResolution::Conflict(kind),
    }
}

/// The favored side, or the conflict where none is favored.
pub fn conflict_or_favor(
    favor: Option<MergeFavor>,
    ours_state: RelativeState,
    theirs_state: RelativeState,
    kind: ConflictKind,
) -> (r: MergeResolution)
    ensures
        r == favored(favor, state_side(ours_state), state_side(theirs_state), kind),
{
    match favor {
        Some(MergeFavor::Ours) => state_to_resolution(ours_state),
        Some(MergeFavor::Theirs) => state_to_resolution(theirs_state),
        None => MergeResolution::Conflict(kind),
    }
}

/// What a merge makes of a path: what both sides agree on; else what the one side has that
/// changed it; else, where both did, the merged file, the favored side or a conflict.
pub open spec fn resolution(
    base: Option<MergeTreeEntry>,
    ours: Option<MergeTreeEntry>,
    theirs: Option<MergeTreeEntry>,
    options: PullMergeOptions,
    store: BlobStore,
    kind: HashKind,
) -> Result<MergeResolution, LoadFault> {
    if ours == theirs {
        Ok(take_side(theirs))
    } else if ours == base {
        Ok(take_side(theirs))
    } else if theirs == base {
        Ok(take_side(ours))
    } else {
        match (ours, theirs) {
            (Some(o), Some(t)) => {
                let both = ConflictKind::BothChanged { ours: o.hash, theirs: t.hash };
                match base {
                    None => Ok(favored(options.strategy_option, ours, theirs, both)),
                    Some(b) => if o.hash == t.hash {
                        Ok(MergeResolution::Use(t))
                    } else {
                        match merged_entry(b, o, t, options.whitespace, store, kind) {
                            Err(fault) => Err(fault),
                            Ok(Some(entry)) => Ok(MergeResolution::Use(entry)),
                            Ok(None) => Ok(favored(options.strategy_option, ours, theirs, both)),
                        }
                    },
                }
            },
            (Some(o), None) => Ok(
                favored(
                    options.strategy_option,
                    ours,
                    theirs,
                    ConflictKind::OursModifiedTheirsDeleted { ours: o.hash },
                ),
            ),
            (None, Some(t)) => Ok(
                favored(
                    options.strategy_option,
                    ours,
                    theirs,
                    ConflictKind::TheirsModifiedOursDeleted { theirs: t.hash },
                ),
            ),
            (None, None) => Ok(MergeResolution::Delete),
        }
    }
}

/// The entry comes from one of the sides or is a blob that the merge made.
pub open spec fn entry_is_known(
    entry: MergeTreeEntry,
    ours: Option<MergeTreeEntry>,
    theirs: Option<MergeTreeEntry>,
    new_blobs: Seq<NewBlob>,
) -> bool {
    ours == Some(entry) || theirs == Some(entry) || blob_listed(new_blobs, entry.hash)
}

/// What the merge makes of one path.
pub fn resolve_three_way_with_options(
    base: Option<MergeTreeEntry>,
    ours: Option<MergeTreeEntry>,
    theirs: Option<MergeTreeEntry>,
    options: &PullMergeOptions,
    store: &BlobStore,
    kind: HashKind,
    new_blobs: &mut Vec<NewBlob>,
) -> (r: Result<MergeResolution, PullMergeError>)
    requires
        blobs_named(kind, old(new_blobs)@),
    ensures
        match (r, resolution(base, ours, theirs, *options, *store, kind)) {
            (Ok(got), Ok(want)) => got == want,
            (Err(e), Err(fault)) => is_load_error(e, fault),
            _ => false,
        },
        blobs_named(kind, final(new_blobs)@),
        r matches Ok(MergeResolution::Use(entry)) ==> entry_is_known(
            entry,
            ours,
            theirs,
            final(new_blobs)@,
        ),
        forall|id: ObjectId| blob_listed(old(new_blobs)@, id) ==> blob_listed(final(new_blobs)@, id),
{
    let base_present = base.is_some();
    let ours_state = classify_relative_to_base(base, ours);
    let theirs_state = classify_relative_to_base(base, theirs);
    match (base_present, ours_state, theirs_state) {
        (false, RelativeState::Missing, RelativeState::Missing) => Ok(MergeResolution::Delete),
        (false, RelativeState::Added(o), RelativeState::Missing) => Ok(MergeResolution::Use(o)),
        (false, RelativeState::Missing, RelativeState::Added(t)) => Ok(MergeResolution::Use(t)),
        (false, RelativeState::Added(o), RelativeState::Added(t)) => {
            if o == t {
                Ok(MergeResolution::Use(t))
            } else {
                Ok(
                    conflict_or_favor(
                        options.strategy_option,
                        ours_state,
                        theirs_state,
                        ConflictKind::BothChanged { ours: o.hash, theirs: t.hash },
                    ),
                )
            }
        },
        (true, RelativeState::Same(o), RelativeState::Same(_)) => Ok(MergeResolution::Use(o)),
        (true, RelativeState::Same(_), RelativeState::Modified(t)) => Ok(MergeResolution::Use(t)),
        (true, RelativeState::Modified(o), RelativeState::Same(_)) => Ok(MergeResolution::Use(o)),
        (true, RelativeState::Modified(o), RelativeState::Modified(t)) => {
            // Identical content (even when only the file mode differs) needs no
            // textual merge; both sides agree on the blob bytes.
            if o.hash == t.hash {
                return Ok(MergeResolution::Use(t));
            }
            if let Some(b) = base {
                match try_merge_blob_contents(b, o, t, options.whitespace, store, kind, new_blobs) {
                    Err(e) => {
                        return Err(e);
                    },
                    Ok(Some(merged)) => {
                        return Ok(MergeResolution::Use(merged));
                    },
                    Ok(None) => {},
                }
            }
            Ok(
                conflict_or_favor(
                    options.strategy_option,
                    ours_state,
                    theirs_state,
                    ConflictKind::BothChanged { ours: o.hash, theirs: t.hash },
                ),
            )
        },
        (true, RelativeState::Deleted, RelativeState::Modified(t)) => Ok(
            conflict_or_favor(
                options.strategy_option,
                ours_state,
                theirs_state,
                ConflictKind::TheirsModifiedOursDeleted { theirs: t.hash },
            ),
        ),
        (true, RelativeState::Modified(o), RelativeState::Deleted) => Ok(
            conflict_or_favor(
                options.strategy_option,
                ours_state,
                theirs_state,
                ConflictKind::OursModifiedTheirsDeleted { ours: o.hash },
            ),
        ),
        _ => Ok(MergeResolution::Delete),
    }
}

/// A path that the sides disagree about.
#[derive(Debug)]
pub struct PathConflict {
    pub path: String,
    pub kind: ConflictKind,
}

/// The outcome of merging two trees.
#[derive(Debug)]
pub struct ThreeWayMergeResult {
    pub merged_items: TreeItems,
    pub conflicts: Vec<PathConflict>,
    pub new_blobs: Vec<NewBlob>,
}

pub open spec fn conflict_paths(c: Seq<PathConflict>) -> Seq<Seq<char>> {
    c.map_values(|x: PathConflict| x.path@)
}

pub open spec fn conflict_listed(c: Seq<PathConflict>, path: Seq<char>, kind: ConflictKind) -> bool {
    exists|i: int| 0 <= i < c.len() && (#[trigger] c[i]).path@ == path && c[i].kind == kind
}

/// What the merge of three maps makes of one path.
pub open spec fn path_resolution(
    base: PathMap,
    ours: PathMap,
    theirs: PathMap,
    options: PullMergeOptions,
    store: BlobStore,
    kind: HashKind,
    path: Seq<char>,
) -> Result<MergeResolution, LoadFault> {
    resolution(
        lookup(base, path),
        lookup(ours, path),
        lookup(theirs, path),
        options,
        store,
        kind,
    )
}

/// `r` is what a path-by-path merge of three maps gives.
pub open spec fn is_merge_of(
    r: ThreeWayMergeResult,
    base: PathMap,
    ours: PathMap,
    theirs: PathMap,
    options: PullMergeOptions,
    store: BlobStore,
    kind: HashKind,
) -> bool {
    &&& r.merged_items.wf()
    &&& conflict_paths(r.conflicts@).no_duplicates()
    &&& blobs_named(kind, r.new_blobs@)
    &&& forall|path: Seq<char>|
        #![trigger path_resolution(base, ours, theirs, options, store, kind, path)]
        match path_resolution(base, ours, theirs, options, store, kind, path) {
            Err(_) => false,
            Ok(MergeResolution::Use(entry)) => lookup(r.merged_items@, path) == Some(entry)
                && entry_is_known(entry, lookup(ours, path), lookup(theirs, path), r.new_blobs@)
                && !conflict_paths(r.conflicts@).contains(path),
            Ok(MergeResolution::Delete) => lookup(r.merged_items@, path) is None && !conflict_paths(
                r.conflicts@,
            ).contains(path),
            Ok(MergeResolution::Conflict(k)) => lookup(r.merged_items@, path) is None
                && conflict_listed(r.conflicts@, path, k),
        }
}

/// `e` is a fault that some path of the merge meets.
pub open spec fn is_merge_fault(
    e: PullMergeError,
    base: PathMap,
    ours: PathMap,
    theirs: PathMap,
    options: PullMergeOptions,
    store: BlobStore,
    kind: HashKind,
) -> bool {
    exists|path: Seq<char>|
        #![trigger path_resolution(base, ours, theirs, options, store, kind, path)]
        match path_resolution(base, ours, theirs, options, store, kind, path) {
            Err(fault) => is_load_error(e, fault),
            Ok(_) => false,
        }
}

/// What the merge has made of `path` so far, in a run that has come to `done` paths.
spec fn settled(
    items: PathMap,
    conflicts: Seq<PathConflict>,
    new_blobs: Seq<NewBlob>,
    ours: PathMap,
    theirs: PathMap,
    outcome: MergeResolution,
    path: Seq<char>,
) -> bool {
    match outcome {
        MergeResolution::Use(entry) => lookup(items, path) == Some(entry) && entry_is_known(
            entry,
            lookup(ours, path),
            lookup(theirs, path),
            new_blobs,
        ) && !conflict_paths(conflicts).contains(path),
        MergeResolution::Delete => lookup(items, path) is None && !conflict_paths(conflicts).contains(
            path,
        ),
        MergeResolution::Conflict(k) => lookup(items, path) is None && conflict_listed(
            conflicts,
            path,
            k,
        ),
    }
}

/// Merges three maps path by path.
pub fn resolve_item_maps(
    base_items: &TreeItems,
    our_items: &TreeItems,
    their_items: &TreeItems,
    options: &PullMergeOptions,
    store: &BlobStore,
    kind: HashKind,
    known_blobs: Vec<NewBlob>,
) -> (r: Result<ThreeWayMergeResult, PullMergeError>)
    requires
        base_items.wf(),
        our_items.wf(),
        their_items.wf(),
        blobs_named(kind, known_blobs@),
    ensures
        match r {
            Ok(merged) => is_merge_of(
                merged,
                base_items@,
                our_items@,
                their_items@,
                *options,
                *store,
                kind,
            ),
            Err(e) => is_merge_fault(
                e,
                base_items@,
                our_items@,
                their_items@,
                *options,
                *store,
                kind,
            ),
        },
{
    let paths = union_paths(base_items, our_items, their_items);
    let ghost all = texts(paths@);
    let mut merged = TreeItems::new();
    let mut conflicts: Vec<PathConflict> = Vec::new();
    let mut new_blobs = known_blobs;
    let mut i: usize = 0;
    proof {
        assert(conflict_paths(conflicts@) =~= Seq::<Seq<char>>::empty());
    }
    while i < paths.len()
        invariant
            base_items.wf(),
            our_items.wf(),
            their_items.wf(),
            i <= paths@.len(),
            all == texts(paths@),
            all.no_duplicates(),
            forall|p: Seq<char>|
                #![trigger all.contains(p)]
                all.contains(p) ==> base_items@.contains_key(p) || our_items@.contains_key(p)
                    || their_items@.contains_key(p),
            merged.wf(),
            blobs_named(kind, new_blobs@),
            conflict_paths(conflicts@).no_duplicates(),
            forall|p: Seq<char>|
                #![trigger merged@.contains_key(p)]
                merged@.contains_key(p) ==> exists|j: int| 0 <= j < i && #[trigger] all[j] == p,
            forall|p: Seq<char>|
                #![trigger conflict_paths(conflicts@).contains(p)]
                conflict_paths(conflicts@).contains(p) ==> exists|j: int|
                    0 <= j < i && #[trigger] all[j] == p,
            forall|j: int|
                #![trigger all[j]]
                0 <= j < i ==> match path_resolution(
                    base_items@,
                    our_items@,
                    their_items@,
                    *options,
                    *store,
                    kind,
                    all[j],
                ) {
                    Ok(outcome) => settled(
                        merged@,
                        conflicts@,
                        new_blobs@,
                        our_items@,
                        their_items@,
                        outcome,
                        all[j],
                    ),
                    Err(_) => false,
                },
        decreases paths@.len() - i,
    {
        let ghost here = all[i as int];
        assert(here == paths@[i as int]@);
        let ghost merged0 = merged@;
        let ghost conflicts0 = conflicts@;
        let ghost blobs0 = new_blobs@;
        proof {
            assert(all.contains(here));
            if base_items@.contains_key(here) {
                lemma_paths_are_plain(*base_items, here);
            } else if our_items@.contains_key(here) {
                lemma_paths_are_plain(*our_items, here);
            } else {
                lemma_paths_are_plain(*their_items, here);
            }
        }
        let path = paths[i].as_str();
        let outcome = match resolve_three_way_with_options(
            base_items.get_at(path),
            our_items.get_at(path),
            their_items.get_at(path),
            options,
            store,
            kind,
            &mut new_blobs,
        ) {
            Ok(outcome) => outcome,
            Err(e) => {
                assert(path_resolution(
                    base_items@,
                    our_items@,
                    their_items@,
                    *options,
                    *store,
                    kind,
                    here,
                ) is Err);
                return Err(e);
            },
        };
        proof {
            if merged0.contains_key(here) {
                let j = choose|j: int| 0 <= j < i && #[trigger] all[j] == here;
                assert(all[j] == all[i as int]);
            }
            if conflict_paths(conflicts0).contains(here) {
                let j = choose|j: int| 0 <= j < i && #[trigger] all[j] == here;
                assert(all[j] == all[i as int]);
            }
        }
        match outcome {
            MergeResolution::Use(entry) => {
                merged.insert_at(path, entry);
            },
            MergeResolution::Delete => {},
            MergeResolution::Conflict(k) => {
                conflicts.push(PathConflict { path: path.to_owned(), kind: k });
                assert(conflict_paths(conflicts@) =~= conflict_paths(conflicts0).push(here));
                assert(conflicts@[conflicts0.len() as int].path@ == here);
                assert(conflict_paths(conflicts@)[conflicts0.len() as int] == here);
            },
        }
        proof {
            assert forall|p: Seq<char>|
                #![trigger merged@.contains_key(p)]
                merged@.contains_key(p) implies exists|j: int| 0 <= j < i + 1 && #[trigger] all[j] == p by {
                if p == here {
                    assert(all[i as int] == p);
                } else {
                    assert(merged0.contains_key(p));
                    let j = choose|j: int| 0 <= j < i && #[trigger] all[j] == p;
                    assert(all[j] == p);
                }
            }
            assert forall|p: Seq<char>|
                #![trigger conflict_paths(conflicts@).contains(p)]
                conflict_paths(conflicts@).contains(p) implies exists|j: int|
                0 <= j < i + 1 && #[trigger] all[j] == p by {
                if p == here {
                    assert(all[i as int] == p);
                } else {
                    let k = choose|k: int|
                        0 <= k < conflict_paths(conflicts@).len() && conflict_paths(conflicts@)[k] == p;
                    assert(k < conflicts0.len());
                    assert(conflict_paths(conflicts0)[k] == p);
                    assert(conflict_paths(conflicts0).contains(p));
                    let j = choose|j: int| 0 <= j < i && #[trigger] all[j] == p;
                    assert(all[j] == p);
                }
            }
            assert forall|j: int|
                #![trigger all[j]]
                0 <= j < i + 1 implies match path_resolution(
                base_items@,
                our_items@,
                their_items@,
                *options,
                *store,
                kind,
                all[j],
            ) {
                Ok(o) => settled(
                    merged@,
                    conflicts@,
                    new_blobs@,
                    our_items@,
                    their_items@,
                    o,
                    all[j],
                ),
                Err(_) => false,
            } by {
                let p = all[j];
                if j < i {
                    assert(p != here) by {
                        assert(all[j] != all[i as int]);
                    }
                    let o = path_resolution(
                        base_items@,
                        our_items@,
                        their_items@,
                        *options,
                        *store,
                        kind,
                        p,
                    )->Ok_0;
                    assert(settled(merged0, conflicts0, blobs0, our_items@, their_items@, o, p));
                    assert(lookup(merged@, p) == lookup(merged0, p));
                    if !conflict_paths(conflicts0).contains(p) && conflict_paths(conflicts@).contains(p) {
                        let k = choose|k: int|
                            0 <= k < conflict_paths(conflicts@).len() && conflict_paths(conflicts@)[k]
                                == p;
                        if k < conflicts0.len() {
                            assert(conflict_paths(conflicts0)[k] == p);
                        }
                    }
                    if o is Conflict {
                        let c = o->Conflict_0;
                        let k = choose|k: int|
                            0 <= k < conflicts0.len() && (#[trigger] conflicts0[k]).path@ == p
                                && conflicts0[k].kind == c;
                        assert(conflicts@[k] == conflicts0[k]);
                        assert(conflict_listed(conflicts@, p, c));
                    }
                } else {
                    assert(p == here);
                    if outcome is Delete {
                        assert(!merged0.contains_key(here));
                        assert(lookup(merged@, here) is None);
                    }
                    if outcome is Use {
                        assert(lookup(merged@, here) == Some(outcome->Use_0));
                    }
                    if outcome is Conflict {
                        assert(lookup(merged@, here) is None);
                        assert(conflict_listed(conflicts@, here, outcome->Conflict_0));
                    }
                }
            }
        }
        i = i + 1;
    }
    let r = ThreeWayMergeResult { merged_items: merged, conflicts, new_blobs };
    proof {
        assert forall|path: Seq<char>|
            #![trigger path_resolution(base_items@, our_items@, their_items@, *options, *store, kind, path)]
            match path_resolution(
                base_items@,
                our_items@,
                their_items@,
                *options,
                *store,
                kind,
                path,
            ) {
                Err(_) => false,
                Ok(o) => settled(
                    r.merged_items@,
                    r.conflicts@,
                    r.new_blobs@,
                    our_items@,
                    their_items@,
                    o,
                    path,
                ),
            } by {
            if all.contains(path) {
                let j = choose|j: int| 0 <= j < all.len() && all[j] == path;
                assert(all[j] == path);
            } else {
                assert(!base_items@.contains_key(path));
                assert(!r.merged_items@.contains_key(path)) by {
                    if r.merged_items@.contains_key(path) {
                        let j = choose|j: int| 0 <= j < paths@.len() && #[trigger] all[j] == path;
                        assert(all.contains(path));
                    }
                }
                assert(!conflict_paths(r.conflicts@).contains(path)) by {
                    if conflict_paths(r.conflicts@).contains(path) {
                        let j = choose|j: int| 0 <= j < paths@.len() && #[trigger] all[j] == path;
                        assert(all.contains(path));
                    }
                }
            }
        }
    }
    Ok(r)
}

/// What both sides agree on is taken, and a change on one side alone is taken.
pub proof fn law_one_sided_change_is_taken(
    base: Option<MergeTreeEntry>,
    side: Option<MergeTreeEntry>,
    options: PullMergeOptions,
    store: BlobStore,
    kind: HashKind,
)
    ensures
        ({
            let taken = Ok::<MergeResolution, LoadFault>(
                match side {
                    Some(entry) => MergeResolution::Use(entry),
                    None => MergeResolution::Delete,
                },
            );
            &&& resolution(base, side, side, options, store, kind) == taken
            &&& resolution(base, base, side, options, store, kind) == taken
            &&& resolution(base, side, base, options, store, kind) == taken
        }),
{
}

/// Where a side is favored, no path ends in a conflict.
pub proof fn law_favored_side_never_conflicts(
    base: Option<MergeTreeEntry>,
    ours: Option<MergeTreeEntry>,
    theirs: Option<MergeTreeEntry>,
    options: PullMergeOptions,
    store: BlobStore,
    kind: HashKind,
)
    requires
        options.strategy_option is Some,
    ensures
        resolution(base, ours, theirs, options, store, kind) matches Ok(outcome) ==> !(outcome is Conflict),
{
}

/// A merge in which our side changed nothing gives their tree, without conflicts.
pub proof fn law_merge_with_unchanged_side(
    r: ThreeWayMergeResult,
    base: PathMap,
    theirs: PathMap,
    options: PullMergeOptions,
    store: BlobStore,
    kind: HashKind,
)
    requires
        is_merge_of(r, base, base, theirs, options, store, kind),
    ensures
        r.merged_items@ == theirs,
        r.conflicts@.len() == 0,
{
    assert forall|p: Seq<char>| lookup(r.merged_items@, p) == #[trigger] lookup(theirs, p) by {
        let o = path_resolution(base, base, theirs, options, store, kind, p);
    }
    lemma_same_lookup(r.merged_items@, theirs);
    if r.conflicts@.len() > 0 {
        let p = r.conflicts@[0].path@;
        assert(conflict_paths(r.conflicts@)[0] == p);
        assert(conflict_paths(r.conflicts@).contains(p));
        let o = path_resolution(base, base, theirs, options, store, kind, p);
    }
}

/// A merge of two sides with the same tree gives that tree, without conflicts.
pub proof fn law_merge_of_equal_sides(
    r: ThreeWayMergeResult,
    base: PathMap,
    both: PathMap,
    options: PullMergeOptions,
    store: BlobStore,
    kind: HashKind,
)
    requires
        is_merge_of(r, base, both, both, options, store, kind),
    ensures
        r.merged_items@ == both,
        r.conflicts@.len() == 0,
{
    assert forall|p: Seq<char>| lookup(r.merged_items@, p) == #[trigger] lookup(both, p) by {
        let o = path_resolution(base, both, both, options, store, kind, p);
    }
    lemma_same_lookup(r.merged_items@, both);
    if r.conflicts@.len() > 0 {
        let p = r.conflicts@[0].path@;
        assert(conflict_paths(r.conflicts@)[0] == p);
        assert(conflict_paths(r.conflicts@).contains(p));
        let o = path_resolution(base, both, both, options, store, kind, p);
    }
}

/// No path is both merged and in conflict, and where a side is favored there is no conflict.
pub proof fn law_merged_and_conflicted_paths_are_disjoint(
    r: ThreeWayMergeResult,
    base: PathMap,
    ours: PathMap,
    theirs: PathMap,
    options: PullMergeOptions,
    store: BlobStore,
    kind: HashKind,
)
    requires
        is_merge_of(r, base, ours, theirs, options, store, kind),
    ensures
        forall|p: Seq<char>|
            #[trigger] conflict_paths(r.conflicts@).contains(p) ==> !r.merged_items@.contains_key(p),
        options.strategy_option is Some ==> r.conflicts@.len() == 0,
{
    assert forall|p: Seq<char>| #[trigger]
        conflict_paths(r.conflicts@).contains(p) implies !r.merged_items@.contains_key(p) by {
        let o = path_resolution(base, ours, theirs, options, store, kind, p);
        assert(lookup(r.merged_items@, p) is None);
    }
    if options.strategy_option is Some && r.conflicts@.len() > 0 {
        let p = r.conflicts@[0].path@;
        assert(conflict_paths(r.conflicts@)[0] == p);
        assert(conflict_paths(r.conflicts@).contains(p));
        law_favored_side_never_conflicts(
            lookup(base, p),
            lookup(ours, p),
            lookup(theirs, p),
            options,
            store,
            kind,
        );
        let o = path_resolution(base, ours, theirs, options, store, kind, p);
    }
}

proof fn lemma_same_lookup(a: PathMap, b: PathMap)
    requires
        forall|p: Seq<char>| lookup(a, p) == #[trigger] lookup(b, p),
    ensures
        a == b,
{
    assert forall|p: Seq<char>| a.contains_key(p) <==> b.contains_key(p) by {
        assert(lookup(a, p) == lookup(b, p));
    }
    assert forall|p: Seq<char>| a.contains_key(p) implies a[p] == b[p] by {
        assert(lookup(a, p) == lookup(b, p));
    }
    assert(a =~= b);
}

/// Merges two trees over their base, with no option set.
pub fn merge_tree_items(
    base_items: &TreeItems,
    our_items: &TreeItems,
    their_items: &TreeItems,
    store: &BlobStore,
    kind: HashKind,
) -> (r: Result<ThreeWayMergeResult, PullMergeError>)
    requires
        base_items.wf(),
        our_items.wf(),
        their_items.wf(),
    ensures
        exists|options: PullMergeOptions|
            #[trigger] options.is_plain(false) && match r {
                Ok(merged) => is_merge_of(
                    merged,
                    base_items@,
                    our_items@,
                    their_items@,
                    options,
                    *store,
                    kind,
                ),
                Err(e) => is_merge_fault(
                    e,
                    base_items@,
                    our_items@,
                    their_items@,
                    options,
                    *store,
                    kind,
                ),
            },
{
    let options = PullMergeOptions::plain(false);
    let none: Vec<NewBlob> = Vec::new();
    assert(options.is_plain(false));
    resolve_item_maps(base_items, our_items, their_items, &options, store, kind, none)
}

/// A path that both sides added, with different entries: a conflict that names both, or the entry of
/// the favored side.
pub proof fn law_both_added_conflict(
    ours: MergeTreeEntry,
    theirs: MergeTreeEntry,
    options: PullMergeOptions,
    store: BlobStore,
    kind: HashKind,
)
    requires
        ours != theirs,
    ensures
        resolution(None, Some(ours), Some(theirs), options, store, kind) == Ok::<
            MergeResolution,
            LoadFault,
        >(
            match options.strategy_option {
                None => MergeResolution::Conflict(
                    ConflictKind::BothChanged { ours: ours.hash, theirs: theirs.hash },
                ),
                Some(MergeFavor::Ours) => MergeResolution::Use(ours),
                Some(MergeFavor::Theirs) => MergeResolution::Use(theirs),
            },
        ),
{
}

/// A path that one side changed and the other deleted: a conflict that names the changed file, or
/// what the favored side has, be it the file or that it is gone.
pub proof fn law_changed_and_deleted_conflict(
    base: MergeTreeEntry,
    changed: MergeTreeEntry,
    options: PullMergeOptions,
    store: BlobStore,
    kind: HashKind,
)
    requires
        changed != base,
    ensures
        resolution(Some(base), Some(changed), None, options, store, kind) == Ok::<
            MergeResolution,
            LoadFault,
        >(
            match options.strategy_option {
                None => MergeResolution::Conflict(
                    ConflictKind::OursModifiedTheirsDeleted { ours: changed.hash },
                ),
                Some(MergeFavor::Ours) => MergeResolution::Use(changed),
                Some(MergeFavor::Theirs) => MergeResolution::Delete,
            },
        ),
        resolution(Some(base), None, Some(changed), options, store, kind) == Ok::<
            MergeResolution,
            LoadFault,
        >(
            match options.strategy_option {
                None => MergeResolution::Conflict(
                    ConflictKind::TheirsModifiedOursDeleted { theirs: changed.hash },
                ),
                Some(MergeFavor::Ours) => MergeResolution::Delete,
                Some(MergeFavor::Theirs) => MergeResolution::Use(changed),
            },
        ),
{
}

/// The entry is the file that a merge of three contents makes: the merge of the texts, or where
/// white space is ignored a side that the other differs from, or from which the base differs, by
/// that alone.
pub open spec fn is_content_merge(
    entry: MergeTreeEntry,
    base: MergeTreeEntry,
    ours: MergeTreeEntry,
    theirs: MergeTreeEntry,
    options: PullMergeOptions,
    store: BlobStore,
    kind: HashKind,
) -> bool {
    &&& ours.mode == base.mode && theirs.mode == base.mode
    &&& base.mode == TreeItemMode::Blob || base.mode == TreeItemMode::BlobExecutable
    &&& store.load(base.hash) matches Ok(b) && store.load(ours.hash) matches Ok(o) && store.load(
        theirs.hash,
    ) matches Ok(t) && {
        let canon = |data: Seq<u8>| canonical_bytes(options.whitespace, data);
        &&& !b.contains(0u8) && !o.contains(0u8) && !t.contains(0u8)
        &&& {
            ||| three_way_bytes(b, o, t) matches Ok(merged) && entry.hash == object_id(
                kind,
                "blob"@,
                merged,
            ) && entry.mode == ours.mode
            ||| options.whitespace.ignores_some() && entry == ours && (canon(o) == canon(t) || canon(t)
                == canon(b))
            ||| options.whitespace.ignores_some() && entry == theirs && canon(o) == canon(b)
        }
    }
}

/// Where both sides changed a path, each in its own way, and none is favored, the path is in
/// conflict: unless the two have the same bytes, or both still have the file and the merge of its
/// contents is taken. A path that one side deleted is never merged, and none is dropped.
pub proof fn law_disagreement_is_reported(
    base: Option<MergeTreeEntry>,
    ours: Option<MergeTreeEntry>,
    theirs: Option<MergeTreeEntry>,
    options: PullMergeOptions,
    store: BlobStore,
    kind: HashKind,
)
    requires
        ours != theirs,
        ours != base,
        theirs != base,
        options.strategy_option is None,
    ensures
        match resolution(base, ours, theirs, options, store, kind) {
            Ok(MergeResolution::Use(entry)) => base matches Some(b) && ours matches Some(o)
                && theirs matches Some(t) && ((o.hash == t.hash && entry == t) || (o.hash != t.hash
                && is_content_merge(entry, b, o, t, options, store, kind))),
            Ok(MergeResolution::Delete) => false,
            Ok(MergeResolution::Conflict(ConflictKind::BothChanged { ours: a, theirs: b })) => ours
                matches Some(o) && theirs matches Some(t) && a == o.hash && b == t.hash,
            Ok(MergeResolution::Conflict(ConflictKind::OursModifiedTheirsDeleted { ours: a })) => ours
                matches Some(o) && theirs is None && a == o.hash,
            Ok(MergeResolution::Conflict(ConflictKind::TheirsModifiedOursDeleted { theirs: b })) =>
                ours is None && (theirs matches Some(t) && b == t.hash),
            Err(fault) => base is Some && ours is Some && theirs is Some && store.load(fault.id)
                == Err::<Seq<u8>, Seq<char>>(fault.detail) && (fault.id == base->0.hash || fault.id
                == ours->0.hash || fault.id == theirs->0.hash),
        },
{
}

/// Two files whose texts were merged without a conflict come out as that merge, under the mode that
/// both have; two whose texts conflict are in conflict, or the favored side is taken.
pub proof fn law_changed_texts_are_merged(
    base: MergeTreeEntry,
    ours: MergeTreeEntry,
    theirs: MergeTreeEntry,
    options: PullMergeOptions,
    store: BlobStore,
    kind: HashKind,
    b: Seq<u8>,
    o: Seq<u8>,
    t: Seq<u8>,
)
    requires
        base.hash != ours.hash && base.hash != theirs.hash && ours.hash != theirs.hash,
        ours.mode == base.mode && theirs.mode == base.mode,
        base.mode == TreeItemMode::Blob || base.mode == TreeItemMode::BlobExecutable,
        store.load(base.hash) == Ok::<Seq<u8>, Seq<char>>(b),
        store.load(ours.hash) == Ok::<Seq<u8>, Seq<char>>(o),
        store.load(theirs.hash) == Ok::<Seq<u8>, Seq<char>>(t),
        !options.whitespace.ignores_some(),
    ensures
        ({
            let r = resolution(Some(base), Some(ours), Some(theirs), options, store, kind);
            let disagree = Ok::<MergeResolution, LoadFault>(
                match options.strategy_option {
                    None => MergeResolution::Conflict(
                        ConflictKind::BothChanged { ours: ours.hash, theirs: theirs.hash },
                    ),
                    Some(MergeFavor::Ours) => MergeResolution::Use(ours),
                    Some(MergeFavor::Theirs) => MergeResolution::Use(theirs),
                },
            );
            if b.contains(0u8) || o.contains(0u8) || t.contains(0u8) {
                r == disagree
            } else {
                match three_way_bytes(b, o, t) {
                    Ok(merged) => r == Ok::<MergeResolution, LoadFault>(
                        MergeResolution::Use(
                            MergeTreeEntry {
                                hash: object_id(kind, "blob"@, merged),
                                mode: base.mode,
                            },
                        ),
                    ),
                    Err(_) => r == disagree,
                }
            }
        }),
{
}

/// A change in white space that is ignored gives way: where our side differs from the base by that
/// alone, theirs is taken, and the other way round.
pub proof fn law_ignored_space_gives_way(
    base: MergeTreeEntry,
    ours: MergeTreeEntry,
    theirs: MergeTreeEntry,
    options: PullMergeOptions,
    store: BlobStore,
    kind: HashKind,
    b: Seq<u8>,
    o: Seq<u8>,
    t: Seq<u8>,
)
    requires
        base.hash != ours.hash && base.hash != theirs.hash && ours.hash != theirs.hash,
        ours.mode == base.mode && theirs.mode == base.mode,
        base.mode == TreeItemMode::Blob || base.mode == TreeItemMode::BlobExecutable,
        store.load(base.hash) == Ok::<Seq<u8>, Seq<char>>(b),
        store.load(ours.hash) == Ok::<Seq<u8>, Seq<char>>(o),
        store.load(theirs.hash) == Ok::<Seq<u8>, Seq<char>>(t),
        !b.contains(0u8) && !o.contains(0u8) && !t.contains(0u8),
        options.whitespace.ignores_some(),
    ensures
        ({
            let r = resolution(Some(base), Some(ours), Some(theirs), options, store, kind);
            let cb = canonical_bytes(options.whitespace, b);
            let co = canonical_bytes(options.whitespace, o);
            let ct = canonical_bytes(options.whitespace, t);
            &&& co == ct ==> r == Ok::<MergeResolution, LoadFault>(MergeResolution::Use(ours))
            &&& co == cb && co != ct ==> r == Ok::<MergeResolution, LoadFault>(
                MergeResolution::Use(theirs),
            )
            &&& ct == cb && co != ct ==> r == Ok::<MergeResolution, LoadFault>(
                MergeResolution::Use(ours),
            )
        }),
{
}

/// What a merge makes of each path of three trees: a change on one side alone is taken, be it an
/// addition or a deletion; a path that both sides left alone stays; and where no side is favored, two
/// different additions, or a change and a deletion, are a conflict and in no tree.
pub proof fn law_merge_path_by_path(
    r: ThreeWayMergeResult,
    base: PathMap,
    ours: PathMap,
    theirs: PathMap,
    options: PullMergeOptions,
    store: BlobStore,
    kind: HashKind,
    p: Seq<char>,
)
    requires
        is_merge_of(r, base, ours, theirs, options, store, kind),
    ensures
        ({
            let merged = r.merged_items@;
            let same = |a: PathMap, b: PathMap|
                a.contains_key(p) == b.contains_key(p) && (a.contains_key(p) ==> a[p] == b[p]);
            let listed = exists|i: int|
                0 <= i < r.conflicts@.len() && (#[trigger] r.conflicts@[i]).path@ == p;
            &&& same(ours, base) ==> same(merged, theirs) && !listed
            &&& same(theirs, base) ==> same(merged, ours) && !listed
            &&& same(ours, theirs) ==> same(merged, ours) && !listed
            &&& listed ==> !merged.contains_key(p) && options.strategy_option is None
            &&& options.strategy_option is None && !base.contains_key(p) && ours.contains_key(p)
                && theirs.contains_key(p) && ours[p] != theirs[p] ==> listed
            &&& options.strategy_option is None && base.contains_key(p) && ours.contains_key(p)
                != theirs.contains_key(p) && !same(ours, base) && !same(theirs, base) ==> listed
            &&& merged.contains_key(p) ==> ours.contains_key(p) || theirs.contains_key(p)
        }),
{
    let o = path_resolution(base, ours, theirs, options, store, kind, p);
    let listed = exists|i: int| 0 <= i < r.conflicts@.len() && (#[trigger] r.conflicts@[i]).path@ == p;
    assert(listed <==> conflict_paths(r.conflicts@).contains(p)) by {
        if listed {
            let i = choose|i: int| 0 <= i < r.conflicts@.len() && (#[trigger] r.conflicts@[i]).path@ == p;
            assert(conflict_paths(r.conflicts@)[i] == p);
        }
        if conflict_paths(r.conflicts@).contains(p) {
            let i = choose|i: int|
                0 <= i < conflict_paths(r.conflicts@).len() && conflict_paths(r.conflicts@)[i] == p;
            assert(r.conflicts@[i].path@ == p);
        }
    }
    if options.strategy_option is Some {
        law_favored_side_never_conflicts(
            lookup(base, p),
            lookup(ours, p),
            lookup(theirs, p),
            options,
            store,
            kind,
        );
    }
}

/// A merge fails only for a path whose contents cannot be read, and tells the one that could not.
pub proof fn law_merge_fails_for_a_path(
    e: PullMergeError,
    base: PathMap,
    ours: PathMap,
    theirs: PathMap,
    options: PullMergeOptions,
    store: BlobStore,
    kind: HashKind,
)
    requires
        is_merge_fault(e, base, ours, theirs, options, store, kind),
    ensures
        exists|path: Seq<char>|
            #![trigger lookup(base, path)]
            resolution(
                lookup(base, path),
                lookup(ours, path),
                lookup(theirs, path),
                options,
                store,
                kind,
            ) matches Err(fault) && (e matches PullMergeError::ObjectLoad { object_id, detail } && object_id@
                == fault.id.text() && detail@ == fault.detail),
{
    let path = choose|path: Seq<char>|
        #![trigger path_resolution(base, ours, theirs, options, store, kind, path)]
        match path_resolution(base, ours, theirs, options, store, kind, path) {
            Err(fault) => is_load_error(e, fault),
            Ok(_) => false,
        };
    let found = lookup(base, path);
}

} // verus!
