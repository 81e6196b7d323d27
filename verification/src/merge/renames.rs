//! Rename detection: an edit on one side follows a rename on the other.

use vstd::prelude::*;

use crate::merge::content::{
    blobs_named, content_similarity, is_load_error, similarity, BlobStore, LoadFault, NewBlob,
    Similarity,
};
use crate::merge::items::{
    distinct_paths, items_map, lemma_items_map_at, lemma_items_map_contains, lookup, MergeTreeEntry,
    TreeEntry, TreeItems,
};
use crate::merge::options::PullMergeOptions;
use crate::merge::three_way::{
    is_merge_fault, is_merge_of, resolution, resolve_item_maps, resolve_three_way_with_options,
    MergeResolution, PathMap, ThreeWayMergeResult,
};
use crate::merge::PullMergeError;
use crate::object::HashKind;
use crate::paths::{is_plain, plain_path};
use crate::text::{contains_text, texts};

verus! {

/// A detected file rename: `source` (a base path removed on one side) was
/// renamed to `dest` (a new path added on that same side), while the other
/// side kept editing `source`.
#[derive(Debug)]
pub struct Rename {
    pub source: String,
    pub dest: String,
    /// True when `ours` performed the rename (so `theirs` holds the edit).
    pub renamed_by_ours: bool,
}

/// A [`Rename`] with its paths as sequences of characters.
pub struct RenameView {
    pub source: Seq<char>,
    pub dest: Seq<char>,
    pub renamed_by_ours: bool,
}

impl View for Rename {
    type V = RenameView;

    open spec fn view(&self) -> RenameView {
        RenameView {
            source: self.source@,
            dest: self.dest@,
            renamed_by_ours: self.renamed_by_ours,
        }
    }
}

pub open spec fn rename_views(v: Seq<Rename>) -> Seq<RenameView> {
    v.map_values(|r: Rename| r@)
}

pub open spec fn rename_dests(v: Seq<RenameView>) -> Seq<Seq<char>> {
    v.map_values(|r: RenameView| r.dest)
}

/// Cap on the number of comparisons between base files and added files.
pub const RENAME_LIMIT: usize = 1000;

/// The paths that `items` adds: neither the base nor the other side has them.
pub open spec fn added_paths(items: Seq<TreeEntry>, base: PathMap, other: PathMap) -> Seq<Seq<char>>
    decreases items.len(),
{
    if items.len() == 0 {
        Seq::empty()
    } else {
        let head = added_paths(items.drop_last(), base, other);
        let path = items.last().path@;
        if !base.contains_key(path) && !other.contains_key(path) {
            head.push(path)
        } else {
            head
        }
    }
}

/// The most similar candidate so far, and whether another is as similar.
pub struct Leading {
    pub path: Seq<char>,
    pub score: Similarity,
    pub tied: bool,
}

/// The leading candidate after one that is alike by `score`.
pub open spec fn next_leading(best: Option<Leading>, path: Seq<char>, score: Similarity) -> Option<
    Leading,
> {
    if !score.at_least_half() {
        best
    } else {
        match best {
            None => Some(Leading { path, score, tied: false }),
            Some(b) => if score.above(b.score) {
                Some(Leading { path, score, tied: false })
            } else if b.score.above(score) {
                best
            } else {
                Some(Leading { tied: true, ..b })
            },
        }
    }
}

/// The most similar of the candidates that are not used yet and are alike by half at least.
pub open spec fn leading_dest(
    entry: MergeTreeEntry,
    candidates: Seq<Seq<char>>,
    side: PathMap,
    used: Seq<Seq<char>>,
    store: BlobStore,
) -> Result<Option<Leading>, LoadFault>
    decreases candidates.len(),
{
    if candidates.len() == 0 {
        Ok(None)
    } else {
        let path = candidates.last();
        match leading_dest(entry, candidates.drop_last(), side, used, store) {
            Err(fault) => Err(fault),
            Ok(best) => if used.contains(path) || !side.contains_key(path) {
                Ok(best)
            } else {
                match similarity(entry, side[path], store) {
                    Err(fault) => Err(fault),
                    Ok(s) => Ok(next_leading(best, path, s)),
                }
            },
        }
    }
}

/// The most similar of the candidates that are not used yet and are alike by half at least; none
/// where two are equally similar.
pub open spec fn best_dest(
    entry: MergeTreeEntry,
    candidates: Seq<Seq<char>>,
    side: PathMap,
    used: Seq<Seq<char>>,
    store: BlobStore,
) -> Result<Option<(Seq<char>, Similarity)>, LoadFault> {
    match leading_dest(entry, candidates, side, used, store) {
        Err(fault) => Err(fault),
        Ok(Some(best)) => if best.tied {
            Ok(None)
        } else {
            Ok(Some((best.path, best.score)))
        },
        Ok(None) => Ok(None),
    }
}

/// Whether the merge of a renamed file at its new path resolves without a conflict.
pub open spec fn clean(outcome: MergeResolution) -> bool {
    !(outcome is Conflict)
}

/// The rename of the base file `source`: one side lost it and added a similar file, while the
/// other side edited it, and the two come together at the new path.
pub open spec fn rename_of(
    source: Seq<char>,
    entry: MergeTreeEntry,
    ours: PathMap,
    theirs: PathMap,
    our_added: Seq<Seq<char>>,
    their_added: Seq<Seq<char>>,
    used: Seq<Seq<char>>,
    options: PullMergeOptions,
    store: BlobStore,
    kind: HashKind,
) -> Result<Option<RenameView>, LoadFault> {
    if !ours.contains_key(source) && theirs.contains_key(source) && theirs[source] != entry {
        match best_dest(entry, our_added, ours, used, store) {
            Err(fault) => Err(fault),
            Ok(None) => Ok(None),
            Ok(Some(best)) => match resolution(
                Some(entry),
                lookup(ours, best.0),
                Some(theirs[source]),
                options,
                store,
                kind,
            ) {
                Err(fault) => Err(fault),
                Ok(outcome) => if clean(outcome) {
                    Ok(Some(RenameView { source, dest: best.0, renamed_by_ours: true }))
                } else {
                    Ok(None)
                },
            },
        }
    } else if !theirs.contains_key(source) && ours.contains_key(source) && ours[source] != entry {
        match best_dest(entry, their_added, theirs, used, store) {
            Err(fault) => Err(fault),
            Ok(None) => Ok(None),
            Ok(Some(best)) => match resolution(
                Some(entry),
                Some(ours[source]),
                lookup(theirs, best.0),
                options,
                store,
                kind,
            ) {
                Err(fault) => Err(fault),
                Ok(outcome) => if clean(outcome) {
                    Ok(Some(RenameView { source, dest: best.0, renamed_by_ours: false }))
                } else {
                    Ok(None)
                },
            },
        }
    } else {
        Ok(None)
    }
}

/// The renames of the base files in their order; no destination is used twice.
pub open spec fn renames_among(
    base: Seq<TreeEntry>,
    ours: PathMap,
    theirs: PathMap,
    our_added: Seq<Seq<char>>,
    their_added: Seq<Seq<char>>,
    options: PullMergeOptions,
    store: BlobStore,
    kind: HashKind,
) -> Result<Seq<RenameView>, LoadFault>
    decreases base.len(),
{
    if base.len() == 0 {
        Ok(Seq::empty())
    } else {
        match renames_among(
            base.drop_last(),
            ours,
            theirs,
            our_added,
            their_added,
            options,
            store,
            kind,
        ) {
            Err(fault) => Err(fault),
            Ok(head) => match rename_of(
                base.last().path@,
                base.last().entry,
                ours,
                theirs,
                our_added,
                their_added,
                rename_dests(head),
                options,
                store,
                kind,
            ) {
                Err(fault) => Err(fault),
                Ok(Some(rename)) => Ok(head.push(rename)),
                Ok(None) => Ok(head),
            },
        }
    }
}

pub open spec fn max_nat(a: nat, b: nat) -> nat {
    if a >= b {
        a
    } else {
        b
    }
}

/// The renames that a merge takes into account; none where there are too many to compare.
pub open spec fn clean_renames(
    base: TreeItems,
    ours: TreeItems,
    theirs: TreeItems,
    options: PullMergeOptions,
    store: BlobStore,
    kind: HashKind,
) -> Result<Seq<RenameView>, LoadFault> {
    let our_added = added_paths(ours.items@, base@, theirs@);
    let their_added = added_paths(theirs.items@, base@, ours@);
    if our_added.len() == 0 && their_added.len() == 0 {
        Ok(Seq::empty())
    } else if base.items@.len() * max_nat(our_added.len(), their_added.len()) > RENAME_LIMIT {
        Ok(Seq::empty())
    } else {
        renames_among(base.items@, ours@, theirs@, our_added, their_added, options, store, kind)
    }
}

/// The paths that `items` adds.
fn collect_added(items: &TreeItems, base: &TreeItems, other: &TreeItems) -> (r: Vec<String>)
    ensures
        texts(r@) == added_paths(items.items@, base@, other@),
{
    let mut out: Vec<String> = Vec::new();
    let mut i: usize = 0;
    assert(items.items@.take(0) =~= Seq::<TreeEntry>::empty());
    assert(texts(out@) =~= Seq::<Seq<char>>::empty());
    while i < items.items.len()
        invariant
            i <= items.items@.len(),
            texts(out@) == added_paths(items.items@.take(i as int), base@, other@),
        decreases items.items@.len() - i,
    {
        let ghost before = out@;
        let ghost now = items.items@.take(i as int + 1);
        proof {
            assert(now.drop_last() =~= items.items@.take(i as int));
            assert(now.last() == items.items@[i as int]);
        }
        let path = items.items[i].path.as_str();
        if !base.holds_at(path) && !other.holds_at(path) {
            out.push(items.items[i].path.clone());
            assert(texts(out@) =~= texts(before).push(items.items@[i as int].path@));
        }
        i = i + 1;
    }
    assert(items.items@.take(items.items@.len() as int) =~= items.items@);
    out
}

/// Pick the highest-similarity unused destination for a renamed `base_entry`; none where two are
/// equally similar.
pub fn best_rename_dest(
    base_entry: &MergeTreeEntry,
    candidates: &Vec<String>,
    side_items: &TreeItems,
    used_dests: &Vec<String>,
    store: &BlobStore,
) -> (r: Result<Option<String>, PullMergeError>)
    requires
        side_items.wf(),
    ensures
        match (r, best_dest(*base_entry, texts(candidates@), side_items@, texts(used_dests@), *store)) {
            (Ok(Some(path)), Ok(Some(best))) => path@ == best.0,
            (Ok(None), Ok(None)) => true,
            (Err(e), Err(fault)) => is_load_error(e, fault),
            _ => false,
        },
{
    let ghost all = texts(candidates@);
    let mut best: Option<(usize, Similarity)> = None;
    let mut tied = false;
    let mut i: usize = 0;
    assert(all.take(0) =~= Seq::<Seq<char>>::empty());
    while i < candidates.len()
        invariant
            side_items.wf(),
            i <= candidates@.len(),
            all == texts(candidates@),
            match (
                best,
                leading_dest(*base_entry, all.take(i as int), side_items@, texts(used_dests@), *store),
            ) {
                (Some(got), Ok(Some(want))) => got.0 < candidates@.len() && all[got.0 as int]
                    == want.path && got.1 == want.score && got.1.wf() && tied == want.tied,
                (None, Ok(None)) => true,
                _ => false,
            },
        decreases candidates@.len() - i,
    {
        proof {
            assert(all.take(i as int + 1).drop_last() =~= all.take(i as int));
            assert(all.take(i as int + 1).last() == candidates@[i as int]@);
            lemma_leading_prefix(
                *base_entry,
                all,
                i as int + 1,
                side_items@,
                texts(used_dests@),
                *store,
            );
        }
        let candidate = candidates[i].as_str();
        if !contains_text(used_dests, candidate) {
            if let Some(candidate_entry) = side_items.get_at(candidate) {
                let s = match content_similarity(base_entry, &candidate_entry, store) {
                    Ok(s) => s,
                    Err(e) => {
                        return Err(e);
                    },
                };
                if s.reaches_half() {
                    let (better, worse) = match &best {
                        None => (true, false),
                        Some(b) => (s.is_above(&b.1), b.1.is_above(&s)),
                    };
                    if better {
                        best = Some((i, s));
                        tied = false;
                    } else if !worse {
                        tied = true;
                    }
                }
            }
        }
        i = i + 1;
    }
    assert(all.take(all.len() as int) =~= all);
    match best {
        Some(b) => if tied {
            Ok(None)
        } else {
            Ok(Some(candidates[b.0].clone()))
        },
        None => Ok(None),
    }
}

proof fn lemma_leading_prefix(
    entry: MergeTreeEntry,
    candidates: Seq<Seq<char>>,
    n: int,
    side: PathMap,
    used: Seq<Seq<char>>,
    store: BlobStore,
)
    requires
        0 <= n <= candidates.len(),
    ensures
        leading_dest(entry, candidates.take(n), side, used, store) matches Err(fault)
            ==> leading_dest(entry, candidates, side, used, store) == Err::<
            Option<Leading>,
            LoadFault,
        >(fault),
    decreases candidates.len() - n,
{
    if n < candidates.len() {
        lemma_leading_prefix(entry, candidates, n + 1, side, used, store);
        assert(candidates.take(n + 1).drop_last() =~= candidates.take(n));
    } else {
        assert(candidates.take(n) =~= candidates);
    }
}

/// What is more alike than a second is more alike than all that the second is not less alike than.
proof fn lemma_above(a: Similarity, b: Similarity, c: Similarity)
    requires
        a.above(b),
        !c.above(b),
        0 < a.total,
        0 < b.total,
        0 < c.total,
    ensures
        a.above(c),
{
    let (ac, at) = (a.common as int, a.total as int);
    let (bc, bt) = (b.common as int, b.total as int);
    let (cc, ct) = (c.common as int, c.total as int);
    assert((ac * bt) * ct > (bc * at) * ct) by (nonlinear_arith)
        requires
            ac * bt > bc * at,
            ct > 0,
    ;
    assert((bc * ct) * at >= (cc * bt) * at) by (nonlinear_arith)
        requires
            cc * bt <= bc * ct,
            at > 0,
    ;
    assert((bc * at) * ct == (bc * ct) * at) by (nonlinear_arith);
    assert((ac * bt) * ct == (ac * ct) * bt) by (nonlinear_arith);
    assert((cc * bt) * at == (cc * at) * bt) by (nonlinear_arith);
    assert(ac * ct > cc * at) by (nonlinear_arith)
        requires
            (ac * ct) * bt > (cc * at) * bt,
            bt > 0,
    ;
}

/// A candidate that counts: not used, in the tree, and alike by half at least, by `score`.
pub open spec fn counts(
    entry: MergeTreeEntry,
    path: Seq<char>,
    side: PathMap,
    used: Seq<Seq<char>>,
    store: BlobStore,
    score: Similarity,
) -> bool {
    &&& !used.contains(path)
    &&& side.contains_key(path)
    &&& similarity(entry, side[path], store) == Ok::<Similarity, LoadFault>(score)
    &&& score.at_least_half()
}

proof fn lemma_leading(
    entry: MergeTreeEntry,
    candidates: Seq<Seq<char>>,
    side: PathMap,
    used: Seq<Seq<char>>,
    store: BlobStore,
)
    requires
        forall|path: Seq<char>|
            candidates.contains(path) && #[trigger] side.contains_key(path) ==> (similarity(
                entry,
                side[path],
                store,
            ) matches Ok(s) ==> s.total > 0),
    ensures
        leading_dest(entry, candidates, side, used, store) matches Ok(best) ==> match best {
            None => forall|path: Seq<char>, s: Similarity|
                candidates.contains(path) ==> !(#[trigger] counts(entry, path, side, used, store, s)),
            Some(b) => {
                &&& candidates.contains(b.path)
                &&& counts(entry, b.path, side, used, store, b.score)
                &&& b.score.total > 0
                &&& forall|path: Seq<char>, s: Similarity|
                    candidates.contains(path) && #[trigger] counts(entry, path, side, used, store, s)
                        ==> !s.above(b.score) && s.total > 0 && (!b.tied && path != b.path
                        ==> b.score.above(s))
            },
        },
    decreases candidates.len(),
{
    if candidates.len() > 0 {
        let head = candidates.drop_last();
        let path = candidates.last();
        assert forall|p: Seq<char>| candidates.contains(p) <==> head.contains(p) || p == path by {
            if candidates.contains(p) {
                let k = choose|k: int| 0 <= k < candidates.len() && candidates[k] == p;
                if k < head.len() {
                    assert(head[k] == p);
                }
            }
            if head.contains(p) {
                let k = choose|k: int| 0 <= k < head.len() && head[k] == p;
                assert(candidates[k] == p);
            }
            if p == path {
                assert(candidates[candidates.len() - 1] == p);
            }
        }
        lemma_leading(entry, head, side, used, store);
        if let Ok(best) = leading_dest(entry, candidates, side, used, store) {
            let before = leading_dest(entry, head, side, used, store)->Ok_0;
            if !used.contains(path) && side.contains_key(path) {
                assert(candidates.contains(path) && side.contains_key(path));
                let score = similarity(entry, side[path], store)->Ok_0;
                assert(counts(entry, path, side, used, store, score) <==> score.at_least_half());
                if let Some(b) = best {
                    assert forall|p: Seq<char>, s: Similarity|
                        candidates.contains(p) && #[trigger] counts(entry, p, side, used, store, s) implies !s.above(
                        b.score,
                    ) && s.total > 0 && (!b.tied && p != b.path ==> b.score.above(s)) by {
                        if p == path {
                            assert(s == score);
                        } else {
                            assert(head.contains(p));
                            let old_best = before->0;
                            if score.at_least_half() && score.above(old_best.score) {
                                lemma_above(score, old_best.score, s);
                            }
                        }
                    }
                }
            }
        }
    }
}

/// An ambiguous rename is left alone: what a file was renamed to is more like it than every other
/// file that it could have been renamed to.
pub proof fn law_ambiguous_renames_are_left_alone(
    entry: MergeTreeEntry,
    candidates: Seq<Seq<char>>,
    side: PathMap,
    used: Seq<Seq<char>>,
    store: BlobStore,
    other: Seq<char>,
    score: Similarity,
)
    requires
        forall|path: Seq<char>|
            candidates.contains(path) && #[trigger] side.contains_key(path) ==> (similarity(
                entry,
                side[path],
                store,
            ) matches Ok(s) ==> s.total > 0),
        candidates.contains(other),
        counts(entry, other, side, used, store, score),
    ensures
        best_dest(entry, candidates, side, used, store) matches Ok(Some(best)) ==> best.0 == other
            || best.1.above(score),
{
    lemma_leading(entry, candidates, side, used, store);
}

/// Verify the relocated three-way merge (base = renamed source, plus the two
/// sides at the new path) resolves without a conflict.
pub fn rename_resolves_cleanly(
    base_entry: &MergeTreeEntry,
    ours: Option<MergeTreeEntry>,
    theirs: Option<MergeTreeEntry>,
    options: &PullMergeOptions,
    store: &BlobStore,
    kind: HashKind,
    new_blobs: &mut Vec<NewBlob>,
) -> (r: Result<bool, PullMergeError>)
    requires
        blobs_named(kind, old(new_blobs)@),
    ensures
        match (r, resolution(Some(*base_entry), ours, theirs, *options, *store, kind)) {
            (Ok(got), Ok(outcome)) => got == clean(outcome),
            (Err(e), Err(fault)) => is_load_error(e, fault),
            _ => false,
        },
        blobs_named(kind, final(new_blobs)@),
{
    match resolve_three_way_with_options(
        Some(*base_entry),
        ours,
        theirs,
        options,
        store,
        kind,
        new_blobs,
    ) {
        Ok(MergeResolution::Conflict(_)) => Ok(false),
        Ok(_) => Ok(true),
        Err(e) => Err(e),
    }
}

/// The rename of one base file.
fn find_rename(
    source: &str,
    base_entry: &MergeTreeEntry,
    our_items: &TreeItems,
    their_items: &TreeItems,
    our_added: &Vec<String>,
    their_added: &Vec<String>,
    used_dests: &Vec<String>,
    options: &PullMergeOptions,
    store: &BlobStore,
    kind: HashKind,
    new_blobs: &mut Vec<NewBlob>,
) -> (r: Result<Option<Rename>, PullMergeError>)
    requires
        our_items.wf(),
        their_items.wf(),
        blobs_named(kind, old(new_blobs)@),
    ensures
        match (
            r,
            rename_of(
                source@,
                *base_entry,
                our_items@,
                their_items@,
                texts(our_added@),
                texts(their_added@),
                texts(used_dests@),
                *options,
                *store,
                kind,
            ),
        ) {
            (Ok(Some(got)), Ok(Some(want))) => got@ == want,
            (Ok(None), Ok(None)) => true,
            (Err(e), Err(fault)) => is_load_error(e, fault),
            _ => false,
        },
        blobs_named(kind, final(new_blobs)@),
{
    let ours = our_items.get_at(source);
    let theirs = their_items.get_at(source);
    match (ours, theirs) {
        (None, Some(their_entry)) => {
            if their_entry == *base_entry {
                return Ok(None);
            }
            let dest = match best_rename_dest(base_entry, our_added, our_items, used_dests, store) {
                Ok(Some(dest)) => dest,
                Ok(None) => return Ok(None),
                Err(e) => return Err(e),
            };
            match rename_resolves_cleanly(
                base_entry,
                our_items.get_at(dest.as_str()),
                Some(their_entry),
                options,
                store,
                kind,
                new_blobs,
            ) {
                Ok(true) => Ok(
                    Some(Rename { source: source.to_owned(), dest, renamed_by_ours: true }),
                ),
                Ok(false) => Ok(None),
                Err(e) => Err(e),
            }
        },
        (Some(our_entry), None) => {
            if our_entry == *base_entry {
                return Ok(None);
            }
            let dest = match best_rename_dest(
                base_entry,
                their_added,
                their_items,
                used_dests,
                store,
            ) {
                Ok(Some(dest)) => dest,
                Ok(None) => return Ok(None),
                Err(e) => return Err(e),
            };
            match rename_resolves_cleanly(
                base_entry,
                Some(our_entry),
                their_items.get_at(dest.as_str()),
                options,
                store,
                kind,
                new_blobs,
            ) {
                Ok(true) => Ok(
                    Some(Rename { source: source.to_owned(), dest, renamed_by_ours: false }),
                ),
                Ok(false) => Ok(None),
                Err(e) => Err(e),
            }
        },
        _ => Ok(None),
    }
}

/// Detect renames where one side renamed a base file while the other side
/// edited it, but only when the relocated three-way merge resolves cleanly.
/// Ambiguous or conflicting cases are left alone so the existing delete/modify
/// conflict still surfaces.
pub fn detect_clean_renames(
    base_items: &TreeItems,
    our_items: &TreeItems,
    their_items: &TreeItems,
    options: &PullMergeOptions,
    store: &BlobStore,
    kind: HashKind,
    new_blobs: &mut Vec<NewBlob>,
) -> (r: Result<Vec<Rename>, PullMergeError>)
    requires
        our_items.wf(),
        their_items.wf(),
        blobs_named(kind, old(new_blobs)@),
    ensures
        match (r, clean_renames(*base_items, *our_items, *their_items, *options, *store, kind)) {
            (Ok(got), Ok(want)) => rename_views(got@) == want,
            (Err(e), Err(fault)) => is_load_error(e, fault),
            _ => false,
        },
        blobs_named(kind, final(new_blobs)@),
{
    let our_added = collect_added(our_items, base_items, their_items);
    let their_added = collect_added(their_items, base_items, our_items);
    let mut renames: Vec<Rename> = Vec::new();
    assert(rename_views(renames@) =~= Seq::<RenameView>::empty());
    if our_added.is_empty() && their_added.is_empty() {
        return Ok(renames);
    }
    let most: usize = if our_added.len() >= their_added.len() {
        our_added.len()
    } else {
        their_added.len()
    };
    let count: u128 = base_items.items.len() as u128;
    let width: u128 = most as u128;
    assert(0 <= count * width <= 0xffff_ffff_ffff_ffff * 0xffff_ffff_ffff_ffff) by (nonlinear_arith)
        requires
            0 <= count <= 0xffff_ffff_ffff_ffff,
            0 <= width <= 0xffff_ffff_ffff_ffff,
    ;
    if count * width > RENAME_LIMIT as u128 {
        return Ok(renames);
    }
    let mut used_dests: Vec<String> = Vec::new();
    let mut i: usize = 0;
    let ghost base = base_items.items@;
    assert(base.take(0) =~= Seq::<TreeEntry>::empty());
    assert(texts(used_dests@) =~= rename_dests(Seq::<RenameView>::empty()));
    while i < base_items.items.len()
        invariant
            our_items.wf(),
            their_items.wf(),
            i <= base_items.items@.len(),
            base == base_items.items@,
            texts(our_added@) == added_paths(our_items.items@, base_items@, their_items@),
            texts(their_added@) == added_paths(their_items.items@, base_items@, our_items@),
            our_added@.len() > 0 || their_added@.len() > 0,
            base.len() * max_nat(our_added@.len(), their_added@.len()) <= RENAME_LIMIT,
            texts(used_dests@) == rename_dests(rename_views(renames@)),
            renames_among(
                base.take(i as int),
                our_items@,
                their_items@,
                texts(our_added@),
                texts(their_added@),
                *options,
                *store,
                kind,
            ) == Ok::<Seq<RenameView>, LoadFault>(rename_views(renames@)),
            blobs_named(kind, new_blobs@),
        decreases base_items.items@.len() - i,
    {
        let ghost before = renames@;
        let ghost used0 = used_dests@;
        proof {
            assert(base.take(i as int + 1).drop_last() =~= base.take(i as int));
            assert(base.take(i as int + 1).last() == base[i as int]);
            lemma_renames_prefix(
                base,
                i as int + 1,
                our_items@,
                their_items@,
                texts(our_added@),
                texts(their_added@),
                *options,
                *store,
                kind,
            );
        }
        match find_rename(
            base_items.items[i].path.as_str(),
            &base_items.items[i].entry,
            our_items,
            their_items,
            &our_added,
            &their_added,
            &used_dests,
            options,
            store,
            kind,
            new_blobs,
        ) {
            Err(e) => {
                return Err(e);
            },
            Ok(None) => {},
            Ok(Some(rename)) => {
                used_dests.push(rename.dest.clone());
                let ghost rv = rename@;
                renames.push(rename);
                proof {
                    assert(rename_views(renames@) =~= rename_views(before).push(rv));
                    assert(texts(used_dests@) =~= texts(used0).push(rv.dest));
                    assert(rename_dests(rename_views(renames@)) =~= rename_dests(
                        rename_views(before),
                    ).push(rv.dest));
                }
            },
        }
        i = i + 1;
    }
    assert(base.take(base.len() as int) =~= base);
    Ok(renames)
}

proof fn lemma_renames_prefix(
    base: Seq<TreeEntry>,
    n: int,
    ours: PathMap,
    theirs: PathMap,
    our_added: Seq<Seq<char>>,
    their_added: Seq<Seq<char>>,
    options: PullMergeOptions,
    store: BlobStore,
    kind: HashKind,
)
    requires
        0 <= n <= base.len(),
    ensures
        renames_among(base.take(n), ours, theirs, our_added, their_added, options, store, kind) matches Err(
            fault,
        ) ==> renames_among(base, ours, theirs, our_added, their_added, options, store, kind) == Err::<
            Seq<RenameView>,
            LoadFault,
        >(fault),
    decreases base.len() - n,
{
    if n < base.len() {
        lemma_renames_prefix(base, n + 1, ours, theirs, our_added, their_added, options, store, kind);
        assert(base.take(n + 1).drop_last() =~= base.take(n));
    } else {
        assert(base.take(n) =~= base);
    }
}

/// `m` with what stands at `source` moved to `dest`.
pub open spec fn relocated(m: PathMap, source: Seq<char>, dest: Seq<char>) -> PathMap {
    let from = plain_path(source);
    if m.contains_key(from) {
        m.remove(from).insert(plain_path(dest), m[from])
    } else {
        m
    }
}

/// The three maps of a merge.
pub struct MergeMaps {
    pub base: PathMap,
    pub ours: PathMap,
    pub theirs: PathMap,
}

/// The maps after one rename: the base file and the edit move to the new path.
pub open spec fn apply_one(m: MergeMaps, rename: RenameView) -> MergeMaps {
    MergeMaps {
        base: relocated(m.base, rename.source, rename.dest),
        ours: if rename.renamed_by_ours {
            m.ours
        } else {
            relocated(m.ours, rename.source, rename.dest)
        },
        theirs: if rename.renamed_by_ours {
            relocated(m.theirs, rename.source, rename.dest)
        } else {
            m.theirs
        },
    }
}

/// The maps after all renames.
pub open spec fn apply_all(m: MergeMaps, renames: Seq<RenameView>) -> MergeMaps
    decreases renames.len(),
{
    if renames.len() == 0 {
        m
    } else {
        apply_one(apply_all(m, renames.drop_last()), renames.last())
    }
}

fn relocate(items: &mut TreeItems, source: &str, dest: &str)
    requires
        old(items).wf(),
    ensures
        final(items).wf(),
        final(items)@ == relocated(old(items)@, source@, dest@),
{
    let ghost before = items@;
    match items.remove(source) {
        Some(entry) => {
            items.insert(dest, entry);
        },
        None => {
            assert(before.remove(plain_path(source@)) =~= before);
        },
    }
}

/// Apply a detected rename to the working item maps: move the base entry and
/// the editing side's entry onto the destination path, and drop the source so
/// it resolves as deleted.
pub fn apply_rename(
    base: &mut TreeItems,
    ours: &mut TreeItems,
    theirs: &mut TreeItems,
    rename: &Rename,
)
    requires
        old(base).wf(),
        old(ours).wf(),
        old(theirs).wf(),
    ensures
        final(base).wf(),
        final(ours).wf(),
        final(theirs).wf(),
        (MergeMaps { base: final(base)@, ours: final(ours)@, theirs: final(theirs)@ }) == apply_one(
            MergeMaps { base: old(base)@, ours: old(ours)@, theirs: old(theirs)@ },
            rename@,
        ),
{
    relocate(base, rename.source.as_str(), rename.dest.as_str());
    if rename.renamed_by_ours {
        relocate(theirs, rename.source.as_str(), rename.dest.as_str());
    } else {
        relocate(ours, rename.source.as_str(), rename.dest.as_str());
    }
}

/// The renames that a merge applies: those detected, or none where detection is off.
pub open spec fn applied_renames(
    base: TreeItems,
    ours: TreeItems,
    theirs: TreeItems,
    options: PullMergeOptions,
    store: BlobStore,
    kind: HashKind,
) -> Result<Seq<RenameView>, LoadFault> {
    if options.detect_renames {
        clean_renames(base, ours, theirs, options, store, kind)
    } else {
        Ok(Seq::empty())
    }
}

/// Merges two trees over their base.
///
/// Each detected rename is applied first, so that the renamed file is resolved at its new
/// path and carries the other side's edit; then every path is resolved by itself.
pub fn merge_tree_items_with_options(
    base_items: &TreeItems,
    our_items: &TreeItems,
    their_items: &TreeItems,
    options: &PullMergeOptions,
    store: &BlobStore,
    kind: HashKind,
) -> (r: Result<ThreeWayMergeResult, PullMergeError>)
    requires
        base_items.wf(),
        our_items.wf(),
        their_items.wf(),
    ensures
        match applied_renames(*base_items, *our_items, *their_items, *options, *store, kind) {
            Err(fault) => r matches Err(e) && is_load_error(e, fault),
            Ok(renames) => {
                let m = apply_all(
                    MergeMaps { base: base_items@, ours: our_items@, theirs: their_items@ },
                    renames,
                );
                match r {
                    Ok(merged) => is_merge_of(
                        merged,
                        m.base,
                        m.ours,
                        m.theirs,
                        *options,
                        *store,
                        kind,
                    ),
                    Err(e) => is_merge_fault(
                        e,
                        m.base,
                        m.ours,
                        m.theirs,
                        *options,
                        *store,
                        kind,
                    ),
                }
            },
        },
{
    let mut new_blobs: Vec<NewBlob> = Vec::new();
    let renames = if options.detect_renames {
        match detect_clean_renames(
            base_items,
            our_items,
            their_items,
            options,
            store,
            kind,
            &mut new_blobs,
        ) {
            Ok(renames) => renames,
            Err(e) => {
                return Err(e);
            },
        }
    } else {
        let none: Vec<Rename> = Vec::new();
        assert(rename_views(none@) =~= Seq::<RenameView>::empty());
        none
    };
    let mut base = base_items.copy();
    let mut ours = our_items.copy();
    let mut theirs = their_items.copy();
    let ghost start = MergeMaps { base: base_items@, ours: our_items@, theirs: their_items@ };
    let ghost all = rename_views(renames@);
    let mut i: usize = 0;
    assert(all.take(0) =~= Seq::<RenameView>::empty());
    while i < renames.len()
        invariant
            i <= renames@.len(),
            all == rename_views(renames@),
            base.wf(),
            ours.wf(),
            theirs.wf(),
            (MergeMaps { base: base@, ours: ours@, theirs: theirs@ }) == apply_all(
                start,
                all.take(i as int),
            ),
        decreases renames@.len() - i,
    {
        proof {
            assert(all.take(i as int + 1).drop_last() =~= all.take(i as int));
            assert(all.take(i as int + 1).last() == renames@[i as int]@);
        }
        apply_rename(&mut base, &mut ours, &mut theirs, &renames[i]);
        i = i + 1;
    }
    assert(all.take(all.len() as int) =~= all);
    resolve_item_maps(&base, &ours, &theirs, options, store, kind, new_blobs)
}

proof fn lemma_best_dest_sound(
    entry: MergeTreeEntry,
    candidates: Seq<Seq<char>>,
    side: PathMap,
    used: Seq<Seq<char>>,
    store: BlobStore,
)
    ensures
        leading_dest(entry, candidates, side, used, store) matches Ok(Some(best)) ==> {
            &&& candidates.contains(best.path)
            &&& !used.contains(best.path)
            &&& side.contains_key(best.path)
            &&& similarity(entry, side[best.path], store) == Ok::<Similarity, LoadFault>(best.score)
            &&& best.score.at_least_half()
        },
    decreases candidates.len(),
{
    if candidates.len() > 0 {
        lemma_best_dest_sound(entry, candidates.drop_last(), side, used, store);
        let head = candidates.drop_last();
        if let Ok(Some(best)) = leading_dest(entry, candidates, side, used, store) {
            if head.contains(best.path) {
                let k = choose|k: int| 0 <= k < head.len() && head[k] == best.path;
                assert(candidates[k] == best.path);
            } else {
                assert(candidates[candidates.len() - 1] == best.path);
            }
        }
    }
}

/// What a detected rename promises: one side moved a file of the base to a new path where a
/// file alike by half at least stands, and the other side changed it in place.
pub open spec fn is_sound_rename(
    r: RenameView,
    base: PathMap,
    ours: PathMap,
    theirs: PathMap,
    our_added: Seq<Seq<char>>,
    their_added: Seq<Seq<char>>,
    store: BlobStore,
) -> bool {
    let (mover, editor, added) = if r.renamed_by_ours {
        (ours, theirs, our_added)
    } else {
        (theirs, ours, their_added)
    };
    &&& base.contains_key(r.source)
    &&& !mover.contains_key(r.source)
    &&& editor.contains_key(r.source)
    &&& editor[r.source] != base[r.source]
    &&& added.contains(r.dest)
    &&& mover.contains_key(r.dest)
    &&& similarity(base[r.source], mover[r.dest], store) matches Ok(s) && s.at_least_half()
}

/// Every detected rename is sound, and no two have the same destination.
pub proof fn law_detected_renames_are_sound(
    base: Seq<TreeEntry>,
    ours: PathMap,
    theirs: PathMap,
    our_added: Seq<Seq<char>>,
    their_added: Seq<Seq<char>>,
    options: PullMergeOptions,
    store: BlobStore,
    kind: HashKind,
)
    requires
        distinct_paths(base),
    ensures
        renames_among(base, ours, theirs, our_added, their_added, options, store, kind) matches Ok(
            renames,
        ) ==> {
            &&& rename_dests(renames).no_duplicates()
            &&& forall|i: int|
                0 <= i < renames.len() ==> is_sound_rename(
                    #[trigger] renames[i],
                    items_map(base),
                    ours,
                    theirs,
                    our_added,
                    their_added,
                    store,
                )
        },
    decreases base.len(),
{
    if base.len() == 0 {
        assert(rename_dests(Seq::<RenameView>::empty()) =~= Seq::<Seq<char>>::empty());
    } else {
        let head = base.drop_last();
        let last = base.len() - 1;
        assert(distinct_paths(head)) by {
            assert forall|a: int, b: int| 0 <= a < b < head.len() implies (#[trigger] head[a]).path@ != (
            #[trigger] head[b]).path@ by {
                assert(base[a].path@ != base[b].path@);
            }
        }
        law_detected_renames_are_sound(
            head,
            ours,
            theirs,
            our_added,
            their_added,
            options,
            store,
            kind,
        );
        lemma_items_map_at(base, last);
        if let Ok(renames) = renames_among(
            base,
            ours,
            theirs,
            our_added,
            their_added,
            options,
            store,
            kind,
        ) {
            let before = renames_among(
                head,
                ours,
                theirs,
                our_added,
                their_added,
                options,
                store,
                kind,
            )->Ok_0;
            let used = rename_dests(before);
            lemma_best_dest_sound(base[last].entry, our_added, ours, used, store);
            lemma_best_dest_sound(base[last].entry, their_added, theirs, used, store);
            assert forall|i: int| 0 <= i < renames.len() implies is_sound_rename(
                #[trigger] renames[i],
                items_map(base),
                ours,
                theirs,
                our_added,
                their_added,
                store,
            ) by {
                if i < before.len() {
                    assert(renames[i] == before[i]);
                    let m = items_map(head);
                    assert(is_sound_rename(before[i], m, ours, theirs, our_added, their_added, store));
                    lemma_items_map_contains(head, before[i].source);
                    let k = choose|k: int|
                        0 <= k < head.len() && (#[trigger] head[k]).path@ == before[i].source;
                    assert(base[k] == head[k]);
                    assert(base[k].path@ != base[last].path@);
                }
            }
            if renames.len() > before.len() {
                assert(rename_dests(renames) =~= used.push(renames.last().dest));
                assert(!used.contains(renames.last().dest));
            }
        }
    }
}

/// The paths that a side added are its own that neither the base nor the other side has, in their order.
pub proof fn law_added_paths(items: Seq<TreeEntry>, e: TreeEntry, base: PathMap, other: PathMap)
    ensures
        added_paths(Seq::empty(), base, other) == Seq::<Seq<char>>::empty(),
        !base.contains_key(e.path@) && !other.contains_key(e.path@) ==> added_paths(
            items.push(e),
            base,
            other,
        ) == added_paths(items, base, other).push(e.path@),
        base.contains_key(e.path@) || other.contains_key(e.path@) ==> added_paths(
            items.push(e),
            base,
            other,
        ) == added_paths(items, base, other),
{
    assert(items.push(e).drop_last() =~= items);
}

/// A candidate that is not half alike changes nothing; the first one that is leads, one that is more
/// alike takes the lead, and one that is just as alike makes it a tie.
pub proof fn law_most_alike_leads(best: Option<Leading>, path: Seq<char>, score: Similarity)
    ensures
        !score.at_least_half() ==> next_leading(best, path, score) == best,
        score.at_least_half() && best is None ==> next_leading(best, path, score) == Some(
            Leading { path, score, tied: false },
        ),
        score.at_least_half() ==> (best matches Some(b) ==> {
            &&& score.above(b.score) ==> next_leading(best, path, score) == Some(
                Leading { path, score, tied: false },
            )
            &&& !score.above(b.score) && b.score.above(score) ==> next_leading(best, path, score) == best
            &&& !score.above(b.score) && !b.score.above(score) ==> next_leading(best, path, score) == Some(
                Leading { path: b.path, score: b.score, tied: true },
            )
        }),
{
}

/// Each candidate is looked at in turn, but for those that are taken already or not there; a content
/// that cannot be read ends the search.
pub proof fn law_candidates_are_looked_at_in_turn(
    entry: MergeTreeEntry,
    candidates: Seq<Seq<char>>,
    path: Seq<char>,
    side: PathMap,
    used: Seq<Seq<char>>,
    store: BlobStore,
)
    ensures
        leading_dest(entry, Seq::empty(), side, used, store) == Ok::<Option<Leading>, LoadFault>(None),
        leading_dest(entry, candidates, side, used, store) is Err ==> leading_dest(
            entry,
            candidates.push(path),
            side,
            used,
            store,
        ) == leading_dest(entry, candidates, side, used, store),
        leading_dest(entry, candidates, side, used, store) matches Ok(best) ==> {
            let next = leading_dest(entry, candidates.push(path), side, used, store);
            &&& used.contains(path) || !side.contains_key(path) ==> next == Ok::<Option<Leading>, LoadFault>(
                best,
            )
            &&& !used.contains(path) && side.contains_key(path) ==> match similarity(
                entry,
                side[path],
                store,
            ) {
                Err(fault) => next == Err::<Option<Leading>, LoadFault>(fault),
                Ok(s) => next == Ok::<Option<Leading>, LoadFault>(next_leading(best, path, s)),
            }
        },
        best_dest(entry, candidates, side, used, store) matches Ok(Some(best)) ==> (leading_dest(
            entry,
            candidates,
            side,
            used,
            store,
        ) matches Ok(Some(l)) && !l.tied && l.path == best.0 && l.score == best.1),
        (leading_dest(entry, candidates, side, used, store) matches Ok(Some(l)) && !l.tied) ==> (best_dest(
            entry,
            candidates,
            side,
            used,
            store,
        ) matches Ok(Some(_))),
{
    assert(candidates.push(path).drop_last() =~= candidates);
}

/// A file is taken as renamed where one side lacks it, the other changed it, one new file of the first
/// side is most like it, and the change can be carried over without a conflict; and only there.
pub proof fn law_when_a_file_is_renamed(
    source: Seq<char>,
    entry: MergeTreeEntry,
    ours: PathMap,
    theirs: PathMap,
    our_added: Seq<Seq<char>>,
    their_added: Seq<Seq<char>>,
    used: Seq<Seq<char>>,
    options: PullMergeOptions,
    store: BlobStore,
    kind: HashKind,
)
    ensures
        ({
            let r = rename_of(
                source,
                entry,
                ours,
                theirs,
                our_added,
                their_added,
                used,
                options,
                store,
                kind,
            );
            let by_ours = !ours.contains_key(source) && theirs.contains_key(source) && theirs[source] != entry;
            let by_theirs = !theirs.contains_key(source) && ours.contains_key(source) && ours[source] != entry;
            &&& !by_ours && !by_theirs ==> r == Ok::<Option<RenameView>, LoadFault>(None)
            &&& by_ours ==> (best_dest(entry, our_added, ours, used, store) matches Ok(Some(best)) ==> (
            resolution(Some(entry), lookup(ours, best.0), Some(theirs[source]), options, store, kind) matches Ok(
                outcome,
            ) ==> {
                &&& !(outcome is Conflict) ==> r == Ok::<Option<RenameView>, LoadFault>(
                    Some(RenameView { source, dest: best.0, renamed_by_ours: true }),
                )
                &&& outcome is Conflict ==> r == Ok::<Option<RenameView>, LoadFault>(None)
            }))
            &&& by_ours ==> ((best_dest(entry, our_added, ours, used, store) matches Ok(None)) ==> r == Ok::<
                Option<RenameView>,
                LoadFault,
            >(None))
            &&& by_theirs ==> (best_dest(entry, their_added, theirs, used, store) matches Ok(Some(best)) ==> (
            resolution(Some(entry), Some(ours[source]), lookup(theirs, best.0), options, store, kind) matches Ok(
                outcome,
            ) ==> {
                &&& !(outcome is Conflict) ==> r == Ok::<Option<RenameView>, LoadFault>(
                    Some(RenameView { source, dest: best.0, renamed_by_ours: false }),
                )
                &&& outcome is Conflict ==> r == Ok::<Option<RenameView>, LoadFault>(None)
            }))
            &&& by_theirs ==> ((best_dest(entry, their_added, theirs, used, store) matches Ok(None)) ==> r
                == Ok::<Option<RenameView>, LoadFault>(None))
        }),
{
}

/// Renames are looked for where that is switched on, a side added anything, and there are not too many
/// files to compare; each file of the base is looked at in turn, and a place is taken once.
pub proof fn law_renames_are_looked_for(
    base: TreeItems,
    ours: TreeItems,
    theirs: TreeItems,
    options: PullMergeOptions,
    store: BlobStore,
    kind: HashKind,
    items: Seq<TreeEntry>,
    e: TreeEntry,
)
    ensures
        !options.detect_renames ==> applied_renames(base, ours, theirs, options, store, kind) == Ok::<
            Seq<RenameView>,
            LoadFault,
        >(Seq::empty()),
        ({
            let a = added_paths(ours.items@, base@, theirs@);
            let b = added_paths(theirs.items@, base@, ours@);
            let n = base.items@.len();
            &&& options.detect_renames && (a.len() + b.len() == 0 || n * a.len() > 1000 || n * b.len() > 1000)
                ==> applied_renames(base, ours, theirs, options, store, kind) == Ok::<
                Seq<RenameView>,
                LoadFault,
            >(Seq::empty())
            &&& options.detect_renames && a.len() + b.len() > 0 && n * a.len() <= 1000 && n * b.len() <= 1000
                ==> applied_renames(base, ours, theirs, options, store, kind) == renames_among(
                base.items@,
                ours@,
                theirs@,
                a,
                b,
                options,
                store,
                kind,
            )
            &&& renames_among(Seq::empty(), ours@, theirs@, a, b, options, store, kind) == Ok::<
                Seq<RenameView>,
                LoadFault,
            >(Seq::empty())
            &&& renames_among(items, ours@, theirs@, a, b, options, store, kind) matches Ok(head) ==> match rename_of(
                e.path@,
                e.entry,
                ours@,
                theirs@,
                a,
                b,
                head.map_values(|r: RenameView| r.dest),
                options,
                store,
                kind,
            ) {
                Err(fault) => renames_among(items.push(e), ours@, theirs@, a, b, options, store, kind)
                    == Err::<Seq<RenameView>, LoadFault>(fault),
                Ok(Some(rename)) => renames_among(
                    items.push(e),
                    ours@,
                    theirs@,
                    a,
                    b,
                    options,
                    store,
                    kind,
                ) == Ok::<Seq<RenameView>, LoadFault>(head.push(rename)),
                Ok(None) => renames_among(items.push(e), ours@, theirs@, a, b, options, store, kind)
                    == Ok::<Seq<RenameView>, LoadFault>(head),
            }
        }),
{
    assert(items.push(e).drop_last() =~= items);
    let a = added_paths(ours.items@, base@, theirs@);
    let b = added_paths(theirs.items@, base@, ours@);
    let n = base.items@.len();
    assert(a.len() >= b.len() ==> n * a.len() >= n * b.len()) by (nonlinear_arith);
    assert(b.len() >= a.len() ==> n * b.len() >= n * a.len()) by (nonlinear_arith);
    assert(a.len() == 0 ==> n * a.len() == 0) by (nonlinear_arith);
    assert(b.len() == 0 ==> n * b.len() == 0) by (nonlinear_arith);
}

/// A renamed file is moved as it is: what stood at its old place stands at the new one, nothing stands at
/// the old one, and every other path is left alone.
pub proof fn law_renamed_file_is_moved(m: PathMap, source: Seq<char>, dest: Seq<char>, path: Seq<char>)
    requires
        is_plain(source),
        is_plain(dest),
        source != dest,
    ensures
        m.contains_key(source) ==> {
            &&& lookup(relocated(m, source, dest), dest) == Some(m[source])
            &&& lookup(relocated(m, source, dest), source) is None
            &&& path != source && path != dest ==> lookup(relocated(m, source, dest), path) == lookup(m, path)
        },
        !m.contains_key(source) ==> relocated(m, source, dest) == m,
{
}

/// A rename is carried over to the base and to the side that did not make it; the side that did has it
/// already. Renames are carried over one after the other.
pub proof fn law_rename_is_carried_over(
    m: MergeMaps,
    source: Seq<char>,
    dest: Seq<char>,
    renames: Seq<RenameView>,
    more: RenameView,
)
    ensures
        ({
            let by_ours = apply_one(m, RenameView { source, dest, renamed_by_ours: true });
            let by_theirs = apply_one(m, RenameView { source, dest, renamed_by_ours: false });
            &&& by_ours.base == relocated(m.base, source, dest) && by_ours.ours == m.ours && by_ours.theirs
                == relocated(m.theirs, source, dest)
            &&& by_theirs.base == relocated(m.base, source, dest) && by_theirs.ours == relocated(
                m.ours,
                source,
                dest,
            ) && by_theirs.theirs == m.theirs
        }),
        apply_all(m, Seq::empty()) == m,
        apply_all(m, renames.push(more)) == apply_one(apply_all(m, renames), more),
{
    assert(renames.push(more).drop_last() =~= renames);
}

} // verus!
