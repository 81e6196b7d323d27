//! The index of a merge: staged files, conflict stages and what is still unresolved.

use git_internal::internal::index::Index;
use vstd::prelude::*;

use crate::merge::PullMergeError;
use crate::merge::conflict::{
    index_mode, index_mode_to_tree_item_mode, tree_item_mode_to_index_mode, tree_mode,
};
use crate::merge::content::{load_merge_blob, BlobStore};
use crate::merge::items::{
    items_map, lemma_items_map_at, lookup, MergeTreeEntry, TreeEntry, TreeItems,
};
use crate::merge::three_way::{conflict_paths, PathConflict, PathMap};
use crate::object::{
    is_object_text, law_object_text_form, object_id_of_text, ObjectId, TreeItemMode,
};
use crate::paths::{in_order, is_plain, plain_path, sort_texts, text_lt};
use crate::text::{clone_texts, concat6, contains_text, lower, octal, texts};

verus! {

/// `git_internal::internal::index::Index`: the staged files of a repository.
#[verifier::external_type_specification]
#[verifier::external_body]
pub struct ExIndex(git_internal::internal::index::Index);

/// One file as the index holds it.
#[derive(Debug)]
pub struct StagedFile {
    pub name: String,
    pub mode: u32,
    pub hash: String,
    pub size: u32,
}

/// Entries by name and stage: mode, object name and size.
pub type StageMap = Map<(Seq<char>, u8), (u32, Seq<char>, u32)>;

/// What an index holds: for a name and a stage the mode, the object name in lower-case
/// hexadecimal digits, and the size.
pub uninterp spec fn index_entries(index: Index) -> Map<(Seq<char>, u8), (u32, Seq<char>, u32)>;

/// `Index::new`: an index without entries.
#[verifier::external_body]
fn index_new() -> (r: Index)
    ensures
        index_entries(r) == StageMap::empty(),
{
    Index::new()
}

/// `Index::add`: the entry takes the place of the one under the same name and stage.
#[verifier::external_body]
fn index_add(index: &mut Index, name: &str, hash: &str, size: u32, mode: u32, stage: u8)
    requires
        is_object_text(hash@),
    ensures
        index_entries(*final(index)) == index_entries(*old(index)).insert(
            (name@, stage),
            (mode, lower(hash@), size),
        ),
{
    if let Ok(id) = hash.parse::<git_internal::hash::ObjectHash>() {
        let mut entry = git_internal::internal::index::IndexEntry::new_from_blob(
            name.to_string(),
            id,
            size,
        );
        entry.mode = mode;
        entry.flags.stage = stage;
        index.add(entry);
    }
}

pub open spec fn staged_names(files: Seq<StagedFile>) -> Seq<Seq<char>> {
    files.map_values(|f: StagedFile| f.name@)
}

/// `files` are the entries of one stage, each once, in ascending order of their names.
pub open spec fn is_stage(files: Seq<StagedFile>, index: Index, stage: u8) -> bool {
    &&& forall|i: int, j: int|
        0 <= i < j < files.len() ==> text_lt((#[trigger] files[i]).name@, (#[trigger] files[j]).name@)
    &&& forall|i: int|
        0 <= i < files.len() ==> index_entries(index).contains_key(
            ((#[trigger] files[i]).name@, stage),
        ) && index_entries(index)[(files[i].name@, stage)] == (
            files[i].mode,
            files[i].hash@,
            files[i].size,
        ) && is_object_text(files[i].hash@)
    &&& forall|name: Seq<char>|
        #![trigger index_entries(index).contains_key((name, stage))]
        index_entries(index).contains_key((name, stage)) ==> staged_names(files).contains(name)
}

/// `Index::tracked_entries`: the entries of one stage, in the order of their names.
#[verifier::external_body]
pub(crate) fn tracked_entries(index: &Index, stage: u8) -> (r: Vec<StagedFile>)
    ensures
        is_stage(r@, *index, stage),
{
    index.tracked_entries(stage).into_iter().map(|entry| StagedFile {
        name: entry.name.clone(),
        mode: entry.mode,
        hash: entry.hash.to_string(),
        size: entry.size,
    }).collect()
}

/// A path is staged as a conflict.
pub open spec fn conflict_staged(index: Index, path: Seq<char>) -> bool {
    index_entries(index).contains_key((path, 1)) || index_entries(index).contains_key((path, 2))
        || index_entries(index).contains_key((path, 3))
}

/// A path is staged as a conflict, and no resolution is staged.
pub open spec fn unresolved(index: Index, path: Seq<char>) -> bool {
    conflict_staged(index, path) && !index_entries(index).contains_key((path, 0))
}

fn add_stage_names(out: &mut Vec<String>, files: &Vec<StagedFile>)
    requires
        texts(old(out)@).no_duplicates(),
    ensures
        texts(final(out)@).no_duplicates(),
        forall|p: Seq<char>|
            #![trigger texts(final(out)@).contains(p)]
            texts(final(out)@).contains(p) <==> texts(old(out)@).contains(p) || staged_names(
                files@,
            ).contains(p),
{
    let ghost start = texts(out@);
    let ghost names = staged_names(files@);
    let mut i: usize = 0;
    assert(names.take(0) =~= Seq::<Seq<char>>::empty());
    while i < files.len()
        invariant
            i <= files@.len(),
            names == staged_names(files@),
            texts(out@).no_duplicates(),
            forall|p: Seq<char>|
                #![trigger texts(out@).contains(p)]
                texts(out@).contains(p) <==> start.contains(p) || names.take(i as int).contains(p),
        decreases files@.len() - i,
    {
        let ghost before = texts(out@);
        let ghost here = files@[i as int].name@;
        let known = contains_text(out, files[i].name.as_str());
        if !known {
            out.push(files[i].name.clone());
            assert(texts(out@) =~= before.push(here));
        }
        proof {
            assert(names.take(i as int + 1) =~= names.take(i as int).push(here));
            assert forall|p: Seq<char>|
                #![trigger texts(out@).contains(p)]
                texts(out@).contains(p) <==> start.contains(p) || names.take(i as int + 1).contains(p) by {
                lemma_push_contains(names.take(i as int), here, p);
                lemma_push_contains(before, here, p);
                assert(before.contains(p) <==> start.contains(p) || names.take(i as int).contains(p));
            }
        }
        i = i + 1;
    }
    assert(names.take(names.len() as int) =~= names);
}

proof fn lemma_push_contains(s: Seq<Seq<char>>, x: Seq<char>, p: Seq<char>)
    ensures
        s.push(x).contains(p) <==> s.contains(p) || p == x,
{
    if s.contains(p) {
        let k = choose|k: int| 0 <= k < s.len() && s[k] == p;
        assert(s.push(x)[k] == p);
    }
    if p == x {
        assert(s.push(x)[s.len() as int] == p);
    }
    if s.push(x).contains(p) {
        let k = choose|k: int| 0 <= k < s.push(x).len() && s.push(x)[k] == p;
        if k < s.len() {
            assert(s[k] == p);
        }
    }
}

proof fn lemma_stage_names(files: Seq<StagedFile>, index: Index, stage: u8)
    requires
        is_stage(files, index, stage),
    ensures
        forall|p: Seq<char>|
            #![trigger staged_names(files).contains(p)]
            staged_names(files).contains(p) <==> index_entries(index).contains_key((p, stage)),
{
    assert forall|p: Seq<char>|
        #![trigger staged_names(files).contains(p)]
        staged_names(files).contains(p) implies index_entries(index).contains_key((p, stage)) by {
        let k = choose|k: int| 0 <= k < staged_names(files).len() && staged_names(files)[k] == p;
        assert(files[k].name@ == p);
    }
}

/// The paths that are staged as conflicts, each once.
pub fn staged_conflict_paths(index: &Index) -> (r: Vec<String>)
    ensures
        texts(r@).no_duplicates(),
        forall|p: Seq<char>|
            #![trigger texts(r@).contains(p)]
            texts(r@).contains(p) <==> conflict_staged(*index, p),
{
    let mut out: Vec<String> = Vec::new();
    assert(texts(out@) =~= Seq::<Seq<char>>::empty());
    let first = tracked_entries(index, 1);
    let second = tracked_entries(index, 2);
    let third = tracked_entries(index, 3);
    proof {
        lemma_stage_names(first@, *index, 1);
        lemma_stage_names(second@, *index, 2);
        lemma_stage_names(third@, *index, 3);
    }
    add_stage_names(&mut out, &first);
    add_stage_names(&mut out, &second);
    add_stage_names(&mut out, &third);
    out
}

/// The paths of `conflicted` that are staged as conflicts and not resolved, each as often as it is
/// listed; of all paths where the list is empty. In ascending order.
pub fn unresolved_conflicted_paths(index: &Index, conflicted_paths: &Vec<String>) -> (r: Vec<String>)
    ensures
        in_order(false, texts(r@)),
        forall|p: Seq<char>|
            #![trigger texts(r@).contains(p)]
            texts(r@).contains(p) <==> unresolved(*index, p) && (conflicted_paths@.len() == 0 || texts(
                conflicted_paths@,
            ).contains(p)),
        conflicted_paths@.len() == 0 || texts(conflicted_paths@).no_duplicates() ==> texts(
            r@,
        ).no_duplicates(),
        conflicted_paths@.len() > 0 ==> texts(r@).to_multiset() == texts(conflicted_paths@).filter(
            |p: Seq<char>| unresolved(*index, p),
        ).to_multiset(),
{
    let staged = staged_conflict_paths(index);
    let resolved = tracked_entries(index, 0);
    let mut resolved_names: Vec<String> = Vec::new();
    proof {
        assert(texts(resolved_names@) =~= Seq::<Seq<char>>::empty());
        lemma_stage_names(resolved@, *index, 0);
    }
    add_stage_names(&mut resolved_names, &resolved);
    let all_paths = conflicted_paths.is_empty();
    let source = if all_paths {
        clone_texts(&staged)
    } else {
        clone_texts(conflicted_paths)
    };
    let ghost from = texts(source@);
    let mut out: Vec<String> = Vec::new();
    let mut i: usize = 0;
    let ghost open = |p: Seq<char>| unresolved(*index, p);
    assert(texts(out@) =~= Seq::<Seq<char>>::empty());
    assert(from.take(0) =~= Seq::<Seq<char>>::empty());
    assert(from.take(0).filter(open) =~= Seq::<Seq<char>>::empty()) by {
        reveal(Seq::filter);
    }
    while i < source.len()
        invariant
            i <= source@.len(),
            from == texts(source@),
            open == |p: Seq<char>| unresolved(*index, p),
            texts(out@) == from.take(i as int).filter(open),
            forall|p: Seq<char>|
                #![trigger texts(staged@).contains(p)]
                texts(staged@).contains(p) <==> conflict_staged(*index, p),
            forall|p: Seq<char>|
                #![trigger texts(resolved_names@).contains(p)]
                texts(resolved_names@).contains(p) <==> index_entries(*index).contains_key((p, 0)),
            forall|p: Seq<char>|
                #![trigger texts(out@).contains(p)]
                texts(out@).contains(p) <==> unresolved(*index, p) && from.take(i as int).contains(p),
            from.no_duplicates() ==> texts(out@).no_duplicates(),
        decreases source@.len() - i,
    {
        let ghost before = texts(out@);
        let ghost here = source@[i as int]@;
        proof {
            assert(from.take(i as int + 1) =~= from.take(i as int).push(here));
            assert(from.take(i as int + 1).drop_last() =~= from.take(i as int));
            assert(from.take(i as int + 1).filter(open) == if open(here) {
                from.take(i as int).filter(open).push(here)
            } else {
                from.take(i as int).filter(open)
            }) by {
                reveal(Seq::filter);
            }
            if from.no_duplicates() && from.take(i as int).contains(here) {
                let k = choose|k: int| 0 <= k < from.take(i as int).len() && from.take(i as int)[k] == here;
                assert(from[k] == from[i as int]);
            }
            assert(before.contains(here) ==> from.take(i as int).contains(here));
        }
        if contains_text(&staged, source[i].as_str()) && !contains_text(
            &resolved_names,
            source[i].as_str(),
        ) {
            out.push(source[i].clone());
            assert(texts(out@) =~= before.push(here));
        }
        proof {
            assert forall|p: Seq<char>|
                #![trigger texts(out@).contains(p)]
                texts(out@).contains(p) <==> unresolved(*index, p) && from.take(i as int + 1).contains(p) by {
                lemma_push_contains(from.take(i as int), here, p);
                lemma_push_contains(before, here, p);
                assert(before.contains(p) <==> unresolved(*index, p) && from.take(i as int).contains(p));
            }
        }
        i = i + 1;
    }
    proof {
        assert(from.take(from.len() as int) =~= from);
    }
    let ghost unsorted = texts(out@);
    let sorted = sort_texts(out, false);
    proof {
        if unsorted.no_duplicates() {
            unsorted.lemma_multiset_has_no_duplicates();
            texts(sorted@).lemma_multiset_has_no_duplicates_conv();
        }
        assert forall|p: Seq<char>|
            #![trigger texts(sorted@).contains(p)]
            texts(sorted@).contains(p) <==> unresolved(*index, p) && (conflicted_paths@.len() == 0
                || texts(conflicted_paths@).contains(p)) by {
            assert(texts(sorted@).contains(p) <==> unsorted.contains(p));
            if all_paths && unresolved(*index, p) {
                assert(texts(staged@).contains(p));
            }
        }
    }
    sorted
}

/// Whether any conflict is staged that has no resolution.
pub fn has_unmerged_entries(index: &Index) -> (r: bool)
    ensures
        r == exists|p: Seq<char>| unresolved(*index, p),
{
    let none: Vec<String> = Vec::new();
    let paths = unresolved_conflicted_paths(index, &none);
    let r = !paths.is_empty();
    proof {
        if r {
            assert(texts(paths@)[0] == paths@[0]@);
            assert(texts(paths@).contains(paths@[0]@));
            assert(unresolved(*index, paths@[0]@));
        } else {
            assert forall|p: Seq<char>| !unresolved(*index, p) by {
                assert(!texts(paths@).contains(p));
            }
        }
    }
    r
}

/// What a tree holds for a staged file.
pub open spec fn staged_item(file: StagedFile) -> MergeTreeEntry {
    MergeTreeEntry { hash: ObjectId::of_text(file.hash@), mode: tree_mode(file.mode)->0 }
}

/// The tree of staged files: of two names of one path the later counts.
pub open spec fn staged_tree(files: Seq<StagedFile>) -> PathMap
    decreases files.len(),
{
    if files.len() == 0 {
        Map::empty()
    } else {
        staged_tree(files.drop_last()).insert(
            plain_path(files.last().name@),
            staged_item(files.last()),
        )
    }
}

/// The first file, in the order of their names, with a mode that trees do not know.
pub open spec fn first_odd_mode(files: Seq<StagedFile>) -> Option<u32>
    decreases files.len(),
{
    if files.len() == 0 {
        None
    } else if tree_mode(files[0].mode) is None {
        Some(files[0].mode)
    } else {
        first_odd_mode(files.drop_first())
    }
}

/// What the staged files of an index make up, or why they make up no tree.
pub open spec fn is_index_tree(
    r: Result<TreeItems, PullMergeError>,
    index: Index,
    files: Seq<StagedFile>,
) -> bool {
    &&& is_stage(files, index, 0)
    &&& match (r, first_odd_mode(files)) {
        (Ok(items), None) => items.wf() && items@ == staged_tree(files),
        (Err(e), Some(mode)) => e matches PullMergeError::TreeCreate(d) && d@
            == "unsupported index mode "@ + octal(mode as nat) + " while creating merge tree"@,
        _ => false,
    }
}

/// The staged files as a tree. Refused where one has a mode that trees do not know.
pub fn index_tree_items(index: &Index) -> (r: Result<TreeItems, PullMergeError>)
    ensures
        exists|files: Seq<StagedFile>| is_index_tree(r, *index, files),
{
    let files = tracked_entries(index, 0);
    let ghost all = files@;
    let mut items = TreeItems::new();
    let mut i: usize = 0;
    proof {
        assert(all.skip(0) =~= all);
        assert(all.take(0) =~= Seq::<StagedFile>::empty());
    }
    while i < files.len()
        invariant
            i <= files@.len(),
            all == files@,
            is_stage(all, *index, 0),
            items.wf(),
            items@ == staged_tree(all.take(i as int)),
            first_odd_mode(all) == first_odd_mode(all.skip(i as int)),
        decreases files@.len() - i,
    {
        proof {
            assert(all.skip(i as int)[0] == all[i as int]);
            assert(all.skip(i as int).drop_first() =~= all.skip(i as int + 1));
            assert(all.take(i as int + 1).drop_last() =~= all.take(i as int));
            assert(all.take(i as int + 1).last() == all[i as int]);
        }
        let mode = match index_mode_to_tree_item_mode(files[i].mode) {
            Ok(mode) => mode,
            Err(e) => {
                let r: Result<TreeItems, PullMergeError> = Err(e);
                assert(is_index_tree(r, *index, all));
                return r;
            },
        };
        assert(is_object_text(files@[i as int].hash@));
        let hash = object_id_of_text(files[i].hash.as_str());
        items.insert(files[i].name.as_str(), MergeTreeEntry { hash, mode });
        i = i + 1;
    }
    assert(all.take(all.len() as int) =~= all);
    let r: Result<TreeItems, PullMergeError> = Ok(items);
    assert(is_index_tree(r, *index, all));
    r
}

/// Where every staged name is plain, the tree of an index holds at each path what is staged there.
pub proof fn law_index_tree_holds_what_is_staged(
    items: TreeItems,
    index: Index,
    files: Seq<StagedFile>,
    path: Seq<char>,
)
    requires
        is_index_tree(Ok(items), index, files),
        forall|i: int| 0 <= i < files.len() ==> is_plain((#[trigger] files[i]).name@),
    ensures
        items@.contains_key(path) <==> index_entries(index).contains_key((path, 0)),
        items@.contains_key(path) ==> {
            let staged = index_entries(index)[(path, 0)];
            tree_mode(staged.0) == Some(items@[path].mode) && items@[path].hash == ObjectId::of_text(
                staged.1,
            )
        },
{
    lemma_staged_tree(files, path);
    lemma_stage_names(files, index, 0);
    if items@.contains_key(path) {
        let k = choose|k: int|
            0 <= k < files.len() && (#[trigger] files[k]).name@ == path && staged_tree(files)[path]
                == staged_item(files[k]);
        assert(index_entries(index).contains_key((files[k].name@, 0)));
        lemma_known_mode(files, k);
    }
    if index_entries(index).contains_key((path, 0)) {
        assert(staged_names(files).contains(path));
        let k = choose|k: int| 0 <= k < staged_names(files).len() && staged_names(files)[k] == path;
        assert(files[k].name@ == path);
    }
}

proof fn lemma_known_mode(files: Seq<StagedFile>, k: int)
    requires
        first_odd_mode(files) is None,
        0 <= k < files.len(),
    ensures
        tree_mode(files[k].mode) is Some,
    decreases files.len(),
{
    if k > 0 {
        lemma_known_mode(files.drop_first(), k - 1);
    }
}

proof fn lemma_staged_tree(files: Seq<StagedFile>, path: Seq<char>)
    requires
        forall|i: int| 0 <= i < files.len() ==> is_plain((#[trigger] files[i]).name@),
    ensures
        staged_tree(files).contains_key(path) ==> exists|k: int|
            0 <= k < files.len() && (#[trigger] files[k]).name@ == path && staged_tree(files)[path]
                == staged_item(files[k]),
        forall|k: int|
            0 <= k < files.len() && (#[trigger] files[k]).name@ == path ==> staged_tree(
                files,
            ).contains_key(path),
    decreases files.len(),
{
    if files.len() > 0 {
        let head = files.drop_last();
        let last = files.len() - 1;
        assert forall|i: int| 0 <= i < head.len() implies is_plain((#[trigger] head[i]).name@) by {
            assert(is_plain(files[i].name@));
        }
        lemma_staged_tree(head, path);
        assert(is_plain(files[last].name@));
        if files[last].name@ != path {
            if staged_tree(files).contains_key(path) {
                let k = choose|k: int|
                    0 <= k < head.len() && (#[trigger] head[k]).name@ == path && staged_tree(
                        head,
                    )[path] == staged_item(head[k]);
                assert(files[k].name@ == path);
            }
            assert forall|k: int| 0 <= k < files.len() && (#[trigger] files[k]).name@ == path implies staged_tree(
                files,
            ).contains_key(path) by {
                assert(head[k].name@ == path);
            }
        }
    }
}

/// What the index holds for an item.
pub open spec fn staged_value(item: MergeTreeEntry, store: BlobStore) -> (u32, Seq<char>, u32) {
    (index_mode(item.mode)->0, item.hash.text(), store.load(item.hash)->Ok_0.len() as u32)
}

/// An item that can be staged: its blob can be read and its mode stands for a file.
pub open spec fn can_stage(item: MergeTreeEntry, store: BlobStore) -> bool {
    store.load(item.hash) is Ok && index_mode(item.mode) is Some
}

/// Why an item could not be staged at `path`.
pub open spec fn is_staging_error(
    e: PullMergeError,
    path: Seq<char>,
    item: MergeTreeEntry,
    store: BlobStore,
) -> bool {
    match store.load(item.hash) {
        Err(detail) => e matches PullMergeError::IndexSave(d) && d@ == "failed to load blob "@
            + item.hash.text() + " for index entry '"@ + path + "': "@ + detail,
        Ok(_) => index_mode(item.mode) is None && (e matches PullMergeError::IndexSave(d) && d@ == (
        if item.mode == TreeItemMode::Tree {
            "tree entry cannot be represented as a file index entry"@
        } else {
            "gitlink entries are not supported by merge"@
        })),
    }
}

/// Stages an item at `path`.
pub fn add_blob_index_entry(
    index: &mut Index,
    path: &str,
    item: MergeTreeEntry,
    stage: u8,
    store: &BlobStore,
) -> (r: Result<(), PullMergeError>)
    ensures
        match r {
            Ok(_) => can_stage(item, *store) && index_entries(*final(index)) == index_entries(
                *old(index),
            ).insert((path@, stage), staged_value(item, *store)),
            Err(e) => !can_stage(item, *store) && is_staging_error(e, path@, item, *store)
                && *final(index) == *old(index),
        },
{
    let size: u32 = match load_merge_blob(store, item.hash) {
        Ok(data) => data.len() as u32,
        Err(PullMergeError::ObjectLoad { object_id, detail }) => {
            return Err(
                PullMergeError::IndexSave(
                    concat6(
                        "failed to load blob ",
                        object_id.as_str(),
                        " for index entry '",
                        path,
                        "': ",
                        detail.as_str(),
                    ),
                ),
            );
        },
        Err(e) => {
            return Err(e);
        },
    };
    let mode = match tree_item_mode_to_index_mode(item.mode) {
        Ok(mode) => mode,
        Err(e) => return Err(e),
    };
    let hash = item.hash.to_string();
    proof {
        law_object_text_form(item.hash);
    }
    index_add(index, path, hash.as_str(), size, mode, stage);
    Ok(())
}

/// The item that belongs at a path and stage: the merged file, or in a conflict the version of
/// the base, of ours and of theirs.
pub open spec fn stage_item(
    merged: PathMap,
    conflicts: Seq<Seq<char>>,
    base: PathMap,
    ours: PathMap,
    theirs: PathMap,
    path: Seq<char>,
    stage: u8,
) -> Option<MergeTreeEntry> {
    if stage == 0 {
        lookup(merged, path)
    } else if !conflicts.contains(path) {
        None
    } else if stage == 1 {
        lookup(base, path)
    } else if stage == 2 {
        lookup(ours, path)
    } else if stage == 3 {
        lookup(theirs, path)
    } else {
        None
    }
}

/// The index holds `item` at a path and stage, or nothing where there is no item.
pub open spec fn stage_is(
    index: Index,
    path: Seq<char>,
    stage: u8,
    item: Option<MergeTreeEntry>,
    store: BlobStore,
) -> bool {
    match item {
        Some(entry) => can_stage(entry, store) && index_entries(index).contains_key((path, stage))
            && index_entries(index)[(path, stage)] == staged_value(entry, store),
        None => !index_entries(index).contains_key((path, stage)),
    }
}

spec fn holds_until(
    index: Index,
    titems: Seq<TreeEntry>,
    n: int,
    conflicts: Seq<Seq<char>>,
    base: PathMap,
    ours: PathMap,
    theirs: PathMap,
    store: BlobStore,
) -> bool {
    forall|p: Seq<char>, s: u8|
        #[trigger] stage_is(index, p, s, stage_item(items_map(titems.take(n)), conflicts, base, ours, theirs, p, s), store)
}

/// The index of a merge with conflicts: the merged files, and the versions of each file in
/// conflict under its stages.
pub fn build_conflict_index(
    merged: &TreeItems,
    conflicts: &Vec<PathConflict>,
    base: &TreeItems,
    ours: &TreeItems,
    theirs: &TreeItems,
    store: &BlobStore,
) -> (r: Result<Index, PullMergeError>)
    requires
        merged.wf(),
        base.wf(),
        ours.wf(),
        theirs.wf(),
    ensures
        match r {
            Ok(index) => forall|p: Seq<char>, s: u8|
                #[trigger] stage_is(index, p, s, stage_item(
                    merged@,
                    conflict_paths(conflicts@),
                    base@,
                    ours@,
                    theirs@,
                    p,
                    s,
                ), *store),
            Err(e) => exists|p: Seq<char>, s: u8|
                (#[trigger] stage_item(
                    merged@,
                    conflict_paths(conflicts@),
                    base@,
                    ours@,
                    theirs@,
                    p,
                    s,
                )) matches Some(item) && !can_stage(item, *store) && is_staging_error(
                    e,
                    p,
                    item,
                    *store,
                ),
        },
{
    let ghost titems = merged.items@;
    let ghost cpaths = conflict_paths(conflicts@);
    let ghost none = Seq::<Seq<char>>::empty();
    let mut index = index_new();
    let mut i: usize = 0;
    proof {
        assert(titems.take(0) =~= Seq::<TreeEntry>::empty());
    }
    while i < merged.items.len()
        invariant
            merged.wf(),
            i <= merged.items@.len(),
            titems == merged.items@,
            none == Seq::<Seq<char>>::empty(),
            cpaths == conflict_paths(conflicts@),
            holds_until(index, titems, i as int, none, base@, ours@, theirs@, *store),
        decreases merged.items@.len() - i,
    {
        let ghost here = titems[i as int].path@;
        let ghost before = index;
        let item = merged.items[i].entry;
        let done = add_blob_index_entry(&mut index, merged.items[i].path.as_str(), item, 0, store);
        if let Err(e) = done {
            proof {
                lemma_items_map_at(titems, i as int);
                assert(stage_item(merged@, cpaths, base@, ours@, theirs@, here, 0) == Some(item));
            }
            return Err(e);
        }
        proof {
            assert(titems.take(i as int + 1).drop_last() =~= titems.take(i as int));
            assert(titems.take(i as int + 1).last() == titems[i as int]);
            assert forall|p: Seq<char>, s: u8|
                #[trigger] stage_is(index, p, s, stage_item(
                    items_map(titems.take(i as int + 1)),
                    none,
                    base@,
                    ours@,
                    theirs@,
                    p,
                    s,
                ), *store) by {
                assert(stage_is(
                    before,
                    p,
                    s,
                    stage_item(items_map(titems.take(i as int)), none, base@, ours@, theirs@, p, s),
                    *store,
                ));
            }
        }
        i = i + 1;
    }
    assert(titems.take(titems.len() as int) =~= titems);
    let mut k: usize = 0;
    assert(cpaths.take(0) =~= none);
    while k < conflicts.len()
        invariant
            base.wf(),
            ours.wf(),
            theirs.wf(),
            k <= conflicts@.len(),
            titems == merged.items@,
            titems.take(titems.len() as int) == titems,
            cpaths == conflict_paths(conflicts@),
            holds_until(
                index,
                titems,
                titems.len() as int,
                cpaths.take(k as int),
                base@,
                ours@,
                theirs@,
                *store,
            ),
        decreases conflicts@.len() - k,
    {
        let ghost here = cpaths[k as int];
        let ghost start = index;
        let path = conflicts[k].path.as_str();
        proof {
            assert(cpaths.contains(here));
            assert(cpaths.take(k as int + 1) =~= cpaths.take(k as int).push(here));
        }
        if let Some(item) = base.get_at(path) {
            if let Err(e) = add_blob_index_entry(&mut index, path, item, 1, store) {
                assert(stage_item(merged@, cpaths, base@, ours@, theirs@, here, 1) == Some(item));
                return Err(e);
            }
        }
        let ghost after_base = index;
        if let Some(item) = ours.get_at(path) {
            if let Err(e) = add_blob_index_entry(&mut index, path, item, 2, store) {
                assert(stage_item(merged@, cpaths, base@, ours@, theirs@, here, 2) == Some(item));
                return Err(e);
            }
        }
        let ghost after_ours = index;
        if let Some(item) = theirs.get_at(path) {
            if let Err(e) = add_blob_index_entry(&mut index, path, item, 3, store) {
                assert(stage_item(merged@, cpaths, base@, ours@, theirs@, here, 3) == Some(item));
                return Err(e);
            }
        }
        proof {
            assert forall|p: Seq<char>, s: u8|
                #[trigger] stage_is(
                    index,
                    p,
                    s,
                    stage_item(
                        items_map(titems.take(titems.len() as int)),
                        cpaths.take(k as int + 1),
                        base@,
                        ours@,
                        theirs@,
                        p,
                        s,
                    ),
                    *store,
                ) by {
                lemma_push_contains(cpaths.take(k as int), here, p);
                assert(stage_is(
                    start,
                    p,
                    s,
                    stage_item(
                        items_map(titems.take(titems.len() as int)),
                        cpaths.take(k as int),
                        base@,
                        ours@,
                        theirs@,
                        p,
                        s,
                    ),
                    *store,
                ));
            }
        }
        k = k + 1;
    }
    assert(cpaths.take(cpaths.len() as int) =~= cpaths);
    Ok(index)
}

/// The files that the index of a conflicted merge holds as unresolved are those in conflict, where
/// no file is both merged and in conflict and a file in conflict is in one of the three trees.
pub proof fn law_conflict_index_is_unresolved(
    index: Index,
    merged: PathMap,
    conflicts: Seq<Seq<char>>,
    base: PathMap,
    ours: PathMap,
    theirs: PathMap,
    store: BlobStore,
)
    requires
        forall|p: Seq<char>| conflicts.contains(p) ==> !(#[trigger] merged.contains_key(p)),
        forall|p: Seq<char>|
            #[trigger] conflicts.contains(p) ==> base.contains_key(p) || ours.contains_key(p)
                || theirs.contains_key(p),
        forall|p: Seq<char>, s: u8|
            #[trigger] stage_is(index, p, s, stage_item(merged, conflicts, base, ours, theirs, p, s), store),
    ensures
        forall|p: Seq<char>| #[trigger] unresolved(index, p) <==> conflicts.contains(p),
{
    assert forall|p: Seq<char>| #[trigger] unresolved(index, p) <==> conflicts.contains(p) by {
        assert(stage_is(index, p, 0, stage_item(merged, conflicts, base, ours, theirs, p, 0), store));
        assert(stage_is(index, p, 1, stage_item(merged, conflicts, base, ours, theirs, p, 1), store));
        assert(stage_is(index, p, 2, stage_item(merged, conflicts, base, ours, theirs, p, 2), store));
        assert(stage_is(index, p, 3, stage_item(merged, conflicts, base, ours, theirs, p, 3), store));
        assert(conflicts.contains(p) ==> !merged.contains_key(p));
    }
}

/// A path is in conflict where one of the three sides is staged for it, and stays so until the resolved
/// file is staged.
pub proof fn law_unresolved_path(index: Index, path: Seq<char>)
    ensures
        conflict_staged(index, path) <==> exists|stage: u8|
            1 <= stage <= 3 && index_entries(index).contains_key((path, stage)),
        unresolved(index, path) <==> !index_entries(index).contains_key((path, 0u8)) && exists|stage: u8|
            1 <= stage <= 3 && index_entries(index).contains_key((path, stage)),
{
    if exists|stage: u8| 1 <= stage <= 3 && index_entries(index).contains_key((path, stage)) {
        let stage = choose|stage: u8| 1 <= stage <= 3 && index_entries(index).contains_key((path, stage));
        assert(stage == 1 || stage == 2 || stage == 3);
    }
    assert(index_entries(index).contains_key((path, 1u8)) ==> exists|stage: u8|
        1 <= stage <= 3 && index_entries(index).contains_key((path, stage)));
    assert(index_entries(index).contains_key((path, 2u8)) ==> exists|stage: u8|
        1 <= stage <= 3 && index_entries(index).contains_key((path, stage)));
    assert(index_entries(index).contains_key((path, 3u8)) ==> exists|stage: u8|
        1 <= stage <= 3 && index_entries(index).contains_key((path, stage)));
}

/// A tree of staged files holds each of them where its name says, with its own object and mode; of two at
/// one place the later.
pub proof fn law_staged_files_are_in_the_tree(files: Seq<StagedFile>, f: StagedFile, path: Seq<char>)
    ensures
        !staged_tree(Seq::empty()).contains_key(path),
        tree_mode(f.mode) matches Some(mode) ==> lookup(staged_tree(files.push(f)), plain_path(f.name@))
            == Some(MergeTreeEntry { hash: ObjectId::of_text(f.hash@), mode }),
        path != plain_path(f.name@) ==> lookup(staged_tree(files.push(f)), path) == lookup(
            staged_tree(files),
            path,
        ),
{
    assert(files.push(f).drop_last() =~= files);
}

/// The mode that is told as unsupported is the first that no tree has.
pub proof fn law_first_unsupported_mode(files: Seq<StagedFile>)
    ensures
        match first_odd_mode(files) {
            None => forall|i: int| 0 <= i < files.len() ==> tree_mode((#[trigger] files[i]).mode) is Some,
            Some(mode) => exists|i: int|
                0 <= i < files.len() && (#[trigger] files[i]).mode == mode && tree_mode(mode) is None
                    && forall|j: int| 0 <= j < i ==> tree_mode((#[trigger] files[j]).mode) is Some,
        },
    decreases files.len(),
{
    if files.len() > 0 {
        if tree_mode(files[0].mode) is None {
            assert(first_odd_mode(files) == Some(files[0].mode));
        } else {
            let rest = files.drop_first();
            law_first_unsupported_mode(rest);
            match first_odd_mode(rest) {
                None => {
                    assert forall|i: int| 0 <= i < files.len() implies tree_mode((#[trigger] files[i]).mode) is Some by {
                        if i > 0 {
                            assert(rest[i - 1] == files[i]);
                        }
                    }
                },
                Some(mode) => {
                    let i = choose|i: int|
                        0 <= i < rest.len() && (#[trigger] rest[i]).mode == mode && tree_mode(mode) is None
                            && forall|j: int| 0 <= j < i ==> tree_mode((#[trigger] rest[j]).mode) is Some;
                    assert(files[i + 1] == rest[i]);
                    assert forall|j: int| 0 <= j < i + 1 implies tree_mode((#[trigger] files[j]).mode) is Some by {
                        if j > 0 {
                            assert(rest[j - 1] == files[j]);
                        }
                    }
                },
            }
        }
    }
}

/// What is staged of an item is its mode, its object and the size of its content; it can be staged where
/// its content can be read and it is a file or a link.
pub proof fn law_what_is_staged(item: MergeTreeEntry, store: BlobStore)
    ensures
        can_stage(item, store) <==> store.load(item.hash) is Ok && item.mode != TreeItemMode::Tree && item.mode
            != TreeItemMode::Commit,
        can_stage(item, store) ==> {
            let staged = staged_value(item, store);
            &&& tree_mode(staged.0) == Some(item.mode)
            &&& staged.1 == item.hash.text()
            &&& staged.2 == store.load(item.hash)->Ok_0.len() as u32
        },
{
}

/// A conflict is staged with the base first, ours second and theirs third, each where that side has the
/// path; what is merged is staged as resolved, and nothing else is staged.
pub proof fn law_stages_of_a_path(
    merged: PathMap,
    conflicts: Seq<Seq<char>>,
    base: PathMap,
    ours: PathMap,
    theirs: PathMap,
    path: Seq<char>,
    stage: u8,
)
    ensures
        stage_item(merged, conflicts, base, ours, theirs, path, 0u8) == lookup(merged, path),
        conflicts.contains(path) ==> {
            &&& stage_item(merged, conflicts, base, ours, theirs, path, 1u8) == lookup(base, path)
            &&& stage_item(merged, conflicts, base, ours, theirs, path, 2u8) == lookup(ours, path)
            &&& stage_item(merged, conflicts, base, ours, theirs, path, 3u8) == lookup(theirs, path)
        },
        !conflicts.contains(path) && stage > 0 ==> stage_item(
            merged,
            conflicts,
            base,
            ours,
            theirs,
            path,
            stage,
        ) is None,
        stage > 3 ==> stage_item(merged, conflicts, base, ours, theirs, path, stage) is None,
{
}

/// An item that cannot be staged is told by its path and why, or by what it is.
pub proof fn law_failed_staging_is_told(
    e: PullMergeError,
    path: Seq<char>,
    item: MergeTreeEntry,
    store: BlobStore,
)
    requires
        is_staging_error(e, path, item, store),
    ensures
        store.load(item.hash) matches Err(why) ==> (e matches PullMergeError::IndexSave(d) && d@
            == "failed to load blob "@ + item.hash.text() + " for index entry '"@ + path + "': "@ + why),
        store.load(item.hash) is Ok ==> (item.mode == TreeItemMode::Tree || item.mode
            == TreeItemMode::Commit) && e is IndexSave,
{
}

} // verus!
