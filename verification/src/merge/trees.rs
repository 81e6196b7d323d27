//! Tree objects of a merge result.

use vstd::prelude::*;

use crate::merge::items::{plain_map, TreeEntry, TreeItems};
use crate::object::{HashKind, ObjectId, TreeItemMode};
use crate::paths::{
    component_is_normal, components_of, components_text, has_file_name, is_normal,
    path_components, path_parent, text_of_components, tree_item_name,
};
use crate::text::{clone_texts, concat2, text_eq, texts};
use crate::tree::{
    all_written, build_tree, file_views, found, item_views, law_built_tree_holds_every_file,
    law_built_tree_holds_nothing_else, plain_files, root_items, subtrees_listed, told_apart, tree_id,
    trees_named, NewTree, TreeFile, TreeFileView, TreeItem, TreeItemView,
};

verus! {

/// The files of a tree, without the entries that stand for other repositories.
pub open spec fn without_gitlinks(items: Seq<TreeEntry>) -> Seq<TreeEntry>
    decreases items.len(),
{
    if items.len() == 0 {
        Seq::empty()
    } else if items.last().entry.mode == TreeItemMode::Commit {
        without_gitlinks(items.drop_last())
    } else {
        without_gitlinks(items.drop_last()).push(items.last())
    }
}

/// The files of a commit's tree; entries that stand for other repositories are left out. Of two
/// entries with one path the later counts.
pub fn commit_tree_items(items: Vec<TreeEntry>) -> (r: TreeItems)
    ensures
        r.wf(),
        r@ == plain_map(without_gitlinks(items@)),
{
    let ghost all = items@;
    let mut out = TreeItems::new();
    let mut i: usize = 0;
    assert(all.take(0) =~= Seq::<TreeEntry>::empty());
    while i < items.len()
        invariant
            i <= items@.len(),
            all == items@,
            out.wf(),
            out@ == plain_map(without_gitlinks(all.take(i as int))),
        decreases items@.len() - i,
    {
        proof {
            let seen = without_gitlinks(all.take(i as int));
            assert(all.take(i as int + 1).drop_last() =~= all.take(i as int));
            assert(all.take(i as int + 1).last() == all[i as int]);
            assert(seen.push(all[i as int]).drop_last() =~= seen);
        }
        if items[i].entry.mode != TreeItemMode::Commit {
            out.insert(items[i].path.as_str(), items[i].entry);
        }
        i = i + 1;
    }
    assert(all.take(all.len() as int) =~= all);
    out
}

pub open spec fn tree_files(items: Seq<TreeEntry>) -> Seq<TreeFileView> {
    items.map_values(
        |e: TreeEntry|
            TreeFileView {
                names: path_components(e.path@),
                mode: e.entry.mode,
                id: e.entry.hash,
            },
    )
}

/// The first path that does not end in the name of a file.
pub open spec fn first_nameless(items: Seq<TreeEntry>) -> Option<Seq<char>>
    decreases items.len(),
{
    if items.len() == 0 {
        None
    } else if !has_file_name(items[0].path@) {
        Some(items[0].path@)
    } else {
        first_nameless(items.drop_first())
    }
}

/// The path starts at the root of the file system, and so lies in no directory of the tree.
pub open spec fn is_rooted(path: Seq<char>) -> bool {
    path_components(path).len() > 0 && path_components(path)[0] == "/"@
}

/// The items that lie in the tree.
pub open spec fn in_tree(items: Seq<TreeEntry>) -> Seq<TreeEntry>
    decreases items.len(),
{
    if items.len() == 0 {
        Seq::empty()
    } else if is_rooted(items.last().path@) {
        in_tree(items.drop_last())
    } else {
        in_tree(items.drop_last()).push(items.last())
    }
}

/// How many components lead to the first directory, from the one of `k + 1` components on, that has
/// no name.
pub open spec fn unnamed_depth(c: Seq<Seq<char>>, k: nat) -> Option<nat>
    decreases c.len() - k,
{
    if k + 1 >= c.len() {
        None
    } else if !is_normal(c[k as int]) {
        Some(k + 1)
    } else {
        unnamed_depth(c, k + 1)
    }
}

/// The uppermost directory above a path in the tree that has no name, being this or the upper
/// directory of another.
pub open spec fn unnamed_dir(path: Seq<char>) -> Option<Seq<char>> {
    if is_rooted(path) {
        None
    } else {
        match unnamed_depth(path_components(path), 0) {
            Some(k) => Some(ancestor(path, k as int)),
            None => None,
        }
    }
}

/// The first directory without a name that a path lies in.
pub open spec fn first_unnamed_dir(items: Seq<TreeEntry>) -> Option<Seq<char>>
    decreases items.len(),
{
    if items.len() == 0 {
        None
    } else if let Some(dir) = unnamed_dir(items[0].path@) {
        Some(dir)
    } else {
        first_unnamed_dir(items.drop_first())
    }
}

fn find_unnamed_dir(path: &str, c: &Vec<String>) -> (r: Option<String>)
    requires
        texts(c@) == path_components(path@),
        !is_rooted(path@),
    ensures
        match (r, unnamed_dir(path@)) {
            (Some(dir), Some(want)) => dir@ == want,
            (None, None) => true,
            _ => false,
        },
{
    let ghost all = texts(c@);
    let mut k: usize = 0;
    while k < c.len() && k + 1 < c.len()
        invariant
            k <= c@.len(),
            all == texts(c@),
            all == path_components(path@),
            !is_rooted(path@),
            unnamed_depth(all, 0) == unnamed_depth(all, k as nat),
        decreases c@.len() - k,
    {
        assert(all[k as int] == c@[k as int]@);
        if !component_is_normal(c[k].as_str()) {
            let mut part = clone_texts(c);
            part.truncate(k + 1);
            assert(texts(part@) =~= all.take(k as int + 1));
            return Some(text_of_components(&part));
        }
        k = k + 1;
    }
    None
}

/// Builds the tree objects of a merge result and gives the name of the root tree.
///
/// A tree without files cannot be built, every path must end in the name of a file, and every
/// directory that it lies in must have a name. What starts at the root of the file system is in no
/// tree.
pub fn create_tree_from_items_map(items: &TreeItems, kind: HashKind) -> (r: Result<
    (ObjectId, Vec<NewTree>),
    String,
>)
    ensures
        match r {
            Ok(built) => {
                let files = tree_files(in_tree(items.items@));
                &&& files.len() > 0
                &&& first_nameless(items.items@) is None
                &&& first_unnamed_dir(items.items@) is None
                &&& built.0 == tree_id(kind, root_items(kind, files))
                &&& trees_named(kind, built.1@)
                &&& built.1@.len() > 0
                &&& built.1@.last().id == built.0
                &&& item_views(built.1@.last().items@) == root_items(kind, files)
                &&& subtrees_listed(built.1@, files)
                &&& all_written(kind, files, built.1@)
            },
            Err(e) => match (first_nameless(items.items@), first_unnamed_dir(items.items@)) {
                (Some(path), _) => e@ == "path has no file name: "@ + path,
                (None, Some(dir)) => e@ == "path has no file name: "@ + dir,
                (None, None) => in_tree(items.items@).len() == 0 && e@
                    == "`When export tree object to meta, the items is empty`."@,
            },
        },
{
    let ghost all = items.items@;
    let mut i: usize = 0;
    assert(all.skip(0) =~= all);
    while i < items.items.len()
        invariant
            i <= items.items@.len(),
            all == items.items@,
            first_nameless(all) == first_nameless(all.skip(i as int)),
        decreases items.items@.len() - i,
    {
        proof {
            assert(all.skip(i as int)[0] == all[i as int]);
            assert(all.skip(i as int).drop_first() =~= all.skip(i as int + 1));
        }
        if let Err(e) = tree_item_name(items.items[i].path.as_str()) {
            return Err(e);
        }
        i = i + 1;
    }
    let mut files: Vec<TreeFile> = Vec::new();
    let mut i: usize = 0;
    assert(all.take(0) =~= Seq::<TreeEntry>::empty());
    assert(file_views(files@) =~= tree_files(in_tree(all.take(0))));
    while i < items.items.len()
        invariant
            i <= items.items@.len(),
            all == items.items@,
            first_nameless(all) is None,
            first_unnamed_dir(all) == first_unnamed_dir(all.skip(i as int)),
            file_views(files@) == tree_files(in_tree(all.take(i as int))),
        decreases items.items@.len() - i,
    {
        let ghost before = files@;
        proof {
            assert(all.skip(i as int)[0] == all[i as int]);
            assert(all.skip(i as int).drop_first() =~= all.skip(i as int + 1));
            assert(all.take(i as int + 1).drop_last() =~= all.take(i as int));
            assert(all.take(i as int + 1).last() == all[i as int]);
        }
        let path = items.items[i].path.as_str();
        let names = components_of(path);
        if names.len() > 0 {
            assert(texts(names@)[0] == names@[0]@);
        }
        if names.len() == 0 || !text_eq(names[0].as_str(), "/") {
            if let Some(dir) = find_unnamed_dir(path, &names) {
                return Err(concat2("path has no file name: ", dir.as_str()));
            }
            let file = TreeFile {
                names,
                mode: items.items[i].entry.mode,
                id: items.items[i].entry.hash,
            };
            let ghost view = file@;
            files.push(file);
            proof {
                assert(file_views(files@) =~= file_views(before).push(view));
                assert(tree_files(in_tree(all.take(i as int + 1))) =~= tree_files(
                    in_tree(all.take(i as int)),
                ).push(view));
            }
        }
        i = i + 1;
    }
    proof {
        assert(all.take(all.len() as int) =~= all);
    }
    if files.is_empty() {
        assert(tree_files(in_tree(all)).len() == in_tree(all).len());
        return Err("`When export tree object to meta, the items is empty`.".to_owned());
    }
    Ok(build_tree(kind, &files))
}

/// One directory and the files that stand directly in it.
#[derive(Debug)]
pub struct DirEntries {
    pub dir: String,
    pub items: Vec<TreeItem>,
}

pub open spec fn dir_names(v: Seq<DirEntries>) -> Seq<Seq<char>> {
    v.map_values(|d: DirEntries| d.dir@)
}

/// The files that stand directly in `dir`.
pub open spec fn entries_in(items: Seq<TreeEntry>, dir: Seq<char>) -> Seq<TreeItemView>
    decreases items.len(),
{
    if items.len() == 0 {
        Seq::empty()
    } else {
        let head = entries_in(items.drop_last(), dir);
        let e = items.last();
        if path_parent(e.path@) == dir {
            head.push(
                TreeItemView {
                    mode: e.entry.mode,
                    name: path_components(e.path@).last(),
                    id: e.entry.hash,
                },
            )
        } else {
            head
        }
    }
}

/// The directory of the first `k` components of a path.
pub open spec fn ancestor(path: Seq<char>, k: int) -> Seq<char> {
    components_text(path_components(path).take(k))
}

/// `dir` is a directory that one of the paths lies in: the root only for a file at the top.
pub open spec fn is_dir_of(items: Seq<TreeEntry>, dir: Seq<char>) -> bool {
    exists|i: int, k: int|
        0 <= i < items.len() && dir_at((#[trigger] items[i]).path@, k) && dir == #[trigger] ancestor(
            items[i].path@,
            k,
        )
}

pub open spec fn dir_at(path: Seq<char>, k: int) -> bool {
    (0 < k < path_components(path).len()) || (k == 0 && path_components(path).len() == 1)
}

spec fn named(items: Seq<TreeEntry>) -> bool {
    forall|i: int| 0 <= i < items.len() ==> has_file_name((#[trigger] items[i]).path@)
}

proof fn lemma_no_entries(items: Seq<TreeEntry>, dir: Seq<char>)
    requires
        named(items),
        !is_dir_of(items, dir),
    ensures
        entries_in(items, dir).len() == 0,
    decreases items.len(),
{
    if items.len() > 0 {
        let head = items.drop_last();
        let last = items.len() - 1;
        assert(named(head)) by {
            assert forall|i: int| 0 <= i < head.len() implies has_file_name((#[trigger] head[i]).path@) by {
                assert(head[i] == items[i]);
            }
        }
        if is_dir_of(head, dir) {
            let (i, k) = choose|i: int, k: int|
                0 <= i < head.len() && dir_at((#[trigger] head[i]).path@, k) && dir
                    == #[trigger] ancestor(head[i].path@, k);
            assert(items[i] == head[i]);
            assert(dir == ancestor(items[i].path@, k));
        }
        lemma_no_entries(head, dir);
        assert(has_file_name(items[last].path@));
        let n = path_components(items[last].path@);
        if path_parent(items[last].path@) == dir {
            assert(n.drop_last() =~= n.take(n.len() - 1));
            assert(dir == ancestor(items[last].path@, n.len() - 1));
        }
    }
}

fn find_dir(dirs: &Vec<DirEntries>, dir: &str) -> (r: Option<usize>)
    ensures
        match r {
            Some(i) => i < dirs@.len() && dirs@[i as int].dir@ == dir@,
            None => !dir_names(dirs@).contains(dir@),
        },
{
    let mut i: usize = 0;
    while i < dirs.len()
        invariant
            i <= dirs@.len(),
            forall|j: int| 0 <= j < i ==> (#[trigger] dir_names(dirs@)[j]) != dir@,
        decreases dirs@.len() - i,
    {
        if text_eq(dirs[i].dir.as_str(), dir) {
            return Some(i);
        }
        i = i + 1;
    }
    None
}

/// Adds the directory without files, where it is not there yet.
fn ensure_dir(dirs: &mut Vec<DirEntries>, dir: &str)
    requires
        dir_names(old(dirs)@).no_duplicates(),
    ensures
        dir_names(final(dirs)@).no_duplicates(),
        final(dirs)@.len() >= old(dirs)@.len(),
        final(dirs)@.take(old(dirs)@.len() as int) == old(dirs)@,
        dir_names(old(dirs)@).contains(dir@) ==> final(dirs)@ == old(dirs)@,
        !dir_names(old(dirs)@).contains(dir@) ==> final(dirs)@.len() == old(dirs)@.len() + 1
            && final(dirs)@.last().dir@ == dir@ && final(dirs)@.last().items@.len() == 0,
{
    let ghost before = dirs@;
    match find_dir(dirs, dir) {
        Some(i) => {
            assert(dir_names(before)[i as int] == dir@);
            assert(dirs@.take(before.len() as int) =~= before);
        },
        None => {
            let none: Vec<TreeItem> = Vec::new();
            dirs.push(DirEntries { dir: dir.to_owned(), items: none });
            proof {
                assert(dir_names(dirs@) =~= dir_names(before).push(dir@));
                assert(dirs@.take(before.len() as int) =~= before);
            }
        },
    }
}

/// The directories are those that the items lie in, or that lie above the path up to `k`.
spec fn dirs_until(items: Seq<TreeEntry>, path: Seq<char>, k: int, dir: Seq<char>) -> bool {
    is_dir_of(items, dir) || exists|m: int|
        0 < m < k && m < path_components(path).len() && dir == #[trigger] ancestor(path, m)
}

/// Adds the directories above the directory of `path`.
fn ensure_tree_parent_dirs(
    dirs: &mut Vec<DirEntries>,
    names: &Vec<String>,
    path: Ghost<Seq<char>>,
    items: Ghost<Seq<TreeEntry>>,
)
    requires
        texts(names@) == path_components(path@),
        named(items@),
        dir_names(old(dirs)@).no_duplicates(),
        forall|d: Seq<char>|
            #![trigger dir_names(old(dirs)@).contains(d)]
            dir_names(old(dirs)@).contains(d) <==> is_dir_of(items@, d),
        forall|i: int|
            0 <= i < old(dirs)@.len() ==> item_views((#[trigger] old(dirs)@[i]).items@) == entries_in(
                items@,
                old(dirs)@[i].dir@,
            ),
    ensures
        dir_names(final(dirs)@).no_duplicates(),
        forall|d: Seq<char>|
            #![trigger dir_names(final(dirs)@).contains(d)]
            dir_names(final(dirs)@).contains(d) <==> dirs_until(
                items@,
                path@,
                path_components(path@).len() as int,
                d,
            ),
        forall|i: int|
            0 <= i < final(dirs)@.len() ==> item_views((#[trigger] final(dirs)@[i]).items@)
                == entries_in(items@, final(dirs)@[i].dir@),
{
    let mut k: usize = 1;
    while k < names.len()
        invariant
            1 <= k,
            k <= names@.len() || names@.len() == 0,
            texts(names@) == path_components(path@),
            named(items@),
            dir_names(dirs@).no_duplicates(),
            forall|d: Seq<char>|
                #![trigger dir_names(dirs@).contains(d)]
                dir_names(dirs@).contains(d) <==> dirs_until(items@, path@, k as int, d),
            forall|i: int|
                0 <= i < dirs@.len() ==> item_views((#[trigger] dirs@[i]).items@) == entries_in(
                    items@,
                    dirs@[i].dir@,
                ),
        decreases names@.len() - k,
    {
        let ghost before = dirs@;
        let mut part = clone_texts(names);
        part.truncate(k);
        proof {
            assert(texts(part@) =~= path_components(path@).take(k as int));
        }
        let dir = text_of_components(&part);
        assert(dir@ == ancestor(path@, k as int));
        ensure_dir(dirs, dir.as_str());
        proof {
            lemma_added_dir(before, dirs@, dir@, items@, path@, k as int);
        }
        k = k + 1;
    }
}

proof fn lemma_added_dir(
    before: Seq<DirEntries>,
    after: Seq<DirEntries>,
    dir: Seq<char>,
    items: Seq<TreeEntry>,
    path: Seq<char>,
    k: int,
)
    requires
        named(items),
        0 < k < path_components(path).len(),
        dir == ancestor(path, k),
        forall|d: Seq<char>|
            #![trigger dir_names(before).contains(d)]
            dir_names(before).contains(d) <==> dirs_until(items, path, k, d),
        forall|i: int|
            0 <= i < before.len() ==> item_views((#[trigger] before[i]).items@) == entries_in(
                items,
                before[i].dir@,
            ),
        after.len() >= before.len(),
        after.take(before.len() as int) == before,
        dir_names(before).contains(dir) ==> after == before,
        !dir_names(before).contains(dir) ==> after.len() == before.len() + 1 && after.last().dir@ == dir
            && after.last().items@.len() == 0,
    ensures
        forall|d: Seq<char>|
            #![trigger dir_names(after).contains(d)]
            dir_names(after).contains(d) <==> dirs_until(items, path, k + 1, d),
        forall|i: int|
            0 <= i < after.len() ==> item_views((#[trigger] after[i]).items@) == entries_in(
                items,
                after[i].dir@,
            ),
{
    assert forall|d: Seq<char>|
        #![trigger dir_names(after).contains(d)]
        dir_names(after).contains(d) <==> dirs_until(items, path, k + 1, d) by {
        assert(dir_names(before).contains(d) <==> dirs_until(items, path, k, d));
        if dir_names(after).contains(d) {
            let i = choose|i: int| 0 <= i < dir_names(after).len() && dir_names(after)[i] == d;
            if i < before.len() {
                assert(after.take(before.len() as int)[i] == after[i]);
                assert(dir_names(before)[i] == d);
                assert(dir_names(before).contains(d));
                if !is_dir_of(items, d) {
                    let m = choose|m: int|
                        0 < m < k && m < path_components(path).len() && d == #[trigger] ancestor(path, m);
                    assert(d == ancestor(path, m));
                }
            } else {
                assert(d == dir);
            }
        }
        if dirs_until(items, path, k + 1, d) {
            if d == dir {
                if dir_names(before).contains(dir) {
                    assert(dir_names(after).contains(d));
                } else {
                    assert(dir_names(after)[before.len() as int] == d);
                }
            } else {
                if !is_dir_of(items, d) {
                    let m = choose|m: int|
                        0 < m < k + 1 && m < path_components(path).len() && d == #[trigger] ancestor(path, m);
                    assert(m < k);
                    assert(d == ancestor(path, m));
                }
                assert(dir_names(before).contains(d));
                let i = choose|i: int| 0 <= i < dir_names(before).len() && dir_names(before)[i] == d;
                assert(after.take(before.len() as int)[i] == after[i]);
                assert(dir_names(after)[i] == d);
            }
        }
    }
    assert forall|i: int| 0 <= i < after.len() implies item_views((#[trigger] after[i]).items@)
        == entries_in(items, after[i].dir@) by {
        if i < before.len() {
            assert(after.take(before.len() as int)[i] == after[i]);
            assert(after[i] == before[i]);
        } else {
            assert(!dir_names(before).contains(dir));
            assert(!dirs_until(items, path, k, dir));
            lemma_no_entries(items, dir);
            assert(item_views(after[i].items@) =~= entries_in(items, dir));
        }
    }
}

/// The directories of a tree, each with the files that stand directly in it.
///
/// Every directory above a file is there, also one that holds no file itself. Every path must
/// end in the name of a file.
pub fn tree_entries_map_from_items(items: &TreeItems) -> (r: Result<Vec<DirEntries>, String>)
    ensures
        match r {
            Ok(dirs) => {
                &&& first_nameless(items.items@) is None
                &&& dir_names(dirs@).no_duplicates()
                &&& forall|d: Seq<char>|
                    #![trigger dir_names(dirs@).contains(d)]
                    dir_names(dirs@).contains(d) <==> is_dir_of(items.items@, d)
                &&& forall|i: int|
                    0 <= i < dirs@.len() ==> item_views((#[trigger] dirs@[i]).items@) == entries_in(
                        items.items@,
                        dirs@[i].dir@,
                    )
            },
            Err(e) => first_nameless(items.items@) matches Some(path) && e@
                == "path has no file name: "@ + path,
        },
{
    let ghost all = items.items@;
    let mut dirs: Vec<DirEntries> = Vec::new();
    let mut i: usize = 0;
    proof {
        assert(all.skip(0) =~= all);
        assert(all.take(0) =~= Seq::<TreeEntry>::empty());
        assert(dir_names(dirs@) =~= Seq::<Seq<char>>::empty());
    }
    while i < items.items.len()
        invariant
            i <= items.items@.len(),
            all == items.items@,
            first_nameless(all) == first_nameless(all.skip(i as int)),
            named(all.take(i as int)),
            dir_names(dirs@).no_duplicates(),
            forall|d: Seq<char>|
                #![trigger dir_names(dirs@).contains(d)]
                dir_names(dirs@).contains(d) <==> is_dir_of(all.take(i as int), d),
            forall|j: int|
                0 <= j < dirs@.len() ==> item_views((#[trigger] dirs@[j]).items@) == entries_in(
                    all.take(i as int),
                    dirs@[j].dir@,
                ),
        decreases items.items@.len() - i,
    {
        let ghost now = all.take(i as int);
        let ghost next = all.take(i as int + 1);
        proof {
            assert(all.skip(i as int)[0] == all[i as int]);
            assert(all.skip(i as int).drop_first() =~= all.skip(i as int + 1));
            assert(next.drop_last() =~= now);
            assert(next =~= now.push(all[i as int]));
        }
        let path = items.items[i].path.as_str();
        let name = match tree_item_name(path) {
            Ok(name) => name,
            Err(e) => {
                return Err(e);
            },
        };
        let names = components_of(path);
        let mut above = clone_texts(&names);
        above.truncate(names.len() - 1);
        proof {
            assert(texts(above@) =~= path_components(path@).drop_last());
        }
        let parent = text_of_components(&above);
        assert(parent@ == path_parent(path@));
        ensure_tree_parent_dirs(&mut dirs, &names, Ghost(path@), Ghost(now));
        let ghost mid = dirs@;
        ensure_dir(&mut dirs, parent.as_str());
        let ghost ready = dirs@;
        let item = TreeItem {
            mode: items.items[i].entry.mode,
            name,
            id: items.items[i].entry.hash,
        };
        let ghost iv = item@;
        match find_dir(&dirs, parent.as_str()) {
            Some(at) => {
                let mut here = dirs.remove(at);
                here.items.push(item);
                let ghost filled = here.items@;
                dirs.insert(at, here);
                proof {
                    assert(item_views(filled) =~= item_views(ready[at as int].items@).push(iv));
                    assert(dirs@[at as int].items@ == filled);
                    lemma_entry_added(
                        mid,
                        ready,
                        dirs@,
                        at as int,
                        path@,
                        iv,
                        now,
                        next,
                        all[i as int],
                    );
                }
            },
            None => {
                proof {
                    if dir_names(mid).contains(parent@) {
                        assert(dir_names(ready).contains(parent@));
                    } else {
                        assert(dir_names(ready)[mid.len() as int] == parent@);
                    }
                }
            },
        }
        proof {
            assert forall|j: int| 0 <= j < next.len() implies has_file_name((#[trigger] next[j]).path@) by {
                if j < now.len() {
                    assert(next[j] == now[j]);
                }
            }
        }
        i = i + 1;
    }
    assert(all.take(all.len() as int) =~= all);
    Ok(dirs)
}

proof fn lemma_entry_added(
    mid: Seq<DirEntries>,
    ready: Seq<DirEntries>,
    after: Seq<DirEntries>,
    at: int,
    path: Seq<char>,
    item: TreeItemView,
    now: Seq<TreeEntry>,
    next: Seq<TreeEntry>,
    entry: TreeEntry,
)
    requires
        named(now),
        has_file_name(path),
        next == now.push(entry),
        entry.path@ == path,
        item == (TreeItemView {
            mode: entry.entry.mode,
            name: path_components(path).last(),
            id: entry.entry.hash,
        }),
        forall|d: Seq<char>|
            #![trigger dir_names(mid).contains(d)]
            dir_names(mid).contains(d) <==> dirs_until(now, path, path_components(path).len() as int, d),
        forall|i: int|
            0 <= i < mid.len() ==> item_views((#[trigger] mid[i]).items@) == entries_in(
                now,
                mid[i].dir@,
            ),
        dir_names(ready).no_duplicates(),
        ready.len() >= mid.len(),
        ready.take(mid.len() as int) == mid,
        dir_names(mid).contains(path_parent(path)) ==> ready == mid,
        !dir_names(mid).contains(path_parent(path)) ==> ready.len() == mid.len() + 1
            && ready.last().dir@ == path_parent(path) && ready.last().items@.len() == 0,
        0 <= at < ready.len(),
        ready[at].dir@ == path_parent(path),
        after.len() == ready.len(),
        forall|i: int| 0 <= i < ready.len() && i != at ==> (#[trigger] after[i]) == ready[i],
        after[at].dir@ == ready[at].dir@,
        item_views(after[at].items@) == item_views(ready[at].items@).push(item),
    ensures
        dir_names(after).no_duplicates(),
        forall|d: Seq<char>|
            #![trigger dir_names(after).contains(d)]
            dir_names(after).contains(d) <==> is_dir_of(next, d),
        forall|i: int|
            0 <= i < after.len() ==> item_views((#[trigger] after[i]).items@) == entries_in(
                next,
                after[i].dir@,
            ),
{
    let parent = path_parent(path);
    let n = path_components(path);
    assert(n.drop_last() =~= n.take(n.len() - 1));
    assert(parent == ancestor(path, n.len() - 1));
    assert(dir_names(after) =~= dir_names(ready)) by {
        assert forall|i: int| 0 <= i < ready.len() implies dir_names(after)[i] == dir_names(ready)[i] by {
            if i != at {
                assert(after[i] == ready[i]);
            }
        }
    }
    assert(next.drop_last() =~= now);
    assert forall|d: Seq<char>|
        #![trigger dir_names(after).contains(d)]
        dir_names(after).contains(d) <==> is_dir_of(next, d) by {
        assert(dir_names(mid).contains(d) <==> dirs_until(now, path, n.len() as int, d));
        if dir_names(after).contains(d) {
            let i = choose|i: int| 0 <= i < dir_names(ready).len() && dir_names(ready)[i] == d;
            if i < mid.len() {
                assert(ready.take(mid.len() as int)[i] == ready[i]);
                assert(dir_names(mid)[i] == d);
                assert(dir_names(mid).contains(d));
                if is_dir_of(now, d) {
                    let (a, k) = choose|a: int, k: int|
                        0 <= a < now.len() && dir_at((#[trigger] now[a]).path@, k) && d
                            == #[trigger] ancestor(now[a].path@, k);
                    assert(next[a] == now[a]);
                    assert(d == ancestor(next[a].path@, k));
                } else {
                    let m = choose|m: int|
                        0 < m < n.len() && m < path_components(path).len() && d == #[trigger] ancestor(path, m);
                    assert(next[now.len() as int].path@ == path);
                    assert(d == ancestor(next[now.len() as int].path@, m));
                }
            } else {
                assert(d == parent);
                assert(next[now.len() as int].path@ == path);
                assert(d == ancestor(next[now.len() as int].path@, n.len() - 1));
            }
        }
        if is_dir_of(next, d) {
            let (a, k) = choose|a: int, k: int|
                0 <= a < next.len() && dir_at((#[trigger] next[a]).path@, k) && d == #[trigger] ancestor(
                    next[a].path@,
                    k,
                );
            if a < now.len() {
                assert(next[a] == now[a]);
                assert(d == ancestor(now[a].path@, k));
                assert(is_dir_of(now, d));
                assert(dir_names(mid).contains(d));
            } else {
                assert(next[a] == entry);
                if k == 0 {
                    assert(d == parent);
                } else {
                    assert(d == ancestor(path, k));
                    assert(dirs_until(now, path, n.len() as int, d));
                    assert(dir_names(mid).contains(d));
                }
            }
            if dir_names(mid).contains(d) {
                let i = choose|i: int| 0 <= i < dir_names(mid).len() && dir_names(mid)[i] == d;
                assert(ready.take(mid.len() as int)[i] == ready[i]);
                assert(dir_names(ready)[i] == d);
            } else {
                assert(dir_names(ready)[at] == d);
            }
        }
    }
    assert forall|i: int| 0 <= i < after.len() implies item_views((#[trigger] after[i]).items@)
        == entries_in(next, after[i].dir@) by {
        if i < mid.len() {
            assert(ready.take(mid.len() as int)[i] == ready[i]);
            assert(ready[i] == mid[i]);
            assert(item_views(mid[i].items@) == entries_in(now, mid[i].dir@));
        } else {
            assert(!dir_names(mid).contains(parent));
            assert(!dirs_until(now, path, n.len() as int, parent));
            lemma_no_entries(now, parent);
            assert(item_views(ready[i].items@) =~= entries_in(now, parent));
        }
        if i != at {
            assert(after[i] == ready[i]);
            assert(dir_names(ready)[i] != dir_names(ready)[at]);
        }
    }
}

/// The trees of a merge hold what was merged: each path of the tree with its mode and its object,
/// and, unless two different trees share a name, nothing else.
pub proof fn law_merged_tree_holds_the_merged_files(
    items: Seq<TreeEntry>,
    kind: HashKind,
    trees: Seq<NewTree>,
)
    requires
        all_written(kind, tree_files(in_tree(items)), trees),
        trees_named(kind, trees),
        first_nameless(items) is None,
    ensures
        forall|k: int|
            0 <= k < in_tree(items).len() ==> found(
                trees,
                root_items(kind, tree_files(in_tree(items))),
                #[trigger] tree_files(in_tree(items))[k],
            ),
        told_apart(trees) && plain_files(tree_files(in_tree(items))) ==> forall|path: TreeFileView|
            path.mode != TreeItemMode::Tree && #[trigger] found(
                trees,
                root_items(kind, tree_files(in_tree(items))),
                path,
            ) ==> tree_files(in_tree(items)).contains(path),
{
    let files = tree_files(in_tree(items));
    assert forall|k: int| 0 <= k < in_tree(items).len() implies found(
        trees,
        root_items(kind, files),
        #[trigger] files[k],
    ) by {
        lemma_in_tree(items, k);
        let j = choose|j: int| 0 <= j < items.len() && items[j] == in_tree(items)[k];
        lemma_named_at(items, j);
        law_built_tree_holds_every_file(kind, files, trees, k);
    }
    if told_apart(trees) && plain_files(files) {
        assert forall|path: TreeFileView|
            path.mode != TreeItemMode::Tree && #[trigger] found(
                trees,
                root_items(kind, files),
                path,
            ) implies files.contains(path) by {
            law_built_tree_holds_nothing_else(kind, files, trees, path);
        }
    }
}

proof fn lemma_in_tree(items: Seq<TreeEntry>, k: int)
    requires
        0 <= k < in_tree(items).len(),
    ensures
        exists|j: int| 0 <= j < items.len() && items[j] == in_tree(items)[k],
    decreases items.len(),
{
    let head = items.drop_last();
    if k < in_tree(head).len() {
        lemma_in_tree(head, k);
        let j = choose|j: int| 0 <= j < head.len() && head[j] == in_tree(head)[k];
        assert(items[j] == in_tree(items)[k]);
    } else {
        assert(items[items.len() - 1] == in_tree(items)[k]);
    }
}

proof fn lemma_named_at(items: Seq<TreeEntry>, k: int)
    requires
        first_nameless(items) is None,
        0 <= k < items.len(),
    ensures
        path_components(items[k].path@).len() > 0,
    decreases items.len(),
{
    if k > 0 {
        lemma_named_at(items.drop_first(), k - 1);
    }
}

/// A tree's files are its entries but for the links to other repositories, in their order; those that
/// are written into a tree are the ones below its root.
pub proof fn law_entries_that_are_kept(items: Seq<TreeEntry>)
    ensures
        without_gitlinks(items) == items.filter(|e: TreeEntry| e.entry.mode != TreeItemMode::Commit),
        in_tree(items) == items.filter(
            |e: TreeEntry|
                !(path_components(e.path@).len() > 0 && path_components(e.path@)[0] == "/"@),
        ),
    decreases items.len(),
{
    reveal(Seq::filter);
    if items.len() > 0 {
        law_entries_that_are_kept(items.drop_last());
    }
}

/// A file is written where its path says, as it is.
pub proof fn law_files_are_written_as_they_are(items: Seq<TreeEntry>, k: int)
    requires
        0 <= k < items.len(),
    ensures
        tree_files(items).len() == items.len(),
        tree_files(items)[k].names == path_components(items[k].path@),
        tree_files(items)[k].mode == items[k].entry.mode,
        tree_files(items)[k].id == items[k].entry.hash,
{
}

/// The path that is told as nameless is the first that does not end in a name.
pub proof fn law_first_nameless_path(items: Seq<TreeEntry>)
    ensures
        match first_nameless(items) {
            None => forall|i: int| 0 <= i < items.len() ==> has_file_name((#[trigger] items[i]).path@),
            Some(path) => exists|i: int|
                0 <= i < items.len() && (#[trigger] items[i]).path@ == path && !has_file_name(path)
                    && forall|j: int| 0 <= j < i ==> has_file_name((#[trigger] items[j]).path@),
        },
    decreases items.len(),
{
    if items.len() > 0 {
        if !has_file_name(items[0].path@) {
            assert(first_nameless(items) == Some(items[0].path@));
        } else {
            let rest = items.drop_first();
            law_first_nameless_path(rest);
            match first_nameless(rest) {
                None => {
                    assert forall|i: int| 0 <= i < items.len() implies has_file_name(
                        (#[trigger] items[i]).path@,
                    ) by {
                        if i > 0 {
                            assert(rest[i - 1] == items[i]);
                        }
                    }
                },
                Some(path) => {
                    let i = choose|i: int|
                        0 <= i < rest.len() && (#[trigger] rest[i]).path@ == path && !has_file_name(path)
                            && forall|j: int| 0 <= j < i ==> has_file_name((#[trigger] rest[j]).path@);
                    assert(items[i + 1] == rest[i]);
                    assert forall|j: int| 0 <= j < i + 1 implies has_file_name((#[trigger] items[j]).path@) by {
                        if j > 0 {
                            assert(rest[j - 1] == items[j]);
                        }
                    }
                },
            }
        }
    }
}

/// A path has a directory that no tree can hold exactly where one of its directories is not named, and
/// the topmost such is the one told.
pub proof fn law_directory_without_a_name(path: Seq<char>, k: nat)
    ensures
        match unnamed_depth(path_components(path), k) {
            None => forall|i: int|
                k <= i < path_components(path).len() - 1 ==> is_normal(#[trigger] path_components(path)[i]),
            Some(d) => k < d < path_components(path).len() && !is_normal(path_components(path)[d - 1])
                && forall|i: int| k <= i < d - 1 ==> is_normal(#[trigger] path_components(path)[i]),
        },
        unnamed_dir(path) is Some <==> !is_rooted(path) && exists|i: int|
            0 <= i < path_components(path).len() - 1 && !is_normal(#[trigger] path_components(path)[i]),
    decreases path_components(path).len() - k,
{
    let c = path_components(path);
    if k + 1 < c.len() && is_normal(c[k as int]) {
        law_directory_without_a_name(path, k + 1);
    }
    lemma_unnamed_depth(path, 0);
}

proof fn lemma_unnamed_depth(path: Seq<char>, k: nat)
    ensures
        unnamed_depth(path_components(path), k) is Some <==> exists|i: int|
            k <= i < path_components(path).len() - 1 && !is_normal(#[trigger] path_components(path)[i]),
    decreases path_components(path).len() - k,
{
    let c = path_components(path);
    if k + 1 < c.len() {
        if is_normal(c[k as int]) {
            lemma_unnamed_depth(path, k + 1);
        } else {
            assert(!is_normal(c[k as int]));
        }
    }
}

/// The entries of a directory are the files right below it, by their own names, in their order.
pub proof fn law_entries_of_a_directory(items: Seq<TreeEntry>, e: TreeEntry, dir: Seq<char>)
    ensures
        entries_in(Seq::empty(), dir) == Seq::<TreeItemView>::empty(),
        path_parent(e.path@) == dir ==> entries_in(items.push(e), dir) == entries_in(items, dir).push(
            TreeItemView {
                mode: e.entry.mode,
                name: path_components(e.path@).last(),
                id: e.entry.hash,
            },
        ),
        path_parent(e.path@) != dir ==> entries_in(items.push(e), dir) == entries_in(items, dir),
{
    assert(items.push(e).drop_last() =~= items);
}

} // verus!
