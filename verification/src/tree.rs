//! Tree objects: their order, their bytes and their names, built from a list of files.

use vstd::prelude::*;

use crate::object::{
    id_bytes, object_id, object_id_bytes, object_id_of_data, HashKind, ObjectId, TreeItemMode,
};
use crate::paths::{
    lemma_text_lt_irreflexive, lemma_text_lt_total, lemma_text_lt_transitive, text_before, text_lt,
};
use crate::text::{clone_texts, concat2, contains_text, text_eq, texts};
use vstd::utf8::encode_utf8;


verus! {

/// One entry of a tree object.
#[derive(Debug)]
pub struct TreeItem {
    pub mode: TreeItemMode,
    pub name: String,
    pub id: ObjectId,
}

/// A [`TreeItem`] with its name as a sequence of characters.
pub struct TreeItemView {
    pub mode: TreeItemMode,
    pub name: Seq<char>,
    pub id: ObjectId,
}

impl View for TreeItem {
    type V = TreeItemView;

    open spec fn view(&self) -> TreeItemView {
        TreeItemView { mode: self.mode, name: self.name@, id: self.id }
    }
}

pub open spec fn item_views(v: Seq<TreeItem>) -> Seq<TreeItemView> {
    v.map_values(|i: TreeItem| i@)
}

/// A file that a tree is built from: the names of its path, its mode and its object.
#[derive(Debug)]
pub struct TreeFile {
    pub names: Vec<String>,
    pub mode: TreeItemMode,
    pub id: ObjectId,
}

/// A [`TreeFile`] with its names as sequences of characters.
pub struct TreeFileView {
    pub names: Seq<Seq<char>>,
    pub mode: TreeItemMode,
    pub id: ObjectId,
}

impl View for TreeFile {
    type V = TreeFileView;

    open spec fn view(&self) -> TreeFileView {
        TreeFileView { names: texts(self.names@), mode: self.mode, id: self.id }
    }
}

pub open spec fn file_views(v: Seq<TreeFile>) -> Seq<TreeFileView> {
    v.map_values(|f: TreeFile| f@)
}

/// What an entry is sorted by: its name, that of a directory with a slash at its end.
pub open spec fn sort_key(item: TreeItemView) -> Seq<char> {
    if item.mode == TreeItemMode::Tree {
        item.name + "/"@
    } else {
        item.name
    }
}

/// `items` with `item` put in after the entries that do not follow it.
pub open spec fn insert_item(items: Seq<TreeItemView>, item: TreeItemView) -> Seq<TreeItemView>
    decreases items.len(),
{
    if items.len() > 0 && text_lt(sort_key(item), sort_key(items.last())) {
        insert_item(items.drop_last(), item).push(items.last())
    } else {
        items.push(item)
    }
}

/// The entries in the order of a tree object.
pub open spec fn sorted_items(items: Seq<TreeItemView>) -> Seq<TreeItemView>
    decreases items.len(),
{
    if items.len() == 0 {
        Seq::empty()
    } else {
        insert_item(sorted_items(items.drop_last()), items.last())
    }
}

/// No entry comes after one that should follow it.
pub open spec fn tree_ordered(items: Seq<TreeItemView>) -> bool {
    forall|i: int, j: int|
        0 <= i < j < items.len() ==> !text_lt(
            sort_key(#[trigger] items[j]),
            sort_key(#[trigger] items[i]),
        )
}

/// The mode as a tree object writes it.
pub open spec fn mode_bytes(mode: TreeItemMode) -> Seq<u8> {
    match mode {
        TreeItemMode::Blob => seq![49u8, 48u8, 48u8, 54u8, 52u8, 52u8],
        TreeItemMode::BlobExecutable => seq![49u8, 48u8, 48u8, 55u8, 53u8, 53u8],
        TreeItemMode::Link => seq![49u8, 50u8, 48u8, 48u8, 48u8, 48u8],
        TreeItemMode::Tree => seq![52u8, 48u8, 48u8, 48u8, 48u8],
        TreeItemMode::Commit => seq![49u8, 54u8, 48u8, 48u8, 48u8, 48u8],
    }
}

/// An entry as a tree object holds it: mode, a space, the name, a zero byte, the object name.
pub open spec fn item_bytes(item: TreeItemView) -> Seq<u8> {
    mode_bytes(item.mode) + seq![32u8] + encode_utf8(item.name) + seq![0u8] + id_bytes(item.id)
}

/// The content of a tree object.
pub open spec fn tree_bytes(items: Seq<TreeItemView>) -> Seq<u8>
    decreases items.len(),
{
    if items.len() == 0 {
        Seq::empty()
    } else {
        tree_bytes(items.drop_last()) + item_bytes(items.last())
    }
}

/// The name of the tree object that holds `items`.
pub open spec fn tree_id(kind: HashKind, items: Seq<TreeItemView>) -> ObjectId {
    object_id(kind, "tree"@, tree_bytes(items))
}

/// The files that stand directly in the directory at `depth`.
pub open spec fn files_at(files: Seq<TreeFileView>, depth: nat) -> Seq<TreeItemView>
    decreases files.len(),
{
    if files.len() == 0 {
        Seq::empty()
    } else {
        let head = files_at(files.drop_last(), depth);
        let f = files.last();
        if f.names.len() == depth + 1 {
            head.push(TreeItemView { mode: f.mode, name: f.names[depth as int], id: f.id })
        } else {
            head
        }
    }
}

/// The names of the directories at `depth`, each once, in the order in which they occur.
pub open spec fn dirs_at(files: Seq<TreeFileView>, depth: nat) -> Seq<Seq<char>>
    decreases files.len(),
{
    if files.len() == 0 {
        Seq::empty()
    } else {
        let head = dirs_at(files.drop_last(), depth);
        let f = files.last();
        if f.names.len() > depth + 1 && !head.contains(f.names[depth as int]) {
            head.push(f.names[depth as int])
        } else {
            head
        }
    }
}

/// The files below the directory `name` at `depth`.
pub open spec fn files_below(files: Seq<TreeFileView>, depth: nat, name: Seq<char>) -> Seq<
    TreeFileView,
>
    decreases files.len(),
{
    if files.len() == 0 {
        Seq::empty()
    } else {
        let head = files_below(files.drop_last(), depth, name);
        let f = files.last();
        if f.names.len() > depth + 1 && f.names[depth as int] == name {
            head.push(f)
        } else {
            head
        }
    }
}

pub proof fn lemma_dirs_len(files: Seq<TreeFileView>, depth: nat)
    ensures
        dirs_at(files, depth).len() <= files.len(),
    decreases files.len(),
{
    if files.len() > 0 {
        lemma_dirs_len(files.drop_last(), depth);
    }
}

/// The entries of the directory at `depth`, with directories `levels` deep below it.
pub open spec fn directory_items(
    kind: HashKind,
    files: Seq<TreeFileView>,
    depth: nat,
    levels: nat,
) -> Seq<TreeItemView>
    decreases levels, files.len() + 1,
{
    proof {
        lemma_dirs_len(files, depth);
    }
    sorted_items(
        files_at(files, depth) + subtree_items(kind, files, depth, dirs_at(files, depth), levels),
    )
}

/// The entries for the directories `dirs`.
pub open spec fn subtree_items(
    kind: HashKind,
    files: Seq<TreeFileView>,
    depth: nat,
    dirs: Seq<Seq<char>>,
    levels: nat,
) -> Seq<TreeItemView>
    decreases levels, dirs.len(),
{
    if dirs.len() == 0 || levels == 0 {
        Seq::empty()
    } else {
        let name = dirs.last();
        subtree_items(kind, files, depth, dirs.drop_last(), levels).push(
            TreeItemView {
                mode: TreeItemMode::Tree,
                name,
                id: tree_id(
                    kind,
                    directory_items(
                        kind,
                        files_below(files, depth, name),
                        depth + 1,
                        (levels - 1) as nat,
                    ),
                ),
            },
        )
    }
}

/// A tree object that was built, to be written to the object store.
#[derive(Debug)]
pub struct NewTree {
    pub id: ObjectId,
    pub items: Vec<TreeItem>,
}

/// Every new tree stands under its own name.
pub open spec fn trees_named(kind: HashKind, trees: Seq<NewTree>) -> bool {
    forall|i: int|
        0 <= i < trees.len() ==> (#[trigger] trees[i]).id == tree_id(kind, item_views(trees[i].items@))
}

/// A new tree comes after those that its directories are. An entry that a file brought with it
/// as a directory stands for a tree that is not new.
pub open spec fn subtrees_listed(trees: Seq<NewTree>, files: Seq<TreeFileView>) -> bool {
    plain_files(files) ==> dirs_listed(trees)
}

/// None of the files is a directory.
pub open spec fn plain_files(files: Seq<TreeFileView>) -> bool {
    forall|i: int| 0 <= i < files.len() ==> (#[trigger] files[i]).mode != TreeItemMode::Tree
}

pub open spec fn dirs_listed(trees: Seq<NewTree>) -> bool {
    forall|i: int, k: int|
        0 <= i < trees.len() && 0 <= k < trees[i].items@.len() && (#[trigger] trees[i].items@[k]).mode
            == TreeItemMode::Tree ==> tree_listed(trees, i, trees[i].items@[k].id)
}

/// One of the first `n` trees is named `id`.
pub open spec fn tree_listed(trees: Seq<NewTree>, n: int, id: ObjectId) -> bool {
    exists|j: int| 0 <= j < n && (#[trigger] trees[j]).id == id
}

proof fn lemma_plain_level(files: Seq<TreeFileView>, depth: nat, name: Seq<char>)
    requires
        plain_files(files),
    ensures
        plain_files(files_below(files, depth, name)),
        forall|k: int|
            0 <= k < files_at(files, depth).len() ==> (#[trigger] files_at(files, depth)[k]).mode
                != TreeItemMode::Tree,
    decreases files.len(),
{
    if files.len() > 0 {
        let head = files.drop_last();
        assert(plain_files(head)) by {
            assert forall|i: int| 0 <= i < head.len() implies (#[trigger] head[i]).mode
                != TreeItemMode::Tree by {
                assert(head[i] == files[i]);
            }
        }
        lemma_plain_level(head, depth, name);
        assert(files[files.len() - 1].mode != TreeItemMode::Tree);
    }
}

proof fn lemma_listed_later(before: Seq<NewTree>, after: Seq<NewTree>, id: ObjectId)
    requires
        before.is_prefix_of(after),
        tree_listed(before, before.len() as int, id),
    ensures
        tree_listed(after, after.len() as int, id),
{
    let j = choose|j: int| 0 <= j < before.len() && (#[trigger] before[j]).id == id;
    assert(after[j] == before[j]);
}

proof fn lemma_dirs_stay_listed(before: Seq<NewTree>, last: NewTree)
    requires
        dirs_listed(before),
        forall|k: int|
            0 <= k < last.items@.len() && (#[trigger] last.items@[k]).mode == TreeItemMode::Tree
                ==> tree_listed(before, before.len() as int, last.items@[k].id),
    ensures
        dirs_listed(before.push(last)),
{
    let after = before.push(last);
    assert forall|i: int, k: int|
        0 <= i < after.len() && 0 <= k < after[i].items@.len() && (#[trigger] after[i].items@[k]).mode
            == TreeItemMode::Tree implies tree_listed(after, i, after[i].items@[k].id) by {
        let id = after[i].items@[k].id;
        if i < before.len() {
            assert(before[i].items@[k].mode == TreeItemMode::Tree);
            assert(tree_listed(before, i, id));
        } else {
            assert(last.items@[k].mode == TreeItemMode::Tree);
            assert(tree_listed(before, i, id));
        }
        let j = choose|j: int| 0 <= j < i && (#[trigger] before[j]).id == id;
        assert(after[j].id == id);
    }
}

/// One of the trees holds these entries.
pub open spec fn tree_written(trees: Seq<NewTree>, items: Seq<TreeItemView>) -> bool {
    exists|j: int| 0 <= j < trees.len() && item_views((#[trigger] trees[j]).items@) == items
}

/// The trees of the directory at `depth` and of all directories below it are among the new ones.
pub open spec fn written(
    kind: HashKind,
    files: Seq<TreeFileView>,
    depth: nat,
    levels: nat,
    trees: Seq<NewTree>,
) -> bool
    decreases levels,
{
    &&& tree_written(trees, directory_items(kind, files, depth, levels))
    &&& levels > 0 ==> forall|name: Seq<char>| #[trigger]
        dirs_at(files, depth).contains(name) ==> written(
            kind,
            files_below(files, depth, name),
            depth + 1,
            (levels - 1) as nat,
            trees,
        )
}

proof fn lemma_stays_written(
    kind: HashKind,
    files: Seq<TreeFileView>,
    depth: nat,
    levels: nat,
    before: Seq<NewTree>,
    after: Seq<NewTree>,
)
    requires
        before.is_prefix_of(after),
        written(kind, files, depth, levels, before),
    ensures
        written(kind, files, depth, levels, after),
    decreases levels,
{
    let items = directory_items(kind, files, depth, levels);
    let j = choose|j: int|
        0 <= j < before.len() && item_views((#[trigger] before[j]).items@) == items;
    assert(after[j] == before[j]);
    if levels > 0 {
        assert forall|name: Seq<char>| #[trigger] dirs_at(files, depth).contains(name) implies written(
            kind,
            files_below(files, depth, name),
            depth + 1,
            (levels - 1) as nat,
            after,
        ) by {
            lemma_stays_written(
                kind,
                files_below(files, depth, name),
                depth + 1,
                (levels - 1) as nat,
                before,
                after,
            );
        }
    }
}

fn key_of(item: &TreeItem) -> (r: String)
    ensures
        r@ == sort_key(item@),
{
    if item.mode == TreeItemMode::Tree {
        concat2(item.name.as_str(), "/")
    } else {
        item.name.clone()
    }
}

proof fn lemma_insert_item(items: Seq<TreeItemView>, item: TreeItemView, k: int)
    requires
        0 <= k <= items.len(),
        forall|j: int|
            k <= j < items.len() ==> text_lt(sort_key(item), sort_key(#[trigger] items[j])),
        k > 0 ==> !text_lt(sort_key(item), sort_key(items[k - 1])),
    ensures
        insert_item(items, item) == items.insert(k, item),
    decreases items.len(),
{
    if k < items.len() {
        let head = items.drop_last();
        assert(text_lt(sort_key(item), sort_key(items[items.len() - 1])));
        assert forall|j: int| k <= j < head.len() implies text_lt(
            sort_key(item),
            sort_key(#[trigger] head[j]),
        ) by {
            assert(head[j] == items[j]);
        }
        if k > 0 {
            assert(head[k - 1] == items[k - 1]);
        }
        lemma_insert_item(head, item, k);
        assert(head.insert(k, item).push(items.last()) =~= items.insert(k, item));
    } else {
        assert(items.insert(k, item) =~= items.push(item));
    }
}

/// Sorts entries in the order of a tree object.
pub fn sort_tree_items_for_git(items: Vec<TreeItem>) -> (r: Vec<TreeItem>)
    ensures
        item_views(r@) == sorted_items(item_views(items@)),
{
    let ghost all = item_views(items@);
    let mut rest = items;
    let mut out: Vec<TreeItem> = Vec::new();
    let ghost mut done: int = 0;
    assert(all.take(0) =~= Seq::<TreeItemView>::empty());
    assert(item_views(out@) =~= Seq::<TreeItemView>::empty());
    assert(item_views(rest@) =~= all.skip(0));
    while rest.len() > 0
        invariant
            0 <= done <= all.len(),
            item_views(rest@) == all.skip(done),
            item_views(out@) == sorted_items(all.take(done)),
        decreases rest@.len(),
    {
        let ghost before = item_views(out@);
        let ghost waiting = item_views(rest@);
        let item = rest.remove(0);
        let ghost x = item@;
        proof {
            assert(waiting.len() == all.len() - done);
            assert(waiting[0] == x);
            assert(all.skip(done)[0] == all[done]);
            assert(item_views(rest@) =~= waiting.remove(0));
            assert(waiting.remove(0) =~= all.skip(done + 1));
            assert(all.take(done + 1).drop_last() =~= all.take(done));
            assert(all.take(done + 1).last() == x);
        }
        let key = key_of(&item);
        let mut k: usize = out.len();
        let mut go: bool = true;
        while k > 0 && go
            invariant
                k <= out@.len(),
                before == item_views(out@),
                key@ == sort_key(x),
                forall|j: int|
                    k <= j < out@.len() ==> text_lt(sort_key(x), sort_key(#[trigger] before[j])),
                !go ==> k > 0 && !text_lt(sort_key(x), sort_key(before[k - 1])),
            decreases k + (if go { 1int } else { 0 }),
        {
            let other = key_of(&out[k - 1]);
            assert(before[k - 1] == out@[k - 1]@);
            if text_before(key.as_str(), other.as_str()) {
                k = k - 1;
            } else {
                go = false;
            }
        }
        out.insert(k, item);
        proof {
            lemma_insert_item(before, x, k as int);
            assert(item_views(out@) =~= before.insert(k as int, x));
            done = done + 1;
        }
    }
    proof {
        assert(all.skip(done).len() == 0);
        assert(all.take(done) =~= all);
    }
    out
}

fn push_all(out: &mut Vec<u8>, bytes: &Vec<u8>)
    ensures
        final(out)@ == old(out)@ + bytes@,
{
    let ghost start = out@;
    let mut i: usize = 0;
    assert(start + bytes@.take(0) =~= start);
    while i < bytes.len()
        invariant
            i <= bytes@.len(),
            out@ == start + bytes@.take(i as int),
        decreases bytes@.len() - i,
    {
        out.push(bytes[i]);
        assert((start + bytes@.take(i as int)).push(bytes@[i as int]) =~= start + bytes@.take(i as int + 1));
        i = i + 1;
    }
    assert(bytes@.take(bytes@.len() as int) =~= bytes@);
}

fn mode_digits(mode: TreeItemMode) -> (r: Vec<u8>)
    ensures
        r@ == mode_bytes(mode),
{
    let r: Vec<u8> = match mode {
        TreeItemMode::Blob => vec![49u8, 48u8, 48u8, 54u8, 52u8, 52u8],
        TreeItemMode::BlobExecutable => vec![49u8, 48u8, 48u8, 55u8, 53u8, 53u8],
        TreeItemMode::Link => vec![49u8, 50u8, 48u8, 48u8, 48u8, 48u8],
        TreeItemMode::Tree => vec![52u8, 48u8, 48u8, 48u8, 48u8],
        TreeItemMode::Commit => vec![49u8, 54u8, 48u8, 48u8, 48u8, 48u8],
    };
    assert(r@ =~= mode_bytes(mode));
    r
}

/// The content of the tree object that holds `items`.
pub fn tree_data(items: &Vec<TreeItem>) -> (r: Vec<u8>)
    ensures
        r@ == tree_bytes(item_views(items@)),
{
    let ghost all = item_views(items@);
    let mut out: Vec<u8> = Vec::new();
    let mut i: usize = 0;
    assert(all.take(0) =~= Seq::<TreeItemView>::empty());
    while i < items.len()
        invariant
            i <= items@.len(),
            all == item_views(items@),
            out@ == tree_bytes(all.take(i as int)),
        decreases items@.len() - i,
    {
        let ghost before = out@;
        proof {
            assert(all.take(i as int + 1).drop_last() =~= all.take(i as int));
            assert(all.take(i as int + 1).last() == items@[i as int]@);
        }
        let mode = mode_digits(items[i].mode);
        let name = items[i].name.as_str().as_bytes_vec();
        let id = object_id_bytes(items[i].id);
        push_all(&mut out, &mode);
        out.push(32u8);
        push_all(&mut out, &name);
        out.push(0u8);
        push_all(&mut out, &id);
        assert(out@ =~= before + item_bytes(items@[i as int]@));
        i = i + 1;
    }
    assert(all.take(all.len() as int) =~= all);
    out
}

fn collect_level(files: &Vec<TreeFile>, depth: usize) -> (r: (Vec<TreeItem>, Vec<String>))
    ensures
        item_views(r.0@) == files_at(file_views(files@), depth as nat),
        texts(r.1@) == dirs_at(file_views(files@), depth as nat),
{
    let ghost all = file_views(files@);
    let mut items: Vec<TreeItem> = Vec::new();
    let mut dirs: Vec<String> = Vec::new();
    let mut i: usize = 0;
    assert(all.take(0) =~= Seq::<TreeFileView>::empty());
    assert(item_views(items@) =~= Seq::<TreeItemView>::empty());
    assert(texts(dirs@) =~= Seq::<Seq<char>>::empty());
    while i < files.len()
        invariant
            i <= files@.len(),
            all == file_views(files@),
            item_views(items@) == files_at(all.take(i as int), depth as nat),
            texts(dirs@) == dirs_at(all.take(i as int), depth as nat),
        decreases files@.len() - i,
    {
        let ghost items0 = items@;
        let ghost dirs0 = dirs@;
        proof {
            assert(all.take(i as int + 1).drop_last() =~= all.take(i as int));
            assert(all.take(i as int + 1).last() == files@[i as int]@);
        }
        let count: usize = files[i].names.len();
        if count > depth {
            assert(texts(files@[i as int].names@)[depth as int] == files@[i as int].names@[depth as int]@);
            if count - depth == 1 {
                let item = TreeItem {
                    mode: files[i].mode,
                    name: files[i].names[depth].clone(),
                    id: files[i].id,
                };
                let ghost iv = item@;
                items.push(item);
                assert(item_views(items@) =~= item_views(items0).push(iv));
            } else if !contains_text(&dirs, files[i].names[depth].as_str()) {
                dirs.push(files[i].names[depth].clone());
                assert(texts(dirs@) =~= texts(dirs0).push(files@[i as int].names@[depth as int]@));
            }
        }
        i = i + 1;
    }
    assert(all.take(all.len() as int) =~= all);
    (items, dirs)
}

fn collect_below(files: &Vec<TreeFile>, depth: usize, name: &str) -> (r: Vec<TreeFile>)
    ensures
        file_views(r@) == files_below(file_views(files@), depth as nat, name@),
{
    let ghost all = file_views(files@);
    let mut out: Vec<TreeFile> = Vec::new();
    let mut i: usize = 0;
    assert(all.take(0) =~= Seq::<TreeFileView>::empty());
    assert(file_views(out@) =~= Seq::<TreeFileView>::empty());
    while i < files.len()
        invariant
            i <= files@.len(),
            all == file_views(files@),
            file_views(out@) == files_below(all.take(i as int), depth as nat, name@),
        decreases files@.len() - i,
    {
        let ghost out0 = out@;
        proof {
            assert(all.take(i as int + 1).drop_last() =~= all.take(i as int));
            assert(all.take(i as int + 1).last() == files@[i as int]@);
        }
        let count: usize = files[i].names.len();
        if count > depth && count - depth > 1 {
            assert(texts(files@[i as int].names@)[depth as int] == files@[i as int].names@[depth as int]@);
            if text_eq(files[i].names[depth].as_str(), name) {
                let file = TreeFile {
                    names: clone_texts(&files[i].names),
                    mode: files[i].mode,
                    id: files[i].id,
                };
                let ghost fv = file@;
                out.push(file);
                assert(file_views(out@) =~= file_views(out0).push(fv));
            }
        }
        i = i + 1;
    }
    assert(all.take(all.len() as int) =~= all);
    out
}

/// Builds the tree object of the directory at `depth` and those below it, which are added to
/// `trees`, each after those that it holds.
fn build_directory(
    kind: HashKind,
    files: &Vec<TreeFile>,
    depth: usize,
    levels: usize,
    trees: &mut Vec<NewTree>,
    Ghost(plain): Ghost<bool>,
) -> (r: ObjectId)
    requires
        depth + levels <= usize::MAX,
        trees_named(kind, old(trees)@),
        plain ==> plain_files(file_views(files@)) && dirs_listed(old(trees)@),
    ensures
        old(trees)@.is_prefix_of(final(trees)@),
        plain ==> dirs_listed(final(trees)@),
        r == tree_id(
            kind,
            directory_items(kind, file_views(files@), depth as nat, levels as nat),
        ),
        trees_named(kind, final(trees)@),
        final(trees)@.len() > 0,
        final(trees)@.last().id == r,
        item_views(final(trees)@.last().items@) == directory_items(
            kind,
            file_views(files@),
            depth as nat,
            levels as nat,
        ),
        written(kind, file_views(files@), depth as nat, levels as nat, final(trees)@),
    decreases levels,
{
    let (mut items, dirs) = collect_level(files, depth);
    let ghost views = file_views(files@);
    let ghost names = texts(dirs@);
    let ghost level = item_views(items@);
    let ghost first = trees@;
    proof {
        if plain {
            lemma_plain_level(views, depth as nat, Seq::empty());
            assert forall|k: int| 0 <= k < items@.len() implies (#[trigger] items@[k]).mode
                != TreeItemMode::Tree by {
                assert(level[k] == items@[k]@);
            }
        }
    }
    if levels > 0 {
        let mut i: usize = 0;
        assert(names.take(0) =~= Seq::<Seq<char>>::empty());
        assert(item_views(items@) =~= level + subtree_items(
            kind,
            views,
            depth as nat,
            names.take(0),
            levels as nat,
        ));
        while i < dirs.len()
            invariant
                levels > 0,
                depth + levels <= usize::MAX,
                i <= dirs@.len(),
                views == file_views(files@),
                names == texts(dirs@),
                trees_named(kind, trees@),
                plain ==> plain_files(views),
                first.is_prefix_of(trees@),
                plain ==> dirs_listed(trees@),
                plain ==> forall|k: int|
                    0 <= k < items@.len() && (#[trigger] items@[k]).mode == TreeItemMode::Tree
                        ==> tree_listed(trees@, trees@.len() as int, items@[k].id),
                forall|k: int|
                    0 <= k < i ==> written(
                        kind,
                        files_below(views, depth as nat, #[trigger] names[k]),
                        depth as nat + 1,
                        (levels - 1) as nat,
                        trees@,
                    ),
                item_views(items@) == level + subtree_items(
                    kind,
                    views,
                    depth as nat,
                    names.take(i as int),
                    levels as nat,
                ),
            decreases dirs@.len() - i,
        {
            let ghost items0 = items@;
            let ghost trees0 = trees@;
            let below = collect_below(files, depth, dirs[i].as_str());
            proof {
                if plain {
                    lemma_plain_level(views, depth as nat, dirs@[i as int]@);
                }
            }
            let id = build_directory(
                kind,
                &below,
                depth + 1,
                levels - 1,
                trees,
                Ghost(plain),
            );
            proof {
                assert forall|k: int| 0 <= k < i + 1 implies written(
                    kind,
                    files_below(views, depth as nat, #[trigger] names[k]),
                    depth as nat + 1,
                    (levels - 1) as nat,
                    trees@,
                ) by {
                    if k < i {
                        lemma_stays_written(
                            kind,
                            files_below(views, depth as nat, names[k]),
                            depth as nat + 1,
                            (levels - 1) as nat,
                            trees0,
                            trees@,
                        );
                    } else {
                        assert(names[k] == dirs@[i as int]@);
                    }
                }
            }
            let item = TreeItem { mode: TreeItemMode::Tree, name: dirs[i].clone(), id };
            let ghost iv = item@;
            items.push(item);
            proof {
                assert(names.take(i as int + 1).drop_last() =~= names.take(i as int));
                assert(names.take(i as int + 1).last() == dirs@[i as int]@);
                assert(item_views(items@) =~= item_views(items0).push(iv));
                assert(item_views(items@) =~= level + subtree_items(
                    kind,
                    views,
                    depth as nat,
                    names.take(i as int + 1),
                    levels as nat,
                ));
                if plain {
                    assert forall|k: int|
                        0 <= k < items@.len() && (#[trigger] items@[k]).mode
                            == TreeItemMode::Tree implies tree_listed(
                        trees@,
                        trees@.len() as int,
                        items@[k].id,
                    ) by {
                        if k < items0.len() {
                            assert(items0[k] == items@[k]);
                            lemma_listed_later(trees0, trees@, items@[k].id);
                        } else {
                            assert(trees@[trees@.len() - 1].id == id);
                        }
                    }
                }
            }
            i = i + 1;
        }
        assert(names.take(names.len() as int) =~= names);
    } else {
        assert(level + subtree_items(kind, views, depth as nat, names, 0) =~= level);
    }
    let ghost unsorted = items@;
    let sorted = sort_tree_items_for_git(items);
    proof {
        if plain {
            law_sorted_items_are_ordered(item_views(unsorted));
            assert forall|k: int|
                0 <= k < sorted@.len() && (#[trigger] sorted@[k]).mode
                    == TreeItemMode::Tree implies tree_listed(
                trees@,
                trees@.len() as int,
                sorted@[k].id,
            ) by {
                let x = sorted@[k]@;
                assert(item_views(sorted@)[k] == x);
                assert(item_views(sorted@).contains(x));
                let j = choose|j: int|
                    0 <= j < item_views(unsorted).len() && item_views(unsorted)[j] == x;
                assert(unsorted[j]@ == x);
                assert(unsorted[j].mode == TreeItemMode::Tree);
            }
        }
    }
    let data = tree_data(&sorted);
    let id = object_id_of_data(kind, "tree", &data);
    let ghost before = trees@;
    let tree = NewTree { id, items: sorted };
    proof {
        if plain {
            lemma_dirs_stay_listed(before, tree);
        }
    }
    trees.push(tree);
    proof {
        assert forall|i: int| 0 <= i < trees@.len() implies (#[trigger] trees@[i]).id == tree_id(
            kind,
            item_views(trees@[i].items@),
        ) by {
            if i < before.len() {
                assert(trees@[i] == before[i]);
            }
        }
        let items = directory_items(kind, views, depth as nat, levels as nat);
        assert(item_views(trees@[trees@.len() - 1].items@) == items);
        if levels > 0 {
            assert(names == dirs_at(views, depth as nat));
            assert forall|name: Seq<char>| #[trigger]
                dirs_at(views, depth as nat).contains(name) implies written(
                kind,
                files_below(views, depth as nat, name),
                depth as nat + 1,
                (levels - 1) as nat,
                trees@,
            ) by {
                let k = choose|k: int| 0 <= k < names.len() && names[k] == name;
                lemma_stays_written(
                    kind,
                    files_below(views, depth as nat, names[k]),
                    depth as nat + 1,
                    (levels - 1) as nat,
                    before,
                    trees@,
                );
            }
        }
    }
    id
}

/// The length of the longest path.
pub open spec fn longest(files: Seq<TreeFileView>) -> nat
    decreases files.len(),
{
    if files.len() == 0 {
        0
    } else if files.last().names.len() > longest(files.drop_last()) {
        files.last().names.len()
    } else {
        longest(files.drop_last())
    }
}

/// The entries of the root tree of a list of files.
pub open spec fn root_items(kind: HashKind, files: Seq<TreeFileView>) -> Seq<TreeItemView> {
    directory_items(kind, files, 0, longest(files))
}

/// The trees of all directories of a list of files are among the new ones.
pub open spec fn all_written(kind: HashKind, files: Seq<TreeFileView>, trees: Seq<NewTree>) -> bool {
    written(kind, files, 0, longest(files), trees)
}

/// Builds the tree objects of a list of files and gives the name of the root tree. A directory
/// comes after the directories that it holds, so the root comes last.
pub fn build_tree(kind: HashKind, files: &Vec<TreeFile>) -> (r: (ObjectId, Vec<NewTree>))
    ensures
        r.0 == tree_id(kind, root_items(kind, file_views(files@))),
        trees_named(kind, r.1@),
        r.1@.len() > 0,
        r.1@.last().id == r.0,
        item_views(r.1@.last().items@) == root_items(kind, file_views(files@)),
        subtrees_listed(r.1@, file_views(files@)),
        all_written(kind, file_views(files@), r.1@),
{
    let ghost all = file_views(files@);
    let mut levels: usize = 0;
    let mut i: usize = 0;
    assert(all.take(0) =~= Seq::<TreeFileView>::empty());
    while i < files.len()
        invariant
            i <= files@.len(),
            all == file_views(files@),
            levels == longest(all.take(i as int)),
        decreases files@.len() - i,
    {
        proof {
            assert(all.take(i as int + 1).drop_last() =~= all.take(i as int));
            assert(all.take(i as int + 1).last() == files@[i as int]@);
        }
        if files[i].names.len() > levels {
            levels = files[i].names.len();
        }
        i = i + 1;
    }
    assert(all.take(all.len() as int) =~= all);
    let mut trees: Vec<NewTree> = Vec::new();
    let ghost plain = plain_files(all);
    let id = build_directory(kind, files, 0, levels, &mut trees, Ghost(plain));
    (id, trees)
}

proof fn lemma_insert_keeps_order(items: Seq<TreeItemView>, item: TreeItemView)
    requires
        tree_ordered(items),
    ensures
        tree_ordered(insert_item(items, item)),
        insert_item(items, item).len() == items.len() + 1,
        forall|x: TreeItemView|
            #[trigger] insert_item(items, item).contains(x) <==> items.contains(x) || x == item,
    decreases items.len(),
{
    let out = insert_item(items, item);
    if items.len() > 0 && text_lt(sort_key(item), sort_key(items.last())) {
        let head = items.drop_last();
        assert forall|i: int, j: int| 0 <= i < j < head.len() implies !text_lt(
            sort_key(#[trigger] head[j]),
            sort_key(#[trigger] head[i]),
        ) by {
            assert(head[i] == items[i]);
            assert(head[j] == items[j]);
        }
        lemma_insert_keeps_order(head, item);
        let inner = insert_item(head, item);
        assert forall|i: int, j: int| 0 <= i < j < out.len() implies !text_lt(
            sort_key(#[trigger] out[j]),
            sort_key(#[trigger] out[i]),
        ) by {
            if j < inner.len() {
                assert(out[i] == inner[i]);
                assert(out[j] == inner[j]);
            } else {
                assert(out[j] == items.last());
                assert(inner.contains(inner[i]));
                assert(out[i] == inner[i]);
                if inner[i] == item {
                    if text_lt(sort_key(items.last()), sort_key(item)) {
                        lemma_text_lt_transitive(
                            sort_key(item),
                            sort_key(items.last()),
                            sort_key(item),
                        );
                        lemma_text_lt_irreflexive(sort_key(item));
                    }
                } else {
                    assert(head.contains(inner[i]));
                    let k = choose|k: int| 0 <= k < head.len() && head[k] == inner[i];
                    assert(items[k] == inner[i]);
                    assert(items[items.len() - 1] == items.last());
                }
            }
        }
        assert forall|x: TreeItemView| #[trigger] out.contains(x) <==> items.contains(x) || x == item by {
            if out.contains(x) {
                let k = choose|k: int| 0 <= k < out.len() && out[k] == x;
                if k < inner.len() {
                    assert(inner[k] == x);
                    assert(inner.contains(x));
                    if x != item {
                        let m = choose|m: int| 0 <= m < head.len() && head[m] == x;
                        assert(items[m] == x);
                    }
                } else {
                    assert(items[items.len() - 1] == x);
                }
            }
            if items.contains(x) || x == item {
                if x == items.last() {
                    assert(out[out.len() - 1] == x);
                } else {
                    if items.contains(x) {
                        let m = choose|m: int| 0 <= m < items.len() && items[m] == x;
                        assert(head[m] == x);
                        assert(head.contains(x));
                    }
                    assert(inner.contains(x));
                    let k = choose|k: int| 0 <= k < inner.len() && inner[k] == x;
                    assert(out[k] == x);
                }
            }
        }
    } else {
        assert forall|i: int, j: int| 0 <= i < j < out.len() implies !text_lt(
            sort_key(#[trigger] out[j]),
            sort_key(#[trigger] out[i]),
        ) by {
            if j < items.len() {
                assert(out[i] == items[i]);
                assert(out[j] == items[j]);
            } else {
                assert(out[i] == items[i]);
                let last = items.last();
                assert(items[items.len() - 1] == last);
                if text_lt(sort_key(item), sort_key(items[i])) {
                    lemma_text_lt_total(sort_key(items[i]), sort_key(last));
                    if i < items.len() - 1 {
                        assert(!text_lt(sort_key(items[items.len() - 1]), sort_key(items[i])));
                        if sort_key(items[i]) != sort_key(last) {
                            lemma_text_lt_transitive(
                                sort_key(item),
                                sort_key(items[i]),
                                sort_key(last),
                            );
                        }
                    }
                }
            }
        }
        assert forall|x: TreeItemView| #[trigger] out.contains(x) <==> items.contains(x) || x == item by {
            if out.contains(x) {
                let k = choose|k: int| 0 <= k < out.len() && out[k] == x;
                if k < items.len() {
                    assert(items[k] == x);
                }
            }
            if items.contains(x) {
                let k = choose|k: int| 0 <= k < items.len() && items[k] == x;
                assert(out[k] == x);
            }
            if x == item {
                assert(out[items.len() as int] == x);
            }
        }
    }
}

/// Sorting the entries of a tree loses none, adds none, and puts them in the order of names in
/// which a directory counts as if its name ended in a slash.
pub proof fn law_sorted_items_are_ordered(items: Seq<TreeItemView>)
    ensures
        tree_ordered(sorted_items(items)),
        sorted_items(items).len() == items.len(),
        forall|x: TreeItemView| #[trigger] sorted_items(items).contains(x) <==> items.contains(x),
    decreases items.len(),
{
    if items.len() > 0 {
        let head = items.drop_last();
        law_sorted_items_are_ordered(head);
        lemma_insert_keeps_order(sorted_items(head), items.last());
        assert forall|x: TreeItemView| #[trigger] sorted_items(items).contains(x) <==> items.contains(x) by {
            assert(sorted_items(head).contains(x) <==> head.contains(x));
            assert(insert_item(sorted_items(head), items.last()).contains(x) <==> sorted_items(head).contains(x) || x == items.last());
            if head.contains(x) {
                let k = choose|k: int| 0 <= k < head.len() && head[k] == x;
                assert(items[k] == x);
            }
            if items.contains(x) {
                let k = choose|k: int| 0 <= k < items.len() && items[k] == x;
                if k < head.len() {
                    assert(head[k] == x);
                }
            }
            if x == items.last() {
                assert(items[items.len() - 1] == x);
            }
        }
    }
}

proof fn lemma_longest(files: Seq<TreeFileView>, k: int)
    requires
        0 <= k < files.len(),
    ensures
        files[k].names.len() <= longest(files),
    decreases files.len(),
{
    if k < files.len() - 1 {
        lemma_longest(files.drop_last(), k);
    }
}

/// What stands at a level of the paths.
proof fn lemma_level(files: Seq<TreeFileView>, depth: nat, name: Seq<char>)
    ensures
        forall|f: TreeFileView| #[trigger]
            files_below(files, depth, name).contains(f) <==> files.contains(f) && f.names.len()
                > depth + 1 && f.names[depth as int] == name,
        forall|f: TreeFileView| #[trigger]
            files.contains(f) && f.names.len() == depth + 1 ==> files_at(files, depth).contains(
                TreeItemView { mode: f.mode, name: f.names[depth as int], id: f.id },
            ),
        forall|item: TreeItemView| #[trigger]
            files_at(files, depth).contains(item) ==> exists|f: TreeFileView| #[trigger]
                files.contains(f) && f.names.len() == depth + 1 && f.names[depth as int] == item.name
                    && f.mode == item.mode && f.id == item.id,
        forall|f: TreeFileView| #[trigger]
            files.contains(f) && f.names.len() > depth + 1 ==> dirs_at(files, depth).contains(
                f.names[depth as int],
            ),
    decreases files.len(),
{
    if files.len() > 0 {
        let head = files.drop_last();
        let last = files.last();
        lemma_level(head, depth, name);
        assert forall|f: TreeFileView| #[trigger] files.contains(f) <==> head.contains(f) || f == last by {
            if files.contains(f) {
                let k = choose|k: int| 0 <= k < files.len() && files[k] == f;
                if k < head.len() {
                    assert(head[k] == f);
                }
            }
            if head.contains(f) {
                let k = choose|k: int| 0 <= k < head.len() && head[k] == f;
                assert(files[k] == f);
            }
            assert(files[files.len() - 1] == last);
        }
        let below = files_below(head, depth, name);
        assert forall|f: TreeFileView| #[trigger] below.push(last).contains(f) <==> below.contains(f) || f
            == last by {
            lemma_pushed(below, last, f);
        }
        let at = files_at(head, depth);
        let entry = TreeItemView {
            mode: last.mode,
            name: last.names[depth as int],
            id: last.id,
        };
        assert forall|x: TreeItemView| #[trigger] at.push(entry).contains(x) <==> at.contains(x) || x
            == entry by {
            lemma_pushed(at, entry, x);
        }
        let dirs = dirs_at(head, depth);
        let dir = last.names[depth as int];
        assert forall|x: Seq<char>| #[trigger] dirs.push(dir).contains(x) <==> dirs.contains(x) || x
            == dir by {
            lemma_pushed(dirs, dir, x);
        }
        assert forall|item: TreeItemView| #[trigger]
            files_at(files, depth).contains(item) implies exists|f: TreeFileView| #[trigger]
            files.contains(f) && f.names.len() == depth + 1 && f.names[depth as int] == item.name
                && f.mode == item.mode && f.id == item.id by {
            if at.contains(item) {
                let f = choose|f: TreeFileView| #[trigger]
                    head.contains(f) && f.names.len() == depth + 1 && f.names[depth as int]
                        == item.name && f.mode == item.mode && f.id == item.id;
                assert(files.contains(f));
            } else {
                assert(files.contains(last));
            }
        }
    }
}

proof fn lemma_pushed<T>(s: Seq<T>, last: T, x: T)
    ensures
        s.push(last).contains(x) <==> s.contains(x) || x == last,
{
    if s.push(last).contains(x) {
        let k = choose|k: int| 0 <= k < s.push(last).len() && s.push(last)[k] == x;
        if k < s.len() {
            assert(s[k] == x);
        }
    }
    if s.contains(x) {
        let k = choose|k: int| 0 <= k < s.len() && s[k] == x;
        assert(s.push(last)[k] == x);
    }
    assert(s.push(last)[s.len() as int] == last);
}

/// The entry of one directory.
pub open spec fn subtree_item(
    kind: HashKind,
    files: Seq<TreeFileView>,
    depth: nat,
    name: Seq<char>,
    levels: nat,
) -> TreeItemView {
    TreeItemView {
        mode: TreeItemMode::Tree,
        name,
        id: tree_id(
            kind,
            directory_items(
                kind,
                files_below(files, depth, name),
                depth + 1,
                (levels - 1) as nat,
            ),
        ),
    }
}

proof fn lemma_subtree_items(
    kind: HashKind,
    files: Seq<TreeFileView>,
    depth: nat,
    dirs: Seq<Seq<char>>,
    levels: nat,
)
    requires
        levels > 0,
    ensures
        forall|name: Seq<char>| #[trigger]
            dirs.contains(name) ==> subtree_items(kind, files, depth, dirs, levels).contains(
                subtree_item(kind, files, depth, name, levels),
            ),
        forall|item: TreeItemView| #[trigger]
            subtree_items(kind, files, depth, dirs, levels).contains(item) ==> dirs.contains(
                item.name,
            ) && item == subtree_item(kind, files, depth, item.name, levels),
    decreases dirs.len(),
{
    if dirs.len() > 0 {
        let head = dirs.drop_last();
        let last = dirs.last();
        lemma_subtree_items(kind, files, depth, head, levels);
        let items = subtree_items(kind, files, depth, head, levels);
        let entry = subtree_item(kind, files, depth, last, levels);
        assert(subtree_items(kind, files, depth, dirs, levels) == items.push(entry));
        assert forall|x: TreeItemView| #[trigger] items.push(entry).contains(x) <==> items.contains(x)
            || x == entry by {
            lemma_pushed(items, entry, x);
        }
        assert(dirs =~= head.push(last));
        assert forall|x: Seq<char>| #[trigger] dirs.contains(x) <==> head.contains(x) || x == last by {
            lemma_pushed(head, last, x);
        }
    }
}

/// The entries of a directory are those of its files and of its directories.
proof fn lemma_directory_items(
    kind: HashKind,
    files: Seq<TreeFileView>,
    depth: nat,
    levels: nat,
    item: TreeItemView,
)
    ensures
        directory_items(kind, files, depth, levels).contains(item) <==> files_at(
            files,
            depth,
        ).contains(item) || subtree_items(
            kind,
            files,
            depth,
            dirs_at(files, depth),
            levels,
        ).contains(item),
{
    let at = files_at(files, depth);
    let below = subtree_items(kind, files, depth, dirs_at(files, depth), levels);
    law_sorted_items_are_ordered(at + below);
    if (at + below).contains(item) {
        let k = choose|k: int| 0 <= k < (at + below).len() && (at + below)[k] == item;
        if k < at.len() {
            assert(at[k] == item);
        } else {
            assert(below[k - at.len()] == item);
        }
    }
    if at.contains(item) {
        let k = choose|k: int| 0 <= k < at.len() && at[k] == item;
        assert((at + below)[k] == item);
    }
    if below.contains(item) {
        let k = choose|k: int| 0 <= k < below.len() && below[k] == item;
        assert((at + below)[at.len() + k] == item);
    }
}

/// From entries `items` a path leads through the trees to a file.
pub open spec fn found(
    trees: Seq<NewTree>,
    items: Seq<TreeItemView>,
    file: TreeFileView,
) -> bool
    decreases file.names.len(),
{
    if file.names.len() == 0 {
        false
    } else if file.names.len() == 1 {
        items.contains(TreeItemView { mode: file.mode, name: file.names[0], id: file.id })
    } else {
        exists|j: int|
            0 <= j < trees.len() && items.contains(
                TreeItemView {
                    mode: TreeItemMode::Tree,
                    name: file.names[0],
                    id: (#[trigger] trees[j]).id,
                },
            ) && found(trees, item_views(trees[j].items@), below(file))
    }
}

/// A file as the first directory of its path has it.
pub open spec fn below(file: TreeFileView) -> TreeFileView {
    TreeFileView { names: file.names.drop_first(), mode: file.mode, id: file.id }
}

/// A file as the directory at `depth` has it.
pub open spec fn at_depth(file: TreeFileView, depth: nat) -> TreeFileView {
    TreeFileView { names: file.names.skip(depth as int), mode: file.mode, id: file.id }
}

proof fn lemma_files_are_found(
    kind: HashKind,
    files: Seq<TreeFileView>,
    depth: nat,
    levels: nat,
    trees: Seq<NewTree>,
    file: TreeFileView,
)
    requires
        written(kind, files, depth, levels, trees),
        trees_named(kind, trees),
        files.contains(file),
        depth < file.names.len() <= depth + levels,
    ensures
        found(trees, directory_items(kind, files, depth, levels), at_depth(file, depth)),
    decreases levels,
{
    let here = at_depth(file, depth);
    let name = file.names[depth as int];
    let items = directory_items(kind, files, depth, levels);
    lemma_level(files, depth, name);
    assert(here.names[0] == name);
    if file.names.len() == depth + 1 {
        let entry = TreeItemView { mode: file.mode, name, id: file.id };
        lemma_directory_items(kind, files, depth, levels, entry);
    } else {
        let dirs = dirs_at(files, depth);
        let under = files_below(files, depth, name);
        let fewer = (levels - 1) as nat;
        lemma_subtree_items(kind, files, depth, dirs, levels);
        assert(dirs.contains(name));
        let entry = subtree_item(kind, files, depth, name, levels);
        lemma_directory_items(kind, files, depth, levels, entry);
        assert(written(kind, under, depth + 1, fewer, trees));
        assert(under.contains(file));
        lemma_files_are_found(kind, under, depth + 1, fewer, trees, file);
        let inner = directory_items(kind, under, depth + 1, fewer);
        assert(tree_written(trees, inner));
        let j = choose|j: int|
            0 <= j < trees.len() && item_views((#[trigger] trees[j]).items@) == inner;
        assert(trees[j].id == tree_id(kind, item_views(trees[j].items@)));
        assert(below(here).names =~= at_depth(file, depth + 1).names);
        assert(found(trees, item_views(trees[j].items@), below(here)));
    }
}

/// Every file that a tree is built from is found in it, under its path and with its mode and its
/// object: the trees that were built suffice to read it.
pub proof fn law_built_tree_holds_every_file(
    kind: HashKind,
    files: Seq<TreeFileView>,
    trees: Seq<NewTree>,
    k: int,
)
    requires
        all_written(kind, files, trees),
        trees_named(kind, trees),
        0 <= k < files.len(),
        files[k].names.len() > 0,
    ensures
        found(trees, root_items(kind, files), files[k]),
{
    lemma_longest(files, k);
    assert(files.contains(files[k]));
    lemma_files_are_found(kind, files, 0, longest(files), trees, files[k]);
    assert(at_depth(files[k], 0).names =~= files[k].names);
}

/// No two of the trees share a name unless they are the same.
pub open spec fn told_apart(trees: Seq<NewTree>) -> bool {
    forall|i: int, j: int|
        0 <= i < trees.len() && 0 <= j < trees.len() && (#[trigger] trees[i]).id == (
        #[trigger] trees[j]).id ==> item_views(trees[i].items@) == item_views(trees[j].items@)
}

proof fn lemma_found_is_a_file(
    kind: HashKind,
    files: Seq<TreeFileView>,
    depth: nat,
    levels: nat,
    trees: Seq<NewTree>,
    path: TreeFileView,
) -> (file: TreeFileView)
    requires
        written(kind, files, depth, levels, trees),
        trees_named(kind, trees),
        told_apart(trees),
        plain_files(files),
        path.mode != TreeItemMode::Tree,
        found(trees, directory_items(kind, files, depth, levels), path),
    ensures
        files.contains(file),
        depth < file.names.len(),
        at_depth(file, depth) == path,
    decreases levels,
{
    let name = path.names[0];
    let dirs = dirs_at(files, depth);
    lemma_level(files, depth, name);
    lemma_plain_level(files, depth, name);
    if levels > 0 {
        lemma_subtree_items(kind, files, depth, dirs, levels);
    }
    if path.names.len() == 1 {
        let entry = TreeItemView { mode: path.mode, name, id: path.id };
        lemma_directory_items(kind, files, depth, levels, entry);
        assert(files_at(files, depth).contains(entry));
        let file = choose|f: TreeFileView| #[trigger]
            files.contains(f) && f.names.len() == depth + 1 && f.names[depth as int] == name && f.mode
                == entry.mode && f.id == entry.id;
        assert(at_depth(file, depth).names =~= path.names);
        file
    } else {
        let j = choose|j: int|
            0 <= j < trees.len() && directory_items(kind, files, depth, levels).contains(
                TreeItemView {
                    mode: TreeItemMode::Tree,
                    name,
                    id: (#[trigger] trees[j]).id,
                },
            ) && found(trees, item_views(trees[j].items@), below(path));
        let entry = TreeItemView { mode: TreeItemMode::Tree, name, id: trees[j].id };
        lemma_directory_items(kind, files, depth, levels, entry);
        let at = files_at(files, depth);
        if at.contains(entry) {
            let k = choose|k: int| 0 <= k < at.len() && at[k] == entry;
            assert(at[k].mode != TreeItemMode::Tree);
            assert(false);
        }
        assert(levels > 0);
        assert(dirs.contains(name));
        let under = files_below(files, depth, name);
        let fewer = (levels - 1) as nat;
        let inner = directory_items(kind, under, depth + 1, fewer);
        assert(entry == subtree_item(kind, files, depth, name, levels));
        assert(written(kind, under, depth + 1, fewer, trees));
        assert(tree_written(trees, inner));
        let i = choose|i: int|
            0 <= i < trees.len() && item_views((#[trigger] trees[i]).items@) == inner;
        assert(trees[i].id == tree_id(kind, item_views(trees[i].items@)));
        assert(trees[i].id == trees[j].id);
        assert(item_views(trees[j].items@) == inner);
        let file = lemma_found_is_a_file(kind, under, depth + 1, fewer, trees, below(path));
        assert(under.contains(file));
        assert(at_depth(file, depth).names =~= path.names) by {
            let names = at_depth(file, depth).names;
            assert(names[0] == name);
            assert(names.drop_first() =~= at_depth(file, depth + 1).names);
            assert(names =~= seq![names[0]] + names.drop_first());
            assert(path.names =~= seq![path.names[0]] + path.names.drop_first());
        }
        file
    }
}

/// Whatever is found in a built tree and is no directory is one of the files that it was built from,
/// unless two different trees share a name.
pub proof fn law_built_tree_holds_nothing_else(
    kind: HashKind,
    files: Seq<TreeFileView>,
    trees: Seq<NewTree>,
    path: TreeFileView,
)
    requires
        all_written(kind, files, trees),
        trees_named(kind, trees),
        told_apart(trees),
        plain_files(files),
        path.mode != TreeItemMode::Tree,
        found(trees, root_items(kind, files), path),
    ensures
        files.contains(path),
{
    let file = lemma_found_is_a_file(kind, files, 0, longest(files), trees, path);
    assert(at_depth(file, 0).names =~= file.names);
}

/// A directory is ordered in its tree as if its name ended in a slash, and anything else by its name.
pub proof fn law_order_of_a_tree(item: TreeItemView)
    ensures
        item.mode == TreeItemMode::Tree ==> sort_key(item) == item.name + "/"@,
        item.mode != TreeItemMode::Tree ==> sort_key(item) == item.name,
{
}

/// A tree is written entry by entry: the digits of the mode, a space, the name, a zero and the bytes of
/// the object's name.
pub proof fn law_tree_is_written_entry_by_entry(
    a: Seq<TreeItemView>,
    b: Seq<TreeItemView>,
    item: TreeItemView,
)
    ensures
        tree_bytes(a + b) == tree_bytes(a) + tree_bytes(b),
        tree_bytes(seq![item]) == mode_bytes(item.mode) + seq![' ' as u8] + encode_utf8(item.name) + seq![0u8]
            + id_bytes(item.id),
        tree_bytes(Seq::empty()) == Seq::<u8>::empty(),
    decreases b.len(),
{
    assert(seq![item].drop_last() =~= Seq::<TreeItemView>::empty());
    assert(tree_bytes(seq![item].drop_last()) =~= Seq::<u8>::empty());
    assert(tree_bytes(seq![item]) =~= item_bytes(item));
    if b.len() == 0 {
        assert(a + b =~= a);
        assert(tree_bytes(a) + tree_bytes(b) =~= tree_bytes(a));
    } else {
        assert((a + b).drop_last() =~= a + b.drop_last());
        law_tree_is_written_entry_by_entry(a, b.drop_last(), item);
        assert(tree_bytes(a + b) =~= tree_bytes(a) + tree_bytes(b));
    }
}

/// The digits of the modes that are written.
pub proof fn law_digits_of_the_modes()
    ensures
        mode_bytes(TreeItemMode::Blob) == "100644"@.map_values(|c: char| c as u8),
        mode_bytes(TreeItemMode::BlobExecutable) == "100755"@.map_values(|c: char| c as u8),
        mode_bytes(TreeItemMode::Link) == "120000"@.map_values(|c: char| c as u8),
        mode_bytes(TreeItemMode::Tree) == "40000"@.map_values(|c: char| c as u8),
        mode_bytes(TreeItemMode::Commit) == "160000"@.map_values(|c: char| c as u8),
{
    reveal_strlit("100644");
    reveal_strlit("100755");
    reveal_strlit("120000");
    reveal_strlit("40000");
    reveal_strlit("160000");
    assert(mode_bytes(TreeItemMode::Blob) =~= "100644"@.map_values(|c: char| c as u8));
    assert(mode_bytes(TreeItemMode::BlobExecutable) =~= "100755"@.map_values(|c: char| c as u8));
    assert(mode_bytes(TreeItemMode::Link) =~= "120000"@.map_values(|c: char| c as u8));
    assert(mode_bytes(TreeItemMode::Tree) =~= "40000"@.map_values(|c: char| c as u8));
    assert(mode_bytes(TreeItemMode::Commit) =~= "160000"@.map_values(|c: char| c as u8));
}

/// The files of a directory are those whose path ends in it, under their last names, in their order; the
/// files below one of its directories are those whose path goes on through it.
pub proof fn law_files_of_a_directory(
    files: Seq<TreeFileView>,
    f: TreeFileView,
    depth: nat,
    name: Seq<char>,
)
    ensures
        files_at(Seq::empty(), depth) == Seq::<TreeItemView>::empty(),
        f.names.len() == depth + 1 ==> files_at(files.push(f), depth) == files_at(files, depth).push(
            TreeItemView { mode: f.mode, name: f.names.last(), id: f.id },
        ),
        f.names.len() != depth + 1 ==> files_at(files.push(f), depth) == files_at(files, depth),
        files_below(files, depth, name) == files.filter(
            |g: TreeFileView| g.names.len() > depth + 1 && g.names[depth as int] == name,
        ),
    decreases files.len(),
{
    assert(files.push(f).drop_last() =~= files);
    reveal(Seq::filter);
    if files.len() > 0 {
        law_files_of_a_directory(files.drop_last(), f, depth, name);
    }
}

/// What a tree lists at its top is its own files and one entry for each of its directories, which names
/// the tree of what lies below it.
pub proof fn law_top_of_a_tree(kind: HashKind, files: Seq<TreeFileView>, item: TreeItemView)
    ensures
        tree_ordered(root_items(kind, files)),
        root_items(kind, files).contains(item) <==> (files_at(files, 0) + subtree_items(
            kind,
            files,
            0,
            dirs_at(files, 0),
            longest(files),
        )).contains(item),
{
    law_sorted_items_are_ordered(
        files_at(files, 0) + subtree_items(kind, files, 0, dirs_at(files, 0), longest(files)),
    );
}

} // verus!
