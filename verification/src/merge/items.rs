//! The files of a tree: a map from path to entry.

use vstd::prelude::*;

use crate::object::{ObjectId, TreeItemMode};
use crate::paths::{is_plain, plain_path, plainly};
use crate::text::{contains_text, text_eq, texts};

verus! {

/// What stands at a path of a tree.
#[derive(Debug, Clone, Copy, PartialEq, Eq, Structural)]
pub struct MergeTreeEntry {
    pub hash: ObjectId,
    pub mode: TreeItemMode,
}

/// One path of a tree and what stands there.
#[derive(Debug)]
pub struct TreeEntry {
    pub path: String,
    pub entry: MergeTreeEntry,
}

/// The files of a tree, each path once and written in its plainest way.
#[derive(Debug)]
pub struct TreeItems {
    pub items: Vec<TreeEntry>,
}

/// The map that a list of entries with distinct paths stands for.
pub open spec fn items_map(s: Seq<TreeEntry>) -> Map<Seq<char>, MergeTreeEntry>
    decreases s.len(),
{
    if s.len() == 0 {
        Map::empty()
    } else {
        items_map(s.drop_last()).insert(s.last().path@, s.last().entry)
    }
}

/// The map that a list of entries stands for, by the plainest texts of their paths: of two entries
/// with one path the later counts.
pub open spec fn plain_map(s: Seq<TreeEntry>) -> Map<Seq<char>, MergeTreeEntry>
    decreases s.len(),
{
    if s.len() == 0 {
        Map::empty()
    } else {
        plain_map(s.drop_last()).insert(plain_path(s.last().path@), s.last().entry)
    }
}

pub open spec fn lookup(m: Map<Seq<char>, MergeTreeEntry>, path: Seq<char>) -> Option<
    MergeTreeEntry,
> {
    if m.contains_key(path) {
        Some(m[path])
    } else {
        None
    }
}

pub open spec fn distinct_paths(s: Seq<TreeEntry>) -> bool {
    forall|i: int, j: int|
        0 <= i < j < s.len() ==> (#[trigger] s[i]).path@ != (#[trigger] s[j]).path@
}

pub open spec fn plain_paths(s: Seq<TreeEntry>) -> bool {
    forall|i: int| 0 <= i < s.len() ==> is_plain((#[trigger] s[i]).path@)
}

pub open spec fn paths_of(s: Seq<TreeEntry>) -> Seq<Seq<char>> {
    s.map_values(|e: TreeEntry| e.path@)
}

impl View for TreeItems {
    type V = Map<Seq<char>, MergeTreeEntry>;

    open spec fn view(&self) -> Map<Seq<char>, MergeTreeEntry> {
        items_map(self.items@)
    }
}

/// A path is in the map exactly where some entry has it.
pub proof fn lemma_items_map_contains(s: Seq<TreeEntry>, path: Seq<char>)
    ensures
        items_map(s).contains_key(path) <==> exists|i: int|
            0 <= i < s.len() && (#[trigger] s[i]).path@ == path,
    decreases s.len(),
{
    if s.len() > 0 {
        let r = s.drop_last();
        lemma_items_map_contains(r, path);
        assert forall|i: int| 0 <= i < r.len() implies r[i] == s[i] by {}
        if exists|i: int| 0 <= i < s.len() && (#[trigger] s[i]).path@ == path {
            let i = choose|i: int| 0 <= i < s.len() && (#[trigger] s[i]).path@ == path;
            if i < r.len() {
                assert(r[i].path@ == path);
            }
        }
        if items_map(r).contains_key(path) {
            let i = choose|i: int| 0 <= i < r.len() && (#[trigger] r[i]).path@ == path;
            assert(s[i].path@ == path);
        }
        if s.last().path@ == path {
            assert(s[s.len() - 1].path@ == path);
        }
    }
}

/// With distinct paths each entry is what the map gives at its path.
pub proof fn lemma_items_map_at(s: Seq<TreeEntry>, i: int)
    requires
        distinct_paths(s),
        0 <= i < s.len(),
    ensures
        items_map(s).contains_key(s[i].path@),
        items_map(s)[s[i].path@] == s[i].entry,
    decreases s.len(),
{
    let r = s.drop_last();
    if i < r.len() {
        assert(distinct_paths(r)) by {
            assert forall|a: int, b: int| 0 <= a < b < r.len() implies (#[trigger] r[a]).path@ != (
            #[trigger] r[b]).path@ by {
                assert(s[a].path@ != s[b].path@);
            }
        }
        lemma_items_map_at(r, i);
        assert(r[i] == s[i]);
        assert(s[i].path@ != s[s.len() - 1].path@);
    }
}

/// Every path of a map is plain.
pub proof fn lemma_paths_are_plain(items: TreeItems, path: Seq<char>)
    requires
        items.wf(),
        items@.contains_key(path),
    ensures
        is_plain(path),
{
    lemma_items_map_contains(items.items@, path);
    let i = choose|i: int| 0 <= i < items.items@.len() && (#[trigger] items.items@[i]).path@ == path;
    assert(is_plain(items.items@[i].path@));
}

pub proof fn lemma_items_map_finite(s: Seq<TreeEntry>)
    ensures
        items_map(s).dom().finite(),
    decreases s.len(),
{
    if s.len() > 0 {
        lemma_items_map_finite(s.drop_last());
    }
}

impl TreeItems {
    /// Each path occurs once, and is written in its plainest way.
    pub open spec fn wf(self) -> bool {
        distinct_paths(self.items@) && plain_paths(self.items@)
    }

    /// A tree without files.
    pub fn new() -> (r: TreeItems)
        ensures
            r.wf(),
            r@ == Map::<Seq<char>, MergeTreeEntry>::empty(),
            r.items@.len() == 0,
    {
        TreeItems { items: Vec::new() }
    }

    fn position(&self, path: &str) -> (r: Option<usize>)
        ensures
            r is None <==> !self@.contains_key(path@),
            r matches Some(i) ==> i < self.items@.len() && self.items@[i as int].path@ == path@,
    {
        let mut i: usize = 0;
        while i < self.items.len()
            invariant
                i <= self.items@.len(),
                forall|j: int| 0 <= j < i ==> (#[trigger] self.items@[j]).path@ != path@,
            decreases self.items@.len() - i,
        {
            if text_eq(self.items[i].path.as_str(), path) {
                proof {
                    lemma_items_map_contains(self.items@, path@);
                }
                return Some(i);
            }
            i = i + 1;
        }
        proof {
            lemma_items_map_contains(self.items@, path@);
        }
        None
    }

    /// What stands at `path`.
    pub fn get(&self, path: &str) -> (r: Option<MergeTreeEntry>)
        requires
            self.wf(),
        ensures
            r == lookup(self@, plain_path(path@)),
    {
        let plain = plainly(path);
        self.get_at(plain.as_str())
    }

    /// What stands at a path of a tree, which is plain.
    pub(crate) fn get_at(&self, path: &str) -> (r: Option<MergeTreeEntry>)
        requires
            self.wf(),
        ensures
            r == lookup(self@, path@),
    {
        match self.position(path) {
            Some(i) => {
                proof {
                    lemma_items_map_at(self.items@, i as int);
                }
                Some(self.items[i].entry)
            },
            None => None,
        }
    }

    /// Whether something stands at `path`.
    pub fn contains_key(&self, path: &str) -> (r: bool)
        ensures
            r == self@.contains_key(plain_path(path@)),
    {
        let plain = plainly(path);
        self.holds_at(plain.as_str())
    }

    /// Whether something stands at a plain path.
    pub(crate) fn holds_at(&self, path: &str) -> (r: bool)
        ensures
            r == self@.contains_key(path@),
    {
        self.position(path).is_some()
    }

    /// Puts `entry` at `path`, in place of what stood there.
    pub fn insert(&mut self, path: &str, entry: MergeTreeEntry)
        requires
            old(self).wf(),
        ensures
            final(self).wf(),
            final(self)@ == old(self)@.insert(plain_path(path@), entry),
    {
        let plain = plainly(path);
        self.insert_at(plain.as_str(), entry);
    }

    /// Puts `entry` at a plain path.
    pub(crate) fn insert_at(&mut self, path: &str, entry: MergeTreeEntry)
        requires
            old(self).wf(),
            is_plain(path@),
        ensures
            final(self).wf(),
            final(self)@ == old(self)@.insert(path@, entry),
    {
        self.remove_at(path);
        let ghost mid = self.items@;
        let ghost midmap = self@;
        proof {
            lemma_items_map_contains(mid, path@);
        }
        let e = TreeEntry { path: path.to_owned(), entry };
        self.items.push(e);
        proof {
            assert(self.items@.drop_last() =~= mid);
            assert(self@ =~= midmap.insert(path@, entry));
            assert(midmap.insert(path@, entry) =~= old(self)@.insert(path@, entry));
        }
    }

    /// Takes away what stands at `path`.
    pub fn remove(&mut self, path: &str) -> (r: Option<MergeTreeEntry>)
        requires
            old(self).wf(),
        ensures
            final(self).wf(),
            final(self)@ == old(self)@.remove(plain_path(path@)),
            r == lookup(old(self)@, plain_path(path@)),
    {
        let plain = plainly(path);
        self.remove_at(plain.as_str())
    }

    /// Takes away what stands at a plain path.
    pub(crate) fn remove_at(&mut self, path: &str) -> (r: Option<MergeTreeEntry>)
        requires
            old(self).wf(),
        ensures
            final(self).wf(),
            final(self)@ == old(self)@.remove(path@),
            r == lookup(old(self)@, path@),
    {
        match self.position(path) {
            Some(i) => {
                let ghost before = self.items@;
                proof {
                    lemma_items_map_at(before, i as int);
                }
                let gone = self.items.remove(i);
                proof {
                    let after = self.items@;
                    assert(after =~= before.remove(i as int));
                    assert(distinct_paths(after)) by {
                        assert forall|a: int, b: int| 0 <= a < b < after.len() implies (
                        #[trigger] after[a]).path@ != (#[trigger] after[b]).path@ by {
                            let a2 = if a < i { a } else { a + 1 };
                            let b2 = if b < i { b } else { b + 1 };
                            assert(after[a] == before[a2]);
                            assert(after[b] == before[b2]);
                            assert(before[a2].path@ != before[b2].path@);
                        }
                    }
                    assert forall|a: int| 0 <= a < after.len() implies is_plain(
                        (#[trigger] after[a]).path@,
                    ) by {
                        let a2 = if a < i { a } else { a + 1 };
                        assert(after[a] == before[a2]);
                        assert(is_plain(before[a2].path@));
                    }
                    assert(items_map(after) =~= items_map(before).remove(path@)) by {
                        assert forall|p: Seq<char>|
                            items_map(after).contains_key(p) <==> items_map(before).remove(
                                path@,
                            ).contains_key(p) by {
                            lemma_items_map_contains(after, p);
                            lemma_items_map_contains(before, p);
                            if items_map(after).contains_key(p) {
                                let k = choose|k: int|
                                    0 <= k < after.len() && (#[trigger] after[k]).path@ == p;
                                let k2 = if k < i { k } else { k + 1 };
                                assert(after[k] == before[k2]);
                                assert(before[k2].path@ == p);
                                assert(before[i as int].path@ != before[k2].path@);
                            }
                            if items_map(before).contains_key(p) && p != path@ {
                                let k = choose|k: int|
                                    0 <= k < before.len() && (#[trigger] before[k]).path@ == p;
                                let k2 = if k < i { k } else { k - 1 };
                                assert(after[k2] == before[k]);
                            }
                        }
                        assert forall|p: Seq<char>| items_map(after).contains_key(p) implies #[trigger] items_map(
                            after,
                        )[p] == items_map(before).remove(path@)[p] by {
                            lemma_items_map_contains(after, p);
                            let k = choose|k: int|
                                0 <= k < after.len() && (#[trigger] after[k]).path@ == p;
                            let k2 = if k < i { k } else { k + 1 };
                            assert(after[k] == before[k2]);
                            lemma_items_map_at(after, k);
                            lemma_items_map_at(before, k2);
                            assert(before[i as int].path@ != before[k2].path@);
                        }
                    }
                }
                Some(gone.entry)
            },
            None => {
                assert(self@.remove(path@) =~= self@);
                None
            },
        }
    }

    /// A copy of the map.
    pub fn copy(&self) -> (r: TreeItems)
        requires
            self.wf(),
        ensures
            r.wf(),
            r@ == self@,
            paths_of(r.items@) == paths_of(self.items@),
            r.items@.len() == self.items@.len(),
            forall|i: int|
                0 <= i < r.items@.len() ==> (#[trigger] r.items@[i]).entry == self.items@[i].entry,
    {
        let mut out: Vec<TreeEntry> = Vec::new();
        let mut i: usize = 0;
        while i < self.items.len()
            invariant
                i <= self.items@.len(),
                out@.len() == i,
                forall|j: int|
                    0 <= j < i ==> (#[trigger] out@[j]).path@ == self.items@[j].path@ && out@[j].entry
                        == self.items@[j].entry,
            decreases self.items@.len() - i,
        {
            let e = TreeEntry { path: self.items[i].path.clone(), entry: self.items[i].entry };
            out.push(e);
            i = i + 1;
        }
        proof {
            assert(paths_of(out@) =~= paths_of(self.items@));
            lemma_same_items(out@, self.items@);
            assert forall|a: int| 0 <= a < out@.len() implies is_plain((#[trigger] out@[a]).path@) by {
                assert(is_plain(self.items@[a].path@));
            }
            assert(distinct_paths(out@)) by {
                assert forall|a: int, b: int| 0 <= a < b < out@.len() implies (#[trigger] out@[a]).path@
                    != (#[trigger] out@[b]).path@ by {
                    assert(self.items@[a].path@ != self.items@[b].path@);
                }
            }
        }
        TreeItems { items: out }
    }
}

/// Lists with the same paths and entries stand for the same map.
pub proof fn lemma_same_items(a: Seq<TreeEntry>, b: Seq<TreeEntry>)
    requires
        a.len() == b.len(),
        forall|i: int|
            0 <= i < a.len() ==> (#[trigger] a[i]).path@ == b[i].path@ && a[i].entry == b[i].entry,
    ensures
        items_map(a) == items_map(b),
    decreases a.len(),
{
    if a.len() > 0 {
        assert(a[a.len() - 1].path@ == b[b.len() - 1].path@);
        assert forall|i: int| 0 <= i < a.drop_last().len() implies (#[trigger] a.drop_last()[i]).path@
            == b.drop_last()[i].path@ && a.drop_last()[i].entry == b.drop_last()[i].entry by {
            assert(a[i].path@ == b[i].path@);
        }
        lemma_same_items(a.drop_last(), b.drop_last());
    }
}

/// Adds to `out` each path of `items` that it does not hold yet.
fn add_paths(out: &mut Vec<String>, items: &TreeItems)
    requires
        texts(old(out)@).no_duplicates(),
    ensures
        texts(final(out)@).no_duplicates(),
        forall|p: Seq<char>|
            #![trigger texts(final(out)@).contains(p)]
            texts(final(out)@).contains(p) <==> texts(old(out)@).contains(p) || items@.contains_key(p),
{
    let mut i: usize = 0;
    let ghost start = texts(out@);
    while i < items.items.len()
        invariant
            i <= items.items@.len(),
            texts(out@).no_duplicates(),
            forall|p: Seq<char>|
                #![trigger texts(out@).contains(p)]
                texts(out@).contains(p) <==> start.contains(p) || exists|j: int|
                    0 <= j < i && (#[trigger] items.items@[j]).path@ == p,
        decreases items.items@.len() - i,
    {
        let ghost before = out@;
        let ghost here = items.items@[i as int].path@;
        if !contains_text(out, items.items[i].path.as_str()) {
            out.push(items.items[i].path.clone());
            assert(texts(out@) =~= texts(before).push(here));
        }
        proof {
            assert forall|p: Seq<char>|
                #![trigger texts(out@).contains(p)]
                texts(out@).contains(p) <==> start.contains(p) || exists|j: int|
                    0 <= j < i + 1 && (#[trigger] items.items@[j]).path@ == p by {
                if texts(out@).contains(p) {
                    let k = choose|k: int| 0 <= k < texts(out@).len() && texts(out@)[k] == p;
                    if k < before.len() {
                        assert(texts(before)[k] == p);
                        assert(texts(before).contains(p));
                    } else {
                        assert(p == here);
                    }
                    if !start.contains(p) && texts(before).contains(p) {
                        let j = choose|j: int| 0 <= j < i && (#[trigger] items.items@[j]).path@ == p;
                        assert(items.items@[j].path@ == p);
                    }
                }
                if start.contains(p) {
                    assert(texts(before).contains(p));
                    let k = choose|k: int| 0 <= k < texts(before).len() && texts(before)[k] == p;
                    assert(texts(out@)[k] == p);
                }
                if exists|j: int| 0 <= j < i + 1 && (#[trigger] items.items@[j]).path@ == p {
                    let j = choose|j: int| 0 <= j < i + 1 && (#[trigger] items.items@[j]).path@ == p;
                    if j < i {
                        assert(texts(before).contains(p));
                        let k = choose|k: int| 0 <= k < texts(before).len() && texts(before)[k] == p;
                        assert(texts(out@)[k] == p);
                    } else if texts(before).contains(here) {
                        let k = choose|k: int| 0 <= k < texts(before).len() && texts(before)[k] == p;
                        assert(texts(out@)[k] == p);
                    } else {
                        assert(texts(out@)[before.len() as int] == p);
                    }
                }
            }
        }
        i = i + 1;
    }
    proof {
        assert forall|p: Seq<char>|
            #![trigger texts(out@).contains(p)]
            texts(out@).contains(p) <==> start.contains(p) || items@.contains_key(p) by {
            lemma_items_map_contains(items.items@, p);
        }
    }
}

/// Every path of the three maps, each once.
pub fn union_paths(a: &TreeItems, b: &TreeItems, c: &TreeItems) -> (r: Vec<String>)
    ensures
        texts(r@).no_duplicates(),
        forall|p: Seq<char>|
            #![trigger texts(r@).contains(p)]
            texts(r@).contains(p) <==> a@.contains_key(p) || b@.contains_key(p) || c@.contains_key(p),
{
    let mut out: Vec<String> = Vec::new();
    assert(texts(out@) =~= Seq::<Seq<char>>::empty());
    add_paths(&mut out, a);
    add_paths(&mut out, b);
    add_paths(&mut out, c);
    out
}

/// The paths at which two trees differ.
pub open spec fn changed_paths(
    before: Map<Seq<char>, MergeTreeEntry>,
    after: Map<Seq<char>, MergeTreeEntry>,
) -> Set<Seq<char>> {
    before.dom().union(after.dom()).filter(
        |p: Seq<char>| lookup(before, p) != lookup(after, p),
    )
}

/// How many paths differ between two trees.
pub fn count_item_map_changes(before: &TreeItems, after: &TreeItems) -> (r: usize)
    requires
        before.wf(),
        after.wf(),
    ensures
        r == changed_paths(before@, after@).len(),
        changed_paths(before@, after@).finite(),
{
    let paths = union_paths(before, after, after);
    let ghost all = texts(paths@);
    let ghost mut done: Set<Seq<char>> = Set::empty();
    let mut n: usize = 0;
    let mut i: usize = 0;
    while i < paths.len()
        invariant
            before.wf(),
            after.wf(),
            i <= paths@.len(),
            n <= i,
            all == texts(paths@),
            all.no_duplicates(),
            done.finite(),
            done.len() == n,
            forall|p: Seq<char>|
                #![trigger done.contains(p)]
                done.contains(p) <==> (exists|j: int| 0 <= j < i && #[trigger] all[j] == p) && lookup(
                    before@,
                    p,
                ) != lookup(after@, p),
        decreases paths@.len() - i,
    {
        let ghost here = all[i as int];
        let ghost before_done = done;
        assert(here == paths@[i as int]@);
        proof {
            if before_done.contains(here) {
                let j = choose|j: int| 0 <= j < i && #[trigger] all[j] == here;
                assert(all[j] == all[i as int]);
            }
        }
        if before.get_at(paths[i].as_str()) != after.get_at(paths[i].as_str()) {
            n = n + 1;
            proof {
                done = done.insert(here);
            }
        }
        proof {
            assert forall|p: Seq<char>|
                #![trigger done.contains(p)]
                done.contains(p) <==> (exists|j: int| 0 <= j < i + 1 && #[trigger] all[j] == p)
                    && lookup(before@, p) != lookup(after@, p) by {
                if done.contains(p) {
                    if p == here {
                        assert(all[i as int] == p);
                    } else {
                        assert(before_done.contains(p));
                        let j = choose|j: int| 0 <= j < i && #[trigger] all[j] == p;
                        assert(all[j] == p);
                    }
                }
                if (exists|j: int| 0 <= j < i + 1 && #[trigger] all[j] == p) && lookup(before@, p)
                    != lookup(after@, p) {
                    let j = choose|j: int| 0 <= j < i + 1 && #[trigger] all[j] == p;
                    if j < i {
                        assert(before_done.contains(p));
                    }
                }
            }
        }
        i = i + 1;
    }
    proof {
        assert(done =~= changed_paths(before@, after@)) by {
            assert forall|p: Seq<char>| done.contains(p) <==> changed_paths(before@, after@).contains(
                p,
            ) by {
                if changed_paths(before@, after@).contains(p) {
                    assert(all.contains(p));
                    let j = choose|j: int| 0 <= j < all.len() && all[j] == p;
                    assert(all[j] == p);
                }
                if done.contains(p) {
                    let j = choose|j: int| 0 <= j < paths@.len() && #[trigger] all[j] == p;
                    assert(all.contains(p));
                }
            }
        }
    }
    n
}

/// How many files a move from `current` to `target` changes; no current tree is an empty one.
pub fn count_changed_files(current: Option<&TreeItems>, target: &TreeItems) -> (r: usize)
    requires
        current matches Some(c) ==> c.wf(),
        target.wf(),
    ensures
        r == changed_paths(
            match current {
                Some(c) => c@,
                None => Map::empty(),
            },
            target@,
        ).len(),
{
    match current {
        Some(c) => count_item_map_changes(c, target),
        None => {
            let none = TreeItems::new();
            count_item_map_changes(&none, target)
        },
    }
}

/// What lists hold is what was listed: an entry put in last is the one that is found, others stay, and
/// nothing else is in them.
pub proof fn law_items_hold_what_was_listed(s: Seq<TreeEntry>, e: TreeEntry, path: Seq<char>)
    ensures
        lookup(items_map(Seq::empty()), path) is None,
        lookup(items_map(s.push(e)), e.path@) == Some(e.entry),
        path != e.path@ ==> lookup(items_map(s.push(e)), path) == lookup(items_map(s), path),
        lookup(plain_map(Seq::empty()), path) is None,
        lookup(plain_map(s.push(e)), plain_path(e.path@)) == Some(e.entry),
        path != plain_path(e.path@) ==> lookup(plain_map(s.push(e)), path) == lookup(plain_map(s), path),
{
    assert(s.push(e).drop_last() =~= s);
}

/// What is found at a path is what the map holds there, and nothing where it holds nothing.
pub proof fn law_what_is_found_at_a_path(m: Map<Seq<char>, MergeTreeEntry>, path: Seq<char>)
    ensures
        lookup(m, path) is Some <==> m.dom().contains(path),
        lookup(m, path) matches Some(e) ==> m[path] == e,
{
}

/// The paths that changed are those that were added, removed or hold something else.
pub proof fn law_paths_that_changed(
    before: Map<Seq<char>, MergeTreeEntry>,
    after: Map<Seq<char>, MergeTreeEntry>,
    path: Seq<char>,
)
    ensures
        changed_paths(before, after).contains(path) <==> (before.dom().contains(path)
            && !after.dom().contains(path)) || (!before.dom().contains(path) && after.dom().contains(path)) || (
        before.dom().contains(path) && after.dom().contains(path) && before[path] != after[path]),
        changed_paths(before, after) =~= changed_paths(after, before),
{
}

} // verus!
