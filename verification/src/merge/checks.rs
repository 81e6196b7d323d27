//! Checks before a merge is written, and merges of more than two heads.

use vstd::prelude::*;

use crate::merge::PullMergeError;
use crate::merge::items::{
    lemma_items_map_at, lemma_items_map_contains, lookup, MergeTreeEntry, TreeEntry, TreeItems,
};
use crate::merge::three_way::PathMap;
use crate::paths::{
    law_path_in_a_directory, lemma_component_lt_irreflexive, lemma_names_lt_transitive,
    names_lower_at, path_before, path_components, path_lt, path_starts_with, path_within,
};
use crate::text::{concat3, contains_text, texts};

verus! {

/// Two of the paths cannot stand in one tree: the second lies below the first.
pub open spec fn clash(paths: Seq<Seq<char>>, i: int, j: int) -> bool {
    0 <= i < paths.len() && 0 <= j < paths.len() && i != j && path_within(paths[j], paths[i])
}

/// No path that another lies below comes before `path`.
pub open spec fn first_clash(paths: Seq<Seq<char>>, path: Seq<char>) -> bool {
    forall|i: int, j: int| #[trigger] clash(paths, i, j) ==> !path_lt(paths[i], path)
}

/// Refuses paths of which one is a directory for another.
///
/// The error names the first such path in the order of paths.
pub fn ensure_no_directory_file_conflicts(paths: &Vec<String>) -> (r: Result<(), PullMergeError>)
    ensures
        match r {
            Ok(_) => forall|i: int, j: int| !(#[trigger] clash(texts(paths@), i, j)),
            Err(e) => {
                &&& e matches PullMergeError::DirectoryFileConflict { path } && (exists|i: int, j: int|
                    (#[trigger] clash(texts(paths@), i, j)) && paths@[i]@ == path@) && first_clash(
                    texts(paths@),
                    path@,
                )
            },
        },
{
    let ghost all = texts(paths@);
    let mut found: Option<usize> = None;
    let ghost mut witness: int = 0;
    let mut i: usize = 0;
    while i < paths.len()
        invariant
            i <= paths@.len(),
            all == texts(paths@),
            match found {
                None => forall|a: int, b: int| a < i ==> !(#[trigger] clash(all, a, b)),
                Some(f) => f < paths@.len() && clash(all, f as int, witness) && forall|a: int, b: int|
                    a < i && #[trigger] clash(all, a, b) ==> !path_lt(all[a], all[f as int]),
            },
        decreases paths@.len() - i,
    {
        let mut j: usize = 0;
        let mut hit: bool = false;
        let ghost mut other: int = 0;
        while j < paths.len()
            invariant
                i < paths@.len(),
                j <= paths@.len(),
                all == texts(paths@),
                hit ==> clash(all, i as int, other),
                !hit ==> forall|b: int| b < j ==> !(#[trigger] clash(all, i as int, b)),
            decreases paths@.len() - j,
        {
            if i != j && path_starts_with(paths[j].as_str(), paths[i].as_str()) {
                proof {
                    assert(all[j as int] == paths@[j as int]@);
                    assert(all[i as int] == paths@[i as int]@);
                    assert(clash(all, i as int, j as int));
                    other = j as int;
                }
                hit = true;
            }
            j = j + 1;
        }
        if hit {
            let lower = match found {
                None => true,
                Some(f) => path_before(paths[i].as_str(), paths[f].as_str()),
            };
            proof {
                assert(all[i as int] == paths@[i as int]@);
                if let Some(f) = found {
                    assert(all[f as int] == paths@[f as int]@);
                    if lower {
                        assert forall|a: int, b: int| a < i + 1 && #[trigger] clash(all, a, b) implies !path_lt(
                            all[a],
                            all[i as int],
                        ) by {
                            if a < i {
                                if path_lt(all[a], all[i as int]) {
                                    lemma_names_lt_transitive(
                                        path_components(all[a]),
                                        path_components(all[i as int]),
                                        path_components(all[f as int]),
                                    );
                                }
                            } else {
                                lemma_path_irreflexive(all[i as int]);
                            }
                        }
                    }
                } else {
                    lemma_path_irreflexive(all[i as int]);
                }
            }
            if lower {
                found = Some(i);
                proof {
                    witness = other;
                }
            }
        }
        i = i + 1;
    }
    match found {
        None => Ok(()),
        Some(f) => {
            proof {
                assert(all[f as int] == paths@[f as int]@);
                assert forall|a: int, b: int| #[trigger] clash(texts(paths@), a, b) implies !path_lt(
                    paths@[a]@,
                    paths@[f as int]@,
                ) by {
                    assert(all[a] == paths@[a]@);
                }
            }
            Err(PullMergeError::DirectoryFileConflict { path: paths[f].clone() })
        },
    }
}

proof fn lemma_path_irreflexive(a: Seq<char>)
    ensures
        !path_lt(a, a),
{
    let n = path_components(a);
    if path_lt(a, a) {
        let k = choose|k: int| #[trigger] names_lower_at(n, n, k);
        lemma_component_lt_irreflexive(n[k]);
    }
}

/// Refuses to overwrite a working tree file that is not tracked: `clashes[i]` says that
/// `untracked[i]` stands where the merge would write.
pub fn ensure_no_untracked_conflicts(untracked: &Vec<String>, clashes: &Vec<bool>) -> (r: Result<
    (),
    PullMergeError,
>)
    requires
        untracked@.len() == clashes@.len(),
    ensures
        match r {
            Ok(_) => forall|i: int| 0 <= i < clashes@.len() ==> !(#[trigger] clashes@[i]),
            Err(e) => exists|i: int|
                0 <= i < clashes@.len() && #[trigger] clashes@[i] && (forall|j: int|
                    0 <= j < i ==> !(#[trigger] clashes@[j])) && (e matches PullMergeError::UntrackedOverwrite {
                    path,
                } && path@ == untracked@[i]@),
        },
{
    let mut i: usize = 0;
    while i < untracked.len()
        invariant
            untracked@.len() == clashes@.len(),
            i <= untracked@.len(),
            forall|j: int| 0 <= j < i ==> !(#[trigger] clashes@[j]),
        decreases untracked@.len() - i,
    {
        if clashes[i] {
            assert(clashes@[i as int]);
            return Err(PullMergeError::UntrackedOverwrite { path: untracked[i].clone() });
        }
        i = i + 1;
    }
    Ok(())
}

/// What an octopus merge has put together from the heads so far.
#[derive(Debug)]
pub struct OctopusState {
    pub merged: TreeItems,
    pub changed: Vec<String>,
}

impl OctopusState {
    pub open spec fn wf(self) -> bool {
        self.merged.wf()
    }

    /// Before the first head: the current tree, nothing changed.
    pub fn new(current: &TreeItems) -> (r: OctopusState)
        requires
            current.wf(),
        ensures
            r.wf(),
            r.merged@ == current@,
            r.changed@.len() == 0,
    {
        OctopusState { merged: current.copy(), changed: Vec::new() }
    }
}

/// A head changes the file at `path`.
pub open spec fn head_sets(current: PathMap, target: PathMap, path: Seq<char>) -> bool {
    target.contains_key(path) && lookup(current, path) != Some(target[path])
}

/// A head removes the file at `path`.
pub open spec fn head_removes(current: PathMap, target: PathMap, path: Seq<char>) -> bool {
    current.contains_key(path) && !target.contains_key(path)
}

/// An earlier head stands against what this head does to `path`.
pub open spec fn head_conflict(
    current: PathMap,
    target: PathMap,
    merged: PathMap,
    changed: Seq<Seq<char>>,
    path: Seq<char>,
) -> bool {
    changed.contains(path) && ((head_sets(current, target, path) && merged.contains_key(path)
        && merged[path] != target[path]) || head_removes(current, target, path))
}

/// What stands at `path` after a head was taken in.
pub open spec fn after_head(
    current: PathMap,
    target: PathMap,
    merged: PathMap,
    path: Seq<char>,
) -> Option<MergeTreeEntry> {
    if head_sets(current, target, path) {
        Some(target[path])
    } else if head_removes(current, target, path) {
        None
    } else {
        lookup(merged, path)
    }
}

/// Takes the files of one more head into an octopus merge.
///
/// Refused where an earlier head changed a path that this one changes in another way or
/// removes; the error names such a path.
pub fn octopus_step(state: OctopusState, current: &TreeItems, target: &TreeItems) -> (r: Result<
    OctopusState,
    PullMergeError,
>)
    requires
        state.wf(),
        current.wf(),
        target.wf(),
    ensures
        match r {
            Ok(next) => {
                &&& next.wf()
                &&& forall|p: Seq<char>|
                    !(#[trigger] head_conflict(
                        current@,
                        target@,
                        state.merged@,
                        texts(state.changed@),
                        p,
                    ))
                &&& forall|p: Seq<char>|
                    #![trigger lookup(next.merged@, p)]
                    lookup(next.merged@, p) == after_head(current@, target@, state.merged@, p)
                &&& forall|p: Seq<char>|
                    #![trigger texts(next.changed@).contains(p)]
                    texts(next.changed@).contains(p) <==> texts(state.changed@).contains(p)
                        || head_sets(current@, target@, p) || head_removes(current@, target@, p)
            },
            Err(e) => exists|p: Seq<char>|
                (#[trigger] head_conflict(
                    current@,
                    target@,
                    state.merged@,
                    texts(state.changed@),
                    p,
                )) && (e matches PullMergeError::OctopusConflict { detail } && detail@ == "path '"@ + p
                    + "' changed by multiple heads"@),
        },
{
    let mut merged = state.merged;
    let mut changed = state.changed;
    let ghost m0 = merged@;
    let ghost c0 = texts(changed@);
    let ghost titems = target.items@;
    let ghost citems = current.items@;
    let mut i: usize = 0;
    while i < target.items.len()
        invariant
            current.wf(),
            target.wf(),
            merged.wf(),
            titems == target.items@,
            m0 == state.merged@,
            c0 == texts(state.changed@),
            i <= titems.len(),
            forall|j: int|
                0 <= j < i ==> !head_conflict(current@, target@, m0, c0, (#[trigger] titems[j]).path@),
            forall|p: Seq<char>|
                #![trigger lookup(merged@, p)]
                lookup(merged@, p) == (if head_sets(current@, target@, p) && seen(titems, i as int, p) {
                    Some(target@[p])
                } else {
                    lookup(m0, p)
                }),
            forall|p: Seq<char>|
                #![trigger texts(changed@).contains(p)]
                texts(changed@).contains(p) <==> c0.contains(p) || (head_sets(current@, target@, p)
                    && seen(titems, i as int, p)),
        decreases titems.len() - i,
    {
        let path = target.items[i].path.as_str();
        let entry = target.items[i].entry;
        let ghost here = path@;
        let ghost m1 = merged@;
        let ghost c1 = texts(changed@);
        proof {
            lemma_items_map_at(titems, i as int);
            assert(!seen(titems, i as int, here)) by {
                if seen(titems, i as int, here) {
                    let j = choose|j: int| 0 <= j < i && (#[trigger] titems[j]).path@ == here;
                    assert(titems[j].path@ != titems[i as int].path@);
                }
            }
            assert(lookup(merged@, here) == lookup(m0, here));
            assert forall|p: Seq<char>| p != here implies seen(titems, i as int + 1, p) == seen(
                titems,
                i as int,
                p,
            ) by {
                if seen(titems, i as int + 1, p) {
                    let j = choose|j: int| 0 <= j < i + 1 && (#[trigger] titems[j]).path@ == p;
                    assert(j < i);
                    assert(titems[j].path@ == p);
                }
                if seen(titems, i as int, p) {
                    let j = choose|j: int| 0 <= j < i && (#[trigger] titems[j]).path@ == p;
                    assert(titems[j].path@ == p);
                }
            }
            assert(seen(titems, i as int + 1, here)) by {
                assert(titems[i as int].path@ == here);
            }
        }
        let same = match current.get_at(path) {
            Some(c) => c == entry,
            None => false,
        };
        if !same {
            assert(head_sets(current@, target@, here));
            let against = match merged.get_at(path) {
                Some(existing) => existing != entry,
                None => false,
            };
            let was_changed = contains_text(&changed, path);
            if against && was_changed {
                assert(head_conflict(current@, target@, m0, c0, here));
                return Err(
                    PullMergeError::OctopusConflict {
                        detail: concat3("path '", path, "' changed by multiple heads"),
                    },
                );
            }
            let ghost cv = changed@;
            changed.push(path.to_owned());
            merged.insert_at(path, entry);
            proof {
                assert(texts(changed@) =~= c1.push(here));
                assert forall|p: Seq<char>|
                    #![trigger texts(changed@).contains(p)]
                    texts(changed@).contains(p) <==> c0.contains(p) || (head_sets(current@, target@, p)
                        && seen(titems, i as int + 1, p)) by {
                    lemma_push_contains(c1, here, p);
                    assert(c1.contains(p) <==> c0.contains(p) || (head_sets(current@, target@, p)
                        && seen(titems, i as int, p)));
                }
            }
        } else {
            assert(!head_sets(current@, target@, here));
            assert forall|p: Seq<char>|
                #![trigger texts(changed@).contains(p)]
                texts(changed@).contains(p) <==> c0.contains(p) || (head_sets(current@, target@, p)
                    && seen(titems, i as int + 1, p)) by {}
        }
        proof {
            assert forall|p: Seq<char>|
                #![trigger lookup(merged@, p)]
                lookup(merged@, p) == (if head_sets(current@, target@, p) && seen(titems, i as int + 1, p) {
                    Some(target@[p])
                } else {
                    lookup(m0, p)
                }) by {
                assert(p != here ==> lookup(merged@, p) == lookup(m1, p));
            }
        }
        i = i + 1;
    }
    let ghost m2 = merged@;
    let ghost c2 = texts(changed@);
    proof {
        assert forall|p: Seq<char>| target@.contains_key(p) == seen(titems, titems.len() as int, p) by {
            lemma_items_map_contains(titems, p);
            if seen(titems, titems.len() as int, p) {
                let j = choose|j: int| 0 <= j < titems.len() && (#[trigger] titems[j]).path@ == p;
                assert(titems[j].path@ == p);
            }
        }
    }
    let mut k: usize = 0;
    while k < current.items.len()
        invariant
            current.wf(),
            target.wf(),
            merged.wf(),
            titems == target.items@,
            citems == current.items@,
            m0 == state.merged@,
            c0 == texts(state.changed@),
            k <= citems.len(),
            forall|j: int|
                0 <= j < titems.len() ==> !head_conflict(
                    current@,
                    target@,
                    m0,
                    c0,
                    (#[trigger] titems[j]).path@,
                ),
            forall|j: int|
                0 <= j < k ==> !head_conflict(current@, target@, m0, c0, (#[trigger] citems[j]).path@),
            forall|p: Seq<char>|
                #![trigger lookup(merged@, p)]
                lookup(merged@, p) == (if head_sets(current@, target@, p) {
                    Some(target@[p])
                } else if head_removes(current@, target@, p) && seen(citems, k as int, p) {
                    None
                } else {
                    lookup(m0, p)
                }),
            forall|p: Seq<char>|
                #![trigger texts(changed@).contains(p)]
                texts(changed@).contains(p) <==> c0.contains(p) || head_sets(current@, target@, p) || (
                head_removes(current@, target@, p) && seen(citems, k as int, p)),
        decreases citems.len() - k,
    {
        let path = current.items[k].path.as_str();
        let ghost here = path@;
        let ghost m1 = merged@;
        let ghost c1 = texts(changed@);
        proof {
            lemma_items_map_at(citems, k as int);
            assert(!seen(citems, k as int, here)) by {
                if seen(citems, k as int, here) {
                    let j = choose|j: int| 0 <= j < k && (#[trigger] citems[j]).path@ == here;
                    assert(citems[j].path@ != citems[k as int].path@);
                }
            }
            assert forall|p: Seq<char>| p != here implies seen(citems, k as int + 1, p) == seen(
                citems,
                k as int,
                p,
            ) by {
                if seen(citems, k as int + 1, p) {
                    let j = choose|j: int| 0 <= j < k + 1 && (#[trigger] citems[j]).path@ == p;
                    assert(j < k);
                    assert(citems[j].path@ == p);
                }
                if seen(citems, k as int, p) {
                    let j = choose|j: int| 0 <= j < k && (#[trigger] citems[j]).path@ == p;
                    assert(citems[j].path@ == p);
                }
            }
            assert(seen(citems, k as int + 1, here)) by {
                assert(citems[k as int].path@ == here);
            }
        }
        if !target.holds_at(path) {
            assert(head_removes(current@, target@, here));
            if contains_text(&changed, path) {
                assert(c0.contains(here));
                assert(head_conflict(current@, target@, m0, c0, here));
                return Err(
                    PullMergeError::OctopusConflict {
                        detail: concat3("path '", path, "' changed by multiple heads"),
                    },
                );
            }
            changed.push(path.to_owned());
            let _gone = merged.remove_at(path);
            proof {
                assert(texts(changed@) =~= c1.push(here));
                assert forall|p: Seq<char>|
                    #![trigger texts(changed@).contains(p)]
                    texts(changed@).contains(p) <==> c0.contains(p) || head_sets(current@, target@, p)
                        || (head_removes(current@, target@, p) && seen(citems, k as int + 1, p)) by {
                    lemma_push_contains(c1, here, p);
                    assert(c1.contains(p) <==> c0.contains(p) || head_sets(current@, target@, p) || (
                    head_removes(current@, target@, p) && seen(citems, k as int, p)));
                }
            }
        } else {
            assert(!head_removes(current@, target@, here));
            assert(!head_conflict(current@, target@, m0, c0, here)) by {
                lemma_items_map_contains(titems, here);
                let j = choose|j: int| 0 <= j < titems.len() && (#[trigger] titems[j]).path@ == here;
                assert(!head_conflict(current@, target@, m0, c0, titems[j].path@));
            }
        }
        proof {
            assert forall|p: Seq<char>|
                #![trigger lookup(merged@, p)]
                lookup(merged@, p) == (if head_sets(current@, target@, p) {
                    Some(target@[p])
                } else if head_removes(current@, target@, p) && seen(citems, k as int + 1, p) {
                    None
                } else {
                    lookup(m0, p)
                }) by {
                assert(p != here ==> lookup(merged@, p) == lookup(m1, p));
                assert(lookup(m1, here) == lookup(m1, here));
            }
        }
        k = k + 1;
    }
    proof {
        assert forall|p: Seq<char>| current@.contains_key(p) == seen(citems, citems.len() as int, p) by {
            lemma_items_map_contains(citems, p);
            if seen(citems, citems.len() as int, p) {
                let j = choose|j: int| 0 <= j < citems.len() && (#[trigger] citems[j]).path@ == p;
                assert(citems[j].path@ == p);
            }
        }
        assert forall|p: Seq<char>| !(#[trigger] head_conflict(current@, target@, m0, c0, p)) by {
            if head_sets(current@, target@, p) {
                let j = choose|j: int| 0 <= j < titems.len() && (#[trigger] titems[j]).path@ == p;
                assert(seen(titems, titems.len() as int, p));
                assert(!head_conflict(current@, target@, m0, c0, titems[j].path@));
            }
            if head_removes(current@, target@, p) {
                assert(seen(citems, citems.len() as int, p));
                let j = choose|j: int| 0 <= j < citems.len() && (#[trigger] citems[j]).path@ == p;
                assert(!head_conflict(current@, target@, m0, c0, citems[j].path@));
            }
        }
    }
    Ok(OctopusState { merged, changed })
}

/// Some of the first `n` entries has the path.
spec fn seen(items: Seq<TreeEntry>, n: int, path: Seq<char>) -> bool {
    exists|j: int| 0 <= j < n && (#[trigger] items[j]).path@ == path
}

proof fn lemma_push_contains(s: Seq<Seq<char>>, x: Seq<char>, p: Seq<char>)
    ensures
        s.push(x).contains(p) <==> s.contains(p) || p == x,
{
    if s.contains(p) {
        let k = choose|k: int| 0 <= k < s.len() && s[k] == p;
        assert(s.push(x)[k] == p);
    }
    if p == x {
        assert(s.push(x)[s.len() as int] == p);
    }
    if s.push(x).contains(p) {
        let k = choose|k: int| 0 <= k < s.push(x).len() && s.push(x)[k] == p;
        if k < s.len() {
            assert(s[k] == p);
        }
    }
}

/// Two paths clash exactly where one of them lies below the other, or is the same.
pub proof fn law_paths_clash(paths: Seq<Seq<char>>, i: int, j: int)
    requires
        0 <= i < paths.len(),
        0 <= j < paths.len(),
        i != j,
    ensures
        clash(paths, i, j) <==> path_components(paths[i]).is_prefix_of(path_components(paths[j])),
{
    law_path_in_a_directory(paths[j], paths[i]);
}

/// The path that is told of clashing ones is one that nothing below which another lies comes before.
pub proof fn law_first_clash_is_told(paths: Seq<Seq<char>>, path: Seq<char>, i: int, j: int)
    requires
        first_clash(paths, path),
        clash(paths, i, j),
    ensures
        !path_lt(paths[i], path),
{
}

/// A head that is merged in brings what it changed and nothing else: what it set is as it set it, what
/// it removed is gone, and what it left alone stays as the heads before it left it.
pub proof fn law_head_brings_its_changes(
    current: PathMap,
    target: PathMap,
    merged: PathMap,
    path: Seq<char>,
)
    ensures
        target.contains_key(path) && (!current.contains_key(path) || current[path] != target[path])
            ==> after_head(current, target, merged, path) == Some(target[path]),
        current.contains_key(path) && !target.contains_key(path) ==> after_head(
            current,
            target,
            merged,
            path,
        ) is None,
        lookup(current, path) == lookup(target, path) ==> after_head(current, target, merged, path)
            == lookup(merged, path),
{
}

/// Heads conflict at a path exactly where an earlier one changed it and this one sets it otherwise or
/// removes it.
pub proof fn law_heads_conflict(
    current: PathMap,
    target: PathMap,
    merged: PathMap,
    changed: Seq<Seq<char>>,
    path: Seq<char>,
)
    ensures
        head_conflict(current, target, merged, changed, path) <==> changed.contains(path) && ((
        target.contains_key(path) && (!current.contains_key(path) || current[path] != target[path])
            && merged.contains_key(path) && merged[path] != target[path]) || (current.contains_key(path)
            && !target.contains_key(path))),
{
}

} // verus!
