//! What a merge does to the working tree and to HEAD.

use vstd::prelude::*;

use crate::commit::draft::HeadMove;
use crate::merge::items::{union_paths, TreeItems};
use crate::merge::three_way::{conflict_paths, PathConflict};
use crate::merge::PullMergeError;
use crate::object::{HashKind, ObjectId};
use crate::paths::{plain_path, plain_texts, plainly};
use crate::text::{concat2, concat4, concat6, contains_text, text_eq, texts};

verus! {

/// Whether a path was known before a merge with conflicts and is left by it with nothing: no merged
/// file and no conflict.
pub open spec fn is_leftover(
    path: Seq<char>,
    indexed: Seq<Seq<char>>,
    base: TreeItems,
    ours: TreeItems,
    theirs: TreeItems,
    merged: TreeItems,
    conflicts: Seq<PathConflict>,
) -> bool {
    &&& plain_texts(indexed).contains(path) || base@.contains_key(path) || ours@.contains_key(path)
        || theirs@.contains_key(path)
    &&& !merged@.contains_key(path)
    &&& !conflict_paths(conflicts).contains(path)
}

fn in_conflict(conflicts: &Vec<PathConflict>, path: &str) -> (r: bool)
    ensures
        r == conflict_paths(conflicts@).contains(path@),
{
    let mut i: usize = 0;
    while i < conflicts.len()
        invariant
            i <= conflicts@.len(),
            forall|j: int| 0 <= j < i ==> (#[trigger] conflicts@[j]).path@ != path@,
        decreases conflicts.len() - i,
    {
        if text_eq(conflicts[i].path.as_str(), path) {
            assert(conflict_paths(conflicts@)[i as int] == path@);
            return true;
        }
        i = i + 1;
    }
    assert forall|j: int| 0 <= j < conflict_paths(conflicts@).len() implies #[trigger] conflict_paths(
        conflicts@,
    )[j] != path@ by {
        assert(conflict_paths(conflicts@)[j] == conflicts@[j].path@);
    }
    false
}

/// The files that a merge with conflicts takes out of the working tree: those that the index or one
/// of the three trees has, and that the merge leaves nothing at. Each path is listed once.
pub fn leftover_paths(
    indexed: &Vec<String>,
    base: &TreeItems,
    ours: &TreeItems,
    theirs: &TreeItems,
    merged: &TreeItems,
    conflicts: &Vec<PathConflict>,
) -> (r: Vec<String>)
    ensures
        forall|path: Seq<char>|
            #[trigger] texts(r@).contains(path) <==> is_leftover(
                path,
                texts(indexed@),
                *base,
                *ours,
                *theirs,
                *merged,
                conflicts@,
            ),
        forall|i: int, j: int|
            0 <= i < j < r@.len() ==> (#[trigger] r@[i])@ != (#[trigger] r@[j])@,
{
    let mut known = union_paths(base, ours, theirs);
    let ghost in_trees = texts(known@);
    let ghost all_indexed = plain_texts(texts(indexed@));
    let mut t: usize = 0;
    while t < indexed.len()
        invariant
            t <= indexed@.len(),
            forall|path: Seq<char>|
                #[trigger] texts(known@).contains(path) <==> in_trees.contains(path)
                    || all_indexed.take(t as int).contains(path),
            all_indexed == plain_texts(texts(indexed@)),
        decreases indexed.len() - t,
    {
        let ghost before = known@;
        let ghost all = all_indexed;
        assert(texts(indexed@)[t as int] == indexed@[t as int]@);
        known.push(plainly(indexed[t].as_str()));
        proof {
            assert(texts(known@) =~= texts(before).push(all[t as int]));
            assert(all.take(t + 1) =~= all.take(t as int).push(all[t as int]));
            assert forall|path: Seq<char>| #[trigger] texts(known@).contains(path) <==> in_trees.contains(
                path,
            ) || all.take(t + 1).contains(path) by {
                lemma_push_contains(texts(before), all[t as int], path);
                lemma_push_contains(all.take(t as int), all[t as int], path);
                assert(texts(before).contains(path) <==> in_trees.contains(path) || all.take(
                    t as int,
                ).contains(path));
            }
        }
        t = t + 1;
    }
    assert(all_indexed.take(t as int) =~= all_indexed);
    let mut out: Vec<String> = Vec::new();
    let mut i: usize = 0;
    let ghost all = texts(known@);
    while i < known.len()
        invariant
            i <= known@.len(),
            all == texts(known@),
            forall|path: Seq<char>|
                #[trigger] texts(out@).contains(path) <==> all.take(i as int).contains(path)
                    && !merged@.contains_key(path) && !conflict_paths(conflicts@).contains(path),
            forall|a: int, b: int|
                0 <= a < b < out@.len() ==> (#[trigger] out@[a])@ != (#[trigger] out@[b])@,
        decreases known.len() - i,
    {
        let ghost before = out@;
        let ghost p = known@[i as int]@;
        assert(all.take(i + 1) =~= all.take(i as int).push(p));
        let path = known[i].as_str();
        if !in_conflict(conflicts, path) && !merged.holds_at(path) && !contains_text(&out, path) {
            out.push(known[i].clone());
            assert(texts(out@) =~= texts(before).push(p));
            assert forall|a: int, b: int| 0 <= a < b < out@.len() implies (#[trigger] out@[a])@ != (
            #[trigger] out@[b])@ by {
                if b < before.len() {
                    assert(out@[a] == before[a] && out@[b] == before[b]);
                } else {
                    assert(out@[a] == before[a]);
                    assert(texts(before)[a] == before[a]@);
                    assert(texts(before).contains(before[a]@));
                }
            }
        }
        assert forall|path: Seq<char>| #[trigger] texts(out@).contains(path) <==> all.take(i + 1).contains(
            path,
        ) && !merged@.contains_key(path) && !conflict_paths(conflicts@).contains(path) by {
            lemma_push_contains(all.take(i as int), p, path);
            lemma_push_contains(texts(before), p, path);
            assert(texts(before).contains(path) <==> all.take(i as int).contains(path)
                && !merged@.contains_key(path) && !conflict_paths(conflicts@).contains(path));
        }
        i = i + 1;
    }
    assert(all.take(i as int) =~= all);
    assert forall|path: Seq<char>| #[trigger] texts(out@).contains(path) <==> is_leftover(
        path,
        texts(indexed@),
        *base,
        *ours,
        *theirs,
        *merged,
        conflicts@,
    ) by {
        assert(texts(known@).contains(path) <==> in_trees.contains(path) || all_indexed.contains(path));
    }
    out
}

proof fn lemma_push_contains(s: Seq<Seq<char>>, x: Seq<char>, y: Seq<char>)
    ensures
        s.push(x).contains(y) <==> s.contains(y) || x == y,
{
    let t = s.push(x);
    if s.contains(y) {
        let k = choose|k: int| 0 <= k < s.len() && s[k] == y;
        assert(t[k] == y);
    }
    if x == y {
        assert(t[t.len() - 1] == y);
    }
    if t.contains(y) {
        let k = choose|k: int| 0 <= k < t.len() && t[k] == y;
        if k < s.len() {
            assert(s[k] == y);
        }
    }
}

/// The paths of `a` that are not in `b`, in order.
pub open spec fn without(a: Seq<Seq<char>>, b: Seq<Seq<char>>) -> Seq<Seq<char>>
    decreases a.len(),
{
    if a.len() == 0 {
        Seq::empty()
    } else if plain_texts(b).contains(plain_path(a.last())) {
        without(a.drop_last(), b)
    } else {
        without(a.drop_last(), b).push(a.last())
    }
}

/// The files that moving the working tree to another index takes out: those that the one index
/// tracks and the other does not.
pub fn untracked_by_reset(current: &Vec<String>, target: &Vec<String>) -> (r: Vec<String>)
    ensures
        texts(r@) == without(texts(current@), texts(target@)),
{
    let ghost all = texts(current@);
    let mut kept: Vec<String> = Vec::new();
    let mut t: usize = 0;
    assert(texts(kept@) =~= plain_texts(texts(target@)).take(0));
    while t < target.len()
        invariant
            t <= target@.len(),
            texts(kept@) == plain_texts(texts(target@)).take(t as int),
        decreases target.len() - t,
    {
        let ghost before = kept@;
        assert(texts(target@)[t as int] == target@[t as int]@);
        kept.push(plainly(target[t].as_str()));
        assert(texts(kept@) =~= texts(before).push(plain_path(target@[t as int]@)));
        assert(plain_texts(texts(target@)).take(t + 1) =~= plain_texts(texts(target@)).take(
            t as int,
        ).push(plain_path(target@[t as int]@)));
        t = t + 1;
    }
    assert(texts(kept@) =~= plain_texts(texts(target@)));
    let mut out: Vec<String> = Vec::new();
    let mut i: usize = 0;
    assert(texts(out@) =~= without(all.take(0), texts(target@)));
    while i < current.len()
        invariant
            i <= current@.len(),
            all == texts(current@),
            texts(kept@) == plain_texts(texts(target@)),
            texts(out@) == without(all.take(i as int), texts(target@)),
        decreases current.len() - i,
    {
        assert(all.take(i + 1).drop_last() =~= all.take(i as int));
        assert(all.take(i + 1).last() == current@[i as int]@);
        let plain = plainly(current[i].as_str());
        if !contains_text(&kept, plain.as_str()) {
            let ghost before = out@;
            out.push(current[i].clone());
            assert(texts(out@) =~= texts(before).push(current@[i as int]@));
        }
        i = i + 1;
    }
    assert(all.take(i as int) =~= all);
    out
}

/// A file of a merge result could not be read.
pub fn merged_blob_error(merged: bool, id: ObjectId, path: &str, error: &str) -> (r: PullMergeError)
    ensures
        r matches PullMergeError::WorkdirReset(text) && text@ == (if merged {
            "failed to load merged blob "@
        } else {
            "failed to load blob "@
        }) + id.text() + " for '"@ + path@ + "': "@ + error@,
{
    let name = id.to_string();
    let head = if merged {
        "failed to load merged blob "
    } else {
        "failed to load blob "
    };
    PullMergeError::WorkdirReset(concat6(head, name.as_str(), " for '", path, "': ", error))
}

/// What moves to the merge commit: HEAD itself where no branch is named, else the branch.
pub fn merge_head_move(head_name: &str, commit: ObjectId) -> (r: HeadMove)
    ensures
        match r {
            HeadMove::Detached(id) => head_name@ == "HEAD"@ && id == commit,
            HeadMove::Branch(name) => head_name@ != "HEAD"@ && name@ == head_name@,
        },
{
    if text_eq(head_name, "HEAD") {
        HeadMove::Detached(commit)
    } else {
        HeadMove::Branch(head_name.to_owned())
    }
}

/// The name of HEAD: that of its branch, or `HEAD` itself.
pub fn current_head_name(branch: &Option<String>) -> (r: String)
    ensures
        r@ == match *branch {
            Some(name) => name@,
            None => "HEAD"@,
        },
{
    match branch {
        Some(name) => name.clone(),
        None => "HEAD".to_owned(),
    }
}

/// An entry of the reflog for a merge.
#[derive(Debug)]
pub struct MergeReflog {
    pub old_oid: String,
    pub new_oid: String,
    /// What was merged
    pub branch: String,
    pub policy: String,
}

/// The entry of the reflog for a merge. Where there was no commit, the name of only zeros stands for
/// it.
pub fn merge_reflog(
    kind: HashKind,
    current: Option<ObjectId>,
    target: ObjectId,
    branch: &str,
    policy: &str,
) -> (r: MergeReflog)
    ensures
        r.old_oid@ == (match current {
            Some(id) => id.text(),
            None => (ObjectId { kind, hi: 0, lo: 0 }).text(),
        }),
        r.new_oid@ == target.text(),
        r.branch@ == branch@,
        r.policy@ == policy@,
{
    let old_oid = match current {
        Some(id) => id.to_string(),
        None => ObjectId::zero(kind).to_string(),
    };
    MergeReflog {
        old_oid,
        new_oid: target.to_string(),
        branch: branch.to_owned(),
        policy: policy.to_owned(),
    }
}

/// What became of editing a message.
#[derive(Debug)]
pub enum EditOutcome {
    /// No editor is configured, or it failed
    NotEdited,
    /// The file that was edited, or why it cannot be read
    Edited { text: Result<String, String> },
}

/// The message of a merge: the edited one where it was to be edited and an editor ran, else as it
/// was.
pub fn edited_message(message: &str, edit: bool, outcome: &EditOutcome) -> (r: Result<String, PullMergeError>)
    ensures
        match *outcome {
            EditOutcome::Edited { text } if edit => match text {
                Ok(t) => r matches Ok(got) && got@ == t@,
                Err(e) => r matches Err(PullMergeError::StateLoad(why)) && why@
                    == "failed to read edited merge message: "@ + e@,
            },
            _ => r matches Ok(got) && got@ == message@,
        },
{
    if !edit {
        return Ok(message.to_owned());
    }
    match outcome {
        EditOutcome::NotEdited => Ok(message.to_owned()),
        EditOutcome::Edited { text } => match text {
            Ok(t) => Ok(t.clone()),
            Err(e) => Err(
                PullMergeError::StateLoad(
                    concat2("failed to read edited merge message: ", e.as_str()),
                ),
            ),
        },
    }
}

/// The shell command that edits a message.
pub fn editor_command(editor: &str, path: &str) -> (r: String)
    ensures
        r@ == editor@ + " \""@ + path@ + "\""@,
{
    concat4(editor, " \"", path, "\"")
}

/// A file is left over exactly where it was recorded or is known to a side or the base, and is neither
/// in the result nor in conflict.
pub proof fn law_what_is_left_over(
    path: Seq<char>,
    indexed: Seq<Seq<char>>,
    base: TreeItems,
    ours: TreeItems,
    theirs: TreeItems,
    merged: TreeItems,
    conflicts: Seq<PathConflict>,
)
    ensures
        is_leftover(path, indexed, base, ours, theirs, merged, conflicts) <==> !merged@.dom().contains(path)
            && !conflict_paths(conflicts).contains(path) && ((exists|i: int|
            0 <= i < indexed.len() && plain_path(#[trigger] indexed[i]) == path) || base@.dom().contains(path)
            || ours@.dom().contains(path) || theirs@.dom().contains(path)),
{
    let plain = plain_texts(indexed);
    if plain.contains(path) {
        let i = choose|i: int| 0 <= i < plain.len() && plain[i] == path;
        assert(plain_path(indexed[i]) == path);
    }
    if exists|i: int| 0 <= i < indexed.len() && plain_path(#[trigger] indexed[i]) == path {
        let i = choose|i: int| 0 <= i < indexed.len() && plain_path(#[trigger] indexed[i]) == path;
        assert(plain[i] == path);
    }
}

/// The files that a reset takes away are those that the target does not have, in their order.
pub proof fn law_files_of_one_side_only(a: Seq<Seq<char>>, b: Seq<Seq<char>>)
    ensures
        without(a, b) == a.filter(|p: Seq<char>| !plain_texts(b).contains(plain_path(p))),
    decreases a.len(),
{
    reveal(Seq::filter);
    if a.len() > 0 {
        law_files_of_one_side_only(a.drop_last(), b);
    }
}

} // verus!
