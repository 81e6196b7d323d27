//! The order of commits: no commit comes before its parents.

use vstd::prelude::*;

use crate::bisect::{contains_id, parent_link, parents_of, CommitGraph, GraphCommit};
use crate::object::ObjectId;

verus! {

/// No other commit of the list has the one at `k` as a parent.
pub open spec fn is_free(commits: Seq<GraphCommit>, rest: Seq<ObjectId>, k: int) -> bool {
    forall|j: int|
        0 <= j < rest.len() && j != k ==> !parent_link(commits, #[trigger] rest[j], rest[k])
}

/// The first place from `from` on at which a commit is free; the first of all where there is none.
pub open spec fn first_free(commits: Seq<GraphCommit>, rest: Seq<ObjectId>, from: nat) -> int
    decreases rest.len() - from,
{
    if from >= rest.len() {
        0
    } else if is_free(commits, rest, from as int) {
        from as int
    } else {
        first_free(commits, rest, from + 1)
    }
}

pub proof fn lemma_first_free(commits: Seq<GraphCommit>, rest: Seq<ObjectId>, from: nat)
    requires
        rest.len() > 0,
    ensures
        0 <= first_free(commits, rest, from) < rest.len(),
        forall|k: int|
            from <= k < rest.len() && #[trigger] is_free(commits, rest, k) ==> is_free(
                commits,
                rest,
                first_free(commits, rest, from),
            ),
    decreases rest.len() - from,
{
    if from < rest.len() && !is_free(commits, rest, from as int) {
        lemma_first_free(commits, rest, from + 1);
    }
}

/// The commits of `rest`, newest first: each time the first whose children are all out. A list
/// that is in such an order stays as it is.
pub open spec fn newest_first(commits: Seq<GraphCommit>, rest: Seq<ObjectId>) -> Seq<ObjectId>
    decreases rest.len(),
    via newest_first_ends
{
    if rest.len() == 0 {
        Seq::empty()
    } else {
        let k = first_free(commits, rest, 0);
        seq![rest[k]] + newest_first(commits, rest.remove(k))
    }
}

#[via_fn]
proof fn newest_first_ends(commits: Seq<GraphCommit>, rest: Seq<ObjectId>) {
    if rest.len() > 0 {
        lemma_first_free(commits, rest, 0);
    }
}

pub proof fn lemma_removed(s: Seq<ObjectId>, k: int)
    requires
        0 <= k < s.len(),
    ensures
        forall|x: ObjectId|
            #![trigger s.contains(x)]
            #![trigger s.remove(k).contains(x)]
            s.contains(x) <==> s.remove(k).contains(x) || x == s[k],
        s.no_duplicates() ==> s.remove(k).no_duplicates() && !s.remove(k).contains(s[k]),
{
    let t = s.remove(k);
    assert forall|x: ObjectId|
        #![trigger s.contains(x)]
        #![trigger t.contains(x)]
        s.contains(x) <==> t.contains(x) || x == s[k] by {
        if s.contains(x) {
            let j = choose|j: int| 0 <= j < s.len() && s[j] == x;
            if j < k {
                assert(t[j] == x);
            } else if j > k {
                assert(t[j - 1] == x);
            }
        }
        if t.contains(x) {
            let j = choose|j: int| 0 <= j < t.len() && t[j] == x;
            if j < k {
                assert(s[j] == x);
            } else {
                assert(s[j + 1] == x);
            }
        }
    }
}

/// Putting commits in order loses none and adds none.
pub proof fn lemma_order_members(commits: Seq<GraphCommit>, rest: Seq<ObjectId>)
    requires
        rest.no_duplicates(),
    ensures
        newest_first(commits, rest).len() == rest.len(),
        newest_first(commits, rest).no_duplicates(),
        forall|x: ObjectId| #[trigger]
            newest_first(commits, rest).contains(x) <==> rest.contains(x),
    decreases rest.len(),
{
    if rest.len() > 0 {
        lemma_first_free(commits, rest, 0);
        let k = first_free(commits, rest, 0);
        let fewer = rest.remove(k);
        lemma_removed(rest, k);
        lemma_order_members(commits, fewer);
        let tail = newest_first(commits, fewer);
        let list = newest_first(commits, rest);
        assert(list =~= seq![rest[k]] + tail);
        assert forall|x: ObjectId| #[trigger] list.contains(x) <==> rest.contains(x) by {
            if list.contains(x) {
                let j = choose|j: int| 0 <= j < list.len() && list[j] == x;
                if j > 0 {
                    assert(tail[j - 1] == x);
                    assert(tail.contains(x));
                }
            }
            if rest.contains(x) {
                if x == rest[k] {
                    assert(list[0] == x);
                } else {
                    assert(tail.contains(x));
                    let j = choose|j: int| 0 <= j < tail.len() && tail[j] == x;
                    assert(list[j + 1] == x);
                }
            }
        }
        assert forall|i: int, j: int| 0 <= i < j < list.len() implies list[i] != list[j] by {
            assert(list[j] == tail[j - 1]);
            assert(tail.contains(tail[j - 1]));
            if i > 0 {
                assert(list[i] == tail[i - 1]);
            }
        }
    }
}

/// The first commit stays first where every other is a parent of one in the list.
pub proof fn lemma_first_stays(commits: Seq<GraphCommit>, rest: Seq<ObjectId>)
    requires
        rest.len() > 0,
        forall|k: int| 0 < k < rest.len() ==> !(#[trigger] is_free(commits, rest, k)),
    ensures
        newest_first(commits, rest)[0] == rest[0],
{
    lemma_none_free(commits, rest, 1);
    if !is_free(commits, rest, 0) {
        assert(first_free(commits, rest, 0) == first_free(commits, rest, 1));
    }
}

proof fn lemma_none_free(commits: Seq<GraphCommit>, rest: Seq<ObjectId>, from: nat)
    requires
        forall|k: int| from <= k < rest.len() ==> !(#[trigger] is_free(commits, rest, k)),
    ensures
        first_free(commits, rest, from) == 0,
    decreases rest.len() - from,
{
    if from < rest.len() {
        assert(!is_free(commits, rest, from as int));
        lemma_none_free(commits, rest, from + 1);
    }
}

fn is_free_at(
    links: &Vec<Vec<ObjectId>>,
    rest: &Vec<ObjectId>,
    k: usize,
    commits: Ghost<Seq<GraphCommit>>,
) -> (r: bool)
    requires
        k < rest@.len(),
        linked(commits@, rest@, links@),
    ensures
        r == is_free(commits@, rest@, k as int),
{
    let mut j: usize = 0;
    while j < rest.len()
        invariant
            j <= rest@.len(),
            k < rest@.len(),
            linked(commits@, rest@, links@),
            forall|i: int|
                0 <= i < j && i != k ==> !parent_link(commits@, #[trigger] rest@[i], rest@[k as int]),
        decreases rest@.len() - j,
    {
        assert(has_links(commits@, rest@[j as int], links@[j as int]));
        if j != k && contains_id(&links[j], rest[k]) {
            assert(parent_link(commits@, rest@[j as int], rest@[k as int]));
            return false;
        }
        j = j + 1;
    }
    true
}

spec fn has_links(commits: Seq<GraphCommit>, id: ObjectId, parents: Vec<ObjectId>) -> bool {
    parents_of(commits, id) == Ok::<Seq<ObjectId>, Seq<char>>(parents@)
}

/// `links` holds the parents of each commit.
spec fn linked(commits: Seq<GraphCommit>, rest: Seq<ObjectId>, links: Seq<Vec<ObjectId>>) -> bool {
    &&& links.len() == rest.len()
    &&& forall|i: int| 0 <= i < rest.len() ==> has_links(commits, rest[i], #[trigger] links[i])
}

/// Puts commits in order, newest first.
pub(crate) fn order_commits(graph: &CommitGraph, found: Vec<ObjectId>, links: Vec<Vec<ObjectId>>) -> (r: Vec<
    ObjectId,
>)
    requires
        links@.len() == found@.len(),
        forall|i: int|
            0 <= i < found@.len() ==> parents_of(graph.commits@, found@[i]) == Ok::<
                Seq<ObjectId>,
                Seq<char>,
            >((#[trigger] links@[i])@),
    ensures
        r@ == newest_first(graph.commits@, found@),
{
    let ghost commits = graph.commits@;
    let ghost want = newest_first(commits, found@);
    let mut rest = found;
    let mut links = links;
    let mut out: Vec<ObjectId> = Vec::new();
    assert forall|i: int| 0 <= i < rest@.len() implies has_links(commits, rest@[i], #[trigger] links@[i]) by {}
    assert(out@ + newest_first(commits, rest@) =~= want);
    while rest.len() > 0
        invariant
            linked(commits, rest@, links@),
            out@ + newest_first(commits, rest@) == want,
        decreases rest@.len(),
    {
        let mut k: usize = 0;
        while k < rest.len() && !is_free_at(&links, &rest, k, Ghost(commits))
            invariant
                k <= rest@.len(),
                rest@.len() > 0,
                linked(commits, rest@, links@),
                first_free(commits, rest@, 0) == first_free(commits, rest@, k as nat),
            decreases rest@.len() - k,
        {
            k = k + 1;
        }
        if k == rest.len() {
            k = 0;
        }
        let ghost r0 = rest@;
        let ghost l0 = links@;
        let ghost o0 = out@;
        assert(k == first_free(commits, r0, 0));
        let id = rest.remove(k);
        let _ = links.remove(k);
        out.push(id);
        proof {
            assert(rest@ =~= r0.remove(k as int));
            assert forall|i: int| 0 <= i < rest@.len() implies has_links(
                commits,
                rest@[i],
                #[trigger] links@[i],
            ) by {
                if i < k {
                    assert(links@[i] == l0[i] && rest@[i] == r0[i]);
                } else {
                    assert(links@[i] == l0[i + 1] && rest@[i] == r0[i + 1]);
                }
            }
            assert(newest_first(commits, r0) == seq![id] + newest_first(commits, rest@));
            assert(out@ + newest_first(commits, rest@) =~= o0 + newest_first(commits, r0));
        }
    }
    assert(out@ =~= want);
    out
}

/// `list` without the skipped commits.
pub open spec fn unskipped(list: Seq<ObjectId>, skipped: Seq<ObjectId>) -> Seq<ObjectId>
    decreases list.len(),
{
    if list.len() == 0 {
        Seq::empty()
    } else if skipped.contains(list.last()) {
        unskipped(list.drop_last(), skipped)
    } else {
        unskipped(list.drop_last(), skipped).push(list.last())
    }
}

/// Leaving out keeps what is not left out, and its order.
pub proof fn lemma_unskipped(list: Seq<ObjectId>, skipped: Seq<ObjectId>)
    requires
        list.no_duplicates(),
    ensures
        unskipped(list, skipped).no_duplicates(),
        unskipped(list, skipped).len() <= list.len(),
        forall|x: ObjectId| #[trigger]
            unskipped(list, skipped).contains(x) <==> list.contains(x) && !skipped.contains(x),
        forall|i: int, j: int|
            0 <= i < j < unskipped(list, skipped).len() ==> comes_before(
                list,
                #[trigger] unskipped(list, skipped)[i],
                #[trigger] unskipped(list, skipped)[j],
            ),
    decreases list.len(),
{
    if list.len() > 0 {
        let head = list.drop_last();
        let last = list.last();
        assert(head.no_duplicates());
        lemma_unskipped(head, skipped);
        let before = unskipped(head, skipped);
        let now = unskipped(list, skipped);
        assert forall|x: ObjectId| head.contains(x) implies #[trigger] list.contains(x) by {
            let k = choose|k: int| 0 <= k < head.len() && head[k] == x;
            assert(list[k] == x);
        }
        assert(!head.contains(last)) by {
            if head.contains(last) {
                let k = choose|k: int| 0 <= k < head.len() && head[k] == last;
                assert(list[k] == list[list.len() - 1]);
            }
        }
        assert forall|x: ObjectId| #[trigger] now.contains(x) <==> list.contains(x)
            && !skipped.contains(x) by {
            if now.contains(x) {
                let k = choose|k: int| 0 <= k < now.len() && now[k] == x;
                if k < before.len() {
                    assert(before[k] == x);
                    assert(before.contains(x));
                } else {
                    assert(list[list.len() - 1] == x);
                }
            }
            if list.contains(x) && !skipped.contains(x) {
                let k = choose|k: int| 0 <= k < list.len() && list[k] == x;
                if k < head.len() {
                    assert(head[k] == x);
                    assert(before.contains(x));
                    let j = choose|j: int| 0 <= j < before.len() && before[j] == x;
                    assert(now[j] == x);
                } else {
                    assert(now[now.len() - 1] == x);
                }
            }
        }
        assert forall|i: int, j: int| 0 <= i < j < now.len() implies comes_before(
            list,
            #[trigger] now[i],
            #[trigger] now[j],
        ) by {
            assert(now[i] == before[i]);
            assert(before.contains(before[i]));
            if j < before.len() {
                assert(now[j] == before[j]);
                let (p, q) = choose|p: int, q: int|
                    0 <= p < q < head.len() && #[trigger] head[p] == before[i] && #[trigger] head[q]
                        == before[j];
                assert(list[p] == now[i] && list[q] == now[j]);
            } else {
                let p = choose|p: int| 0 <= p < head.len() && head[p] == before[i];
                assert(list[p] == now[i] && list[list.len() - 1] == now[j]);
            }
        }
        assert(now.no_duplicates()) by {
            assert forall|i: int, j: int| 0 <= i < j < now.len() implies now[i] != now[j] by {
                assert(now[i] == before[i]);
                assert(before.contains(before[i]));
            }
        }
    }
}

/// `a` stands at an earlier place of the list than `b`.
pub open spec fn comes_before(list: Seq<ObjectId>, a: ObjectId, b: ObjectId) -> bool {
    exists|p: int, q: int|
        0 <= p < q < list.len() && #[trigger] list[p] == a && #[trigger] list[q] == b
}

/// Leaves out the skipped commits.
pub(crate) fn leave_out(list: &Vec<ObjectId>, skipped: &Vec<ObjectId>) -> (r: Vec<ObjectId>)
    ensures
        r@ == unskipped(list@, skipped@),
{
    let ghost all = list@;
    let mut out: Vec<ObjectId> = Vec::new();
    let mut i: usize = 0;
    assert(all.take(0) =~= Seq::<ObjectId>::empty());
    while i < list.len()
        invariant
            i <= list@.len(),
            all == list@,
            out@ == unskipped(all.take(i as int), skipped@),
        decreases list@.len() - i,
    {
        proof {
            assert(all.take(i as int + 1).drop_last() =~= all.take(i as int));
            assert(all.take(i as int + 1).last() == all[i as int]);
        }
        if !contains_id(skipped, list[i]) {
            out.push(list[i]);
        }
        i = i + 1;
    }
    assert(all.take(all.len() as int) =~= all);
    out
}

/// The commits that stay are those that were not skipped, in their order.
pub proof fn law_skipped_commits_are_left_out(list: Seq<ObjectId>, skipped: Seq<ObjectId>)
    ensures
        unskipped(list, skipped) == list.filter(|id: ObjectId| !skipped.contains(id)),
    decreases list.len(),
{
    reveal(Seq::filter);
    if list.len() > 0 {
        law_skipped_commits_are_left_out(list.drop_last(), skipped);
    }
}

} // verus!
