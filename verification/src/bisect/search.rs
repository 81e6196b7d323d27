//! Why a search ends: every verdict leaves fewer candidates, in a history without merges half.

use vstd::prelude::*;

use crate::bisect::order::{
    comes_before, first_free, is_free, lemma_first_free, lemma_order_members, lemma_removed,
    lemma_unskipped, newest_first, unskipped,
};
use crate::bisect::{
    ancestors, between, candidates, is_chain, is_linear, law_ancestors, law_candidates,
    law_next_point, leads_to, lemma_bad_is_last, lemma_between, lemma_linear_between,
    lemma_parents_reachable, lemma_push_contains, lemma_walk_from, next_point, parent_link,
    reachable, walk_from, BisectNext, CommitGraph, GraphCommit,
};
use crate::object::ObjectId;

verus! {

/// No two commits are ancestors of each other.
pub open spec fn is_acyclic(commits: Seq<GraphCommit>) -> bool {
    forall|a: ObjectId, b: ObjectId|
        #[trigger] reachable(commits, seq![a], Seq::empty(), b) && #[trigger] reachable(
            commits,
            seq![b],
            Seq::empty(),
            a,
        ) ==> a == b
}

/// `fewer` is a part of `list`, and a smaller one.
pub open spec fn narrows(fewer: Seq<ObjectId>, list: Seq<ObjectId>) -> bool {
    &&& fewer.len() < list.len()
    &&& forall|id: ObjectId| #[trigger] fewer.contains(id) ==> list.contains(id)
}

/// What avoids the blocked commits avoids any part of them.
proof fn lemma_fewer_blocks(
    commits: Seq<GraphCommit>,
    starts: Seq<ObjectId>,
    blocked: Seq<ObjectId>,
    fewer: Seq<ObjectId>,
    id: ObjectId,
)
    requires
        reachable(commits, starts, blocked, id),
        forall|x: ObjectId| #[trigger] fewer.contains(x) ==> blocked.contains(x),
    ensures
        reachable(commits, starts, fewer, id),
{
    let chain = choose|chain: Seq<ObjectId>| leads_to(commits, starts, blocked, chain, id);
    assert(leads_to(commits, starts, fewer, chain, id));
}

/// A chain can be gone on from its end.
proof fn lemma_chain_goes_on(
    commits: Seq<GraphCommit>,
    starts: Seq<ObjectId>,
    blocked: Seq<ObjectId>,
    middle: ObjectId,
    chain: Seq<ObjectId>,
    id: ObjectId,
    n: int,
)
    requires
        reachable(commits, starts, blocked, middle),
        leads_to(commits, seq![middle], blocked, chain, id),
        0 <= n < chain.len(),
    ensures
        reachable(commits, starts, blocked, chain[n]),
    decreases n,
{
    let one = seq![middle];
    assert(one.contains(chain[0]));
    assert(chain[0] == middle);
    if n > 0 {
        lemma_chain_goes_on(commits, starts, blocked, middle, chain, id, n - 1);
        assert(!blocked.contains(chain[n - 1]));
        assert(parent_link(commits, chain[n - 1], chain[n - 1 + 1]));
        lemma_parents_reachable(commits, starts, blocked, chain[n - 1], chain[n]);
    }
}

proof fn lemma_reach_through(
    commits: Seq<GraphCommit>,
    starts: Seq<ObjectId>,
    blocked: Seq<ObjectId>,
    middle: ObjectId,
    id: ObjectId,
)
    requires
        reachable(commits, starts, blocked, middle),
        reachable(commits, seq![middle], blocked, id),
    ensures
        reachable(commits, starts, blocked, id),
{
    let chain = choose|chain: Seq<ObjectId>| leads_to(commits, seq![middle], blocked, chain, id);
    lemma_chain_goes_on(commits, starts, blocked, middle, chain, id, chain.len() - 1);
}

/// A part of a list without some element of it is smaller.
proof fn lemma_part_is_smaller(fewer: Seq<ObjectId>, list: Seq<ObjectId>, lost: ObjectId)
    requires
        fewer.no_duplicates(),
        forall|id: ObjectId| #[trigger] fewer.contains(id) ==> list.contains(id),
        list.contains(lost),
        !fewer.contains(lost),
    ensures
        fewer.len() < list.len(),
{
    let small = fewer.to_set();
    let large = list.to_set();
    fewer.unique_seq_to_set();
    vstd::seq_lib::seq_to_set_is_finite(list);
    vstd::seq_lib::seq_to_set_is_finite(fewer);
    list.lemma_cardinality_of_set();
    assert(!small.contains(lost));
    assert(small.insert(lost).subset_of(large));
    vstd::set_lib::lemma_len_subset(small.insert(lost), large);
}

/// The commits of the list that are `id` or its ancestors.
spec fn ancestors_in(commits: Seq<GraphCommit>, rest: Seq<ObjectId>, id: ObjectId) -> Set<ObjectId> {
    rest.to_set().filter(|x: ObjectId| reachable(commits, seq![id], Seq::empty(), x))
}

proof fn lemma_reaches_itself(commits: Seq<GraphCommit>, blocked: Seq<ObjectId>, id: ObjectId)
    ensures
        reachable(commits, seq![id], blocked, id),
{
    let one = seq![id];
    assert(one[0] == id);
    assert(one.contains(id));
    assert(leads_to(commits, one, blocked, one, id));
}

/// Going from a commit to its children ends at one that has none in the list.
proof fn lemma_some_free(commits: Seq<GraphCommit>, rest: Seq<ObjectId>, k: int)
    requires
        is_acyclic(commits),
        rest.no_duplicates(),
        0 <= k < rest.len(),
    ensures
        exists|f: int| 0 <= f < rest.len() && is_free(commits, rest, f),
    decreases rest.len() - ancestors_in(commits, rest, rest[k]).len(),
{
    let none = Seq::<ObjectId>::empty();
    if !is_free(commits, rest, k) {
        let j = choose|j: int|
            0 <= j < rest.len() && j != k && parent_link(commits, #[trigger] rest[j], rest[k]);
        let small = ancestors_in(commits, rest, rest[k]);
        let large = ancestors_in(commits, rest, rest[j]);
        rest.unique_seq_to_set();
        vstd::seq_lib::seq_to_set_is_finite(rest);
        lemma_reaches_itself(commits, none, rest[j]);
        lemma_parents_reachable(commits, seq![rest[j]], none, rest[j], rest[k]);
        assert forall|x: ObjectId| #[trigger] small.contains(x) implies large.contains(x) by {
            lemma_reach_through(commits, seq![rest[j]], none, rest[k], x);
        }
        assert(rest.contains(rest[j]));
        assert(large.contains(rest[j]));
        assert(!small.contains(rest[j])) by {
            if reachable(commits, seq![rest[k]], none, rest[j]) {
                assert(rest[k] == rest[j]);
            }
        }
        assert(small.insert(rest[j]).subset_of(large));
        assert(large.subset_of(rest.to_set()));
        vstd::set_lib::lemma_len_subset(large, rest.to_set());
        vstd::set_lib::lemma_len_subset(small.insert(rest[j]), large);
        lemma_some_free(commits, rest, j);
    }
}

/// No commit comes before one of its children.
proof fn lemma_ordered(commits: Seq<GraphCommit>, rest: Seq<ObjectId>)
    requires
        is_acyclic(commits),
        rest.no_duplicates(),
    ensures
        forall|i: int, j: int|
            0 <= i < j < newest_first(commits, rest).len() ==> !parent_link(
                commits,
                #[trigger] newest_first(commits, rest)[j],
                #[trigger] newest_first(commits, rest)[i],
            ),
    decreases rest.len(),
{
    if rest.len() > 0 {
        lemma_first_free(commits, rest, 0);
        lemma_some_free(commits, rest, 0);
        let f = choose|f: int| 0 <= f < rest.len() && is_free(commits, rest, f);
        let k = first_free(commits, rest, 0);
        assert(is_free(commits, rest, k));
        let fewer = rest.remove(k);
        lemma_removed(rest, k);
        lemma_ordered(commits, fewer);
        lemma_order_members(commits, fewer);
        let tail = newest_first(commits, fewer);
        let list = newest_first(commits, rest);
        assert(list =~= seq![rest[k]] + tail);
        assert forall|i: int, j: int| 0 <= i < j < list.len() implies !parent_link(
            commits,
            #[trigger] list[j],
            #[trigger] list[i],
        ) by {
            assert(list[j] == tail[j - 1]);
            if i > 0 {
                assert(list[i] == tail[i - 1]);
            } else {
                assert(tail.contains(tail[j - 1]));
                assert(rest.contains(list[j]));
                let q = choose|q: int| 0 <= q < rest.len() && rest[q] == list[j];
                assert(q != k);
            }
        }
    }
}

/// A chain of parents goes to earlier places, or to the known commits, among which it stays.
proof fn lemma_chain_goes_back(
    graph: CommitGraph,
    bad: ObjectId,
    good: Seq<ObjectId>,
    chain: Seq<ObjectId>,
    i: int,
    n: int,
)
    requires
        is_acyclic(graph.commits@),
        between(graph, bad, good) matches Ok(list) && 0 <= i < list.len() && chain.len() > 0
            && chain[0] == list[i],
        is_chain(graph.commits@, chain),
        0 <= n < chain.len(),
    ensures
        ancestors(graph, good) matches Ok(known) && between(graph, bad, good) matches Ok(list) && (
        known.contains(chain[n]) || exists|p: int| 0 <= p <= i && #[trigger] list[p] == chain[n]),
    decreases n,
{
    let commits = graph.commits@;
    let none = Seq::<ObjectId>::empty();
    let known = ancestors(graph, good)->Ok_0;
    let list = between(graph, bad, good)->Ok_0;
    if n == 0 {
        assert(list[i] == chain[0]);
    } else {
        lemma_chain_goes_back(graph, bad, good, chain, i, n - 1);
        lemma_between(graph, bad, good);
        law_ancestors(graph, good);
        assert(parent_link(commits, chain[n - 1], chain[n - 1 + 1]));
        if known.contains(chain[n - 1]) {
            lemma_parents_reachable(commits, good, none, chain[n - 1], chain[n]);
        } else if !known.contains(chain[n]) {
            let p = choose|p: int| 0 <= p <= i && #[trigger] list[p] == chain[n - 1];
            assert(list.contains(list[p]));
            lemma_parents_reachable(commits, seq![bad], known, list[p], chain[n]);
            assert(list.contains(chain[n]));
            let q = choose|q: int| 0 <= q < list.len() && list[q] == chain[n];
            let found = walk_from(commits, seq![bad], known)->Ok_0;
            lemma_walk_from(commits, seq![bad], known);
            lemma_ordered(commits, found);
            let ordered = newest_first(commits, found);
            if q > p {
                let a = list.len() - 1 - q;
                let b = list.len() - 1 - p;
                assert(ordered[a] == list[q] && ordered[b] == list[p]);
                assert(false);
            }
        }
    }
}

/// Of the commits between a bad and some good ones, none is an ancestor of an earlier one.
proof fn lemma_between_is_oldest_first(
    graph: CommitGraph,
    bad: ObjectId,
    good: Seq<ObjectId>,
    i: int,
    j: int,
)
    requires
        is_acyclic(graph.commits@),
        between(graph, bad, good) matches Ok(list) && 0 <= i < j < list.len(),
    ensures
        between(graph, bad, good) matches Ok(list) && !reachable(
            graph.commits@,
            seq![list[i]],
            Seq::empty(),
            list[j],
        ),
{
    let none = Seq::<ObjectId>::empty();
    let list = between(graph, bad, good)->Ok_0;
    lemma_between(graph, bad, good);
    let one = seq![list[i]];
    if reachable(graph.commits@, one, none, list[j]) {
        let chain = choose|chain: Seq<ObjectId>|
            leads_to(graph.commits@, one, none, chain, list[j]);
        assert(one.contains(chain[0]));
        lemma_chain_goes_back(graph, bad, good, chain, i, chain.len() - 1);
        assert(list.contains(list[j]));
        let p = choose|p: int| 0 <= p <= i && #[trigger] list[p] == chain[chain.len() - 1];
        assert(list[p] == list[j]);
        assert(false);
    }
}

/// The candidates come oldest first, with merges too: none is an ancestor of one before it.
pub proof fn law_candidates_are_oldest_first(
    graph: CommitGraph,
    bad: ObjectId,
    good: Seq<ObjectId>,
    skipped: Seq<ObjectId>,
)
    requires
        is_acyclic(graph.commits@),
    ensures
        candidates(graph, bad, good, skipped) matches Ok(list) ==> forall|i: int, j: int|
            0 <= i < j < list.len() ==> !reachable(
                graph.commits@,
                seq![#[trigger] list[i]],
                Seq::empty(),
                #[trigger] list[j],
            ),
{
    if let Ok(list) = candidates(graph, bad, good, skipped) {
        let all = between(graph, bad, good)->Ok_0;
        lemma_between(graph, bad, good);
        lemma_unskipped(all, skipped);
        assert forall|i: int, j: int| 0 <= i < j < list.len() implies !reachable(
            graph.commits@,
            seq![#[trigger] list[i]],
            Seq::empty(),
            #[trigger] list[j],
        ) by {
            assert(comes_before(all, list[i], list[j]));
            let (p, q) = choose|p: int, q: int|
                0 <= p < q < all.len() && #[trigger] all[p] == list[i] && #[trigger] all[q]
                    == list[j];
            lemma_between_is_oldest_first(graph, bad, good, p, q);
        }
    }
}

/// In a history without merges, the commits from one up to a later one are a chain, back from the
/// later one.
proof fn lemma_between_is_a_chain(
    graph: CommitGraph,
    bad: ObjectId,
    good: Seq<ObjectId>,
    blocked: Seq<ObjectId>,
    low: int,
    high: int,
)
    requires
        is_linear(graph.commits@),
        between(graph, bad, good) matches Ok(list) && 0 <= low <= high < list.len() && forall|i: int|
            low < i <= high ==> !blocked.contains(#[trigger] list[i]),
    ensures
        between(graph, bad, good) matches Ok(list) && reachable(
            graph.commits@,
            seq![list[high]],
            blocked,
            list[low],
        ),
{
    lemma_linear_between(graph, bad, good);
    let list = between(graph, bad, good)->Ok_0;
    let chain = Seq::new((high - low + 1) as nat, |k: int| list[high - k]);
    assert forall|k: int| 0 <= k < chain.len() - 1 implies parent_link(
        graph.commits@,
        #[trigger] chain[k],
        chain[k + 1],
    ) && !blocked.contains(chain[k]) by {
        let i = high - k - 1;
        assert(parent_link(graph.commits@, list[i + 1], list[i]));
        assert(!blocked.contains(list[high - k]));
    }
    let one = seq![list[high]];
    assert(one[0] == chain[0]);
    assert(one.contains(chain[0]));
    assert(leads_to(graph.commits@, one, blocked, chain, list[low]));
}

/// In a history without merges each candidate is an ancestor of every later one.
pub proof fn law_linear_candidates_are_a_line(
    graph: CommitGraph,
    bad: ObjectId,
    good: Seq<ObjectId>,
    skipped: Seq<ObjectId>,
)
    requires
        is_linear(graph.commits@),
    ensures
        candidates(graph, bad, good, skipped) matches Ok(list) ==> forall|i: int, j: int|
            0 <= i < j < list.len() ==> reachable(
                graph.commits@,
                seq![#[trigger] list[j]],
                Seq::empty(),
                #[trigger] list[i],
            ),
{
    if let Ok(list) = candidates(graph, bad, good, skipped) {
        let all = between(graph, bad, good)->Ok_0;
        lemma_between(graph, bad, good);
        lemma_unskipped(all, skipped);
        assert forall|i: int, j: int| 0 <= i < j < list.len() implies reachable(
            graph.commits@,
            seq![#[trigger] list[j]],
            Seq::empty(),
            #[trigger] list[i],
        ) by {
            assert(comes_before(all, list[i], list[j]));
            let (p, q) = choose|p: int, q: int|
                0 <= p < q < all.len() && #[trigger] all[p] == list[i] && #[trigger] all[q]
                    == list[j];
            lemma_between_is_a_chain(graph, bad, good, Seq::empty(), p, q);
        }
    }
}

proof fn lemma_skip_one(list: Seq<ObjectId>, skipped: Seq<ObjectId>, id: ObjectId)
    ensures
        unskipped(list, skipped.push(id)) == unskipped(unskipped(list, skipped), seq![id]),
    decreases list.len(),
{
    if list.len() > 0 {
        let last = list.last();
        lemma_skip_one(list.drop_last(), skipped, id);
        lemma_push_contains(skipped, id);
        assert(seq![id].contains(last) <==> last == id) by {
            assert(seq![id][0] == id);
        }
        if !skipped.contains(last) {
            let before = unskipped(list.drop_last(), skipped);
            assert(before.push(last).drop_last() =~= before);
        }
    }
}

/// Skipping a commit takes that commit from the candidates and no other: what lies behind it, and
/// the order, stay.
pub proof fn law_skip_takes_one_candidate(
    graph: CommitGraph,
    bad: ObjectId,
    good: Seq<ObjectId>,
    skipped: Seq<ObjectId>,
    id: ObjectId,
)
    ensures
        match (
            candidates(graph, bad, good, skipped),
            candidates(graph, bad, good, skipped.push(id)),
        ) {
            (Ok(list), Ok(fewer)) => fewer == unskipped(list, seq![id]) && forall|x: ObjectId|
                #[trigger]
                fewer.contains(x) <==> list.contains(x) && x != id,
            (Err(fault), Err(other)) => fault == other,
            _ => false,
        },
{
    if let Ok(all) = between(graph, bad, good) {
        lemma_between(graph, bad, good);
        lemma_skip_one(all, skipped, id);
        lemma_unskipped(all, skipped);
        lemma_unskipped(unskipped(all, skipped), seq![id]);
        assert(forall|x: ObjectId| #[trigger] seq![id].contains(x) <==> x == id) by {
            assert(seq![id][0] == id);
        }
    }
}

/// A verdict leaves fewer candidates. Where the next commit to test is bad, or is skipped, the rest
/// can be listed as before; where it is good, its ancestors have to be readable too.
pub proof fn law_every_verdict_narrows(
    graph: CommitGraph,
    bad: ObjectId,
    good: Seq<ObjectId>,
    skipped: Seq<ObjectId>,
    id: ObjectId,
)
    requires
        is_acyclic(graph.commits@),
        next_point(graph, Some(bad), good, skipped) == Ok::<BisectNext, Seq<char>>(
            BisectNext::Next(id),
        ),
    ensures
        candidates(graph, bad, good, skipped) matches Ok(list) && {
            &&& candidates(graph, id, good, skipped) matches Ok(fewer) && narrows(fewer, list)
            &&& candidates(graph, bad, good, skipped.push(id)) matches Ok(fewer) && narrows(
                fewer,
                list,
            )
            &&& candidates(graph, bad, good.push(id), skipped) matches Ok(fewer) ==> narrows(
                fewer,
                list,
            )
        },
{
    law_next_point(graph, bad, good, skipped);
    law_candidates(graph, bad, good, skipped);
    lemma_between(graph, bad, good);
    let commits = graph.commits@;
    let list = candidates(graph, bad, good, skipped)->Ok_0;
    let all = between(graph, bad, good)->Ok_0;
    let known = ancestors(graph, good)->Ok_0;
    let last = list[list.len() - 1];
    assert(list.contains(last));
    // The commit is bad.
    assert(candidates(graph, id, good, skipped) matches Ok(fewer) && narrows(fewer, list)) by {
        assert forall|x: ObjectId| #[trigger] reachable(commits, seq![id], known, x) implies reachable(
            commits,
            seq![bad],
            known,
            x,
        ) by {
            lemma_reach_through(commits, seq![bad], known, id, x);
        }
        law_candidates(graph, id, good, skipped);
        if let Err(fault) = candidates(graph, id, good, skipped) {
            assert(all.contains(fault.id));
            assert(false);
        }
        let fewer = candidates(graph, id, good, skipped)->Ok_0;
        assert forall|x: ObjectId| #[trigger] fewer.contains(x) implies list.contains(x) by {
            assert(reachable(commits, seq![id], known, x));
        }
        if fewer.contains(last) {
            lemma_fewer_blocks(commits, seq![id], known, Seq::empty(), last);
            law_candidates_are_oldest_first(graph, bad, good, skipped);
            let mid = (list.len() - 1) / 2;
            assert(list[mid] == id);
            assert(!reachable(commits, seq![list[mid]], Seq::empty(), list[list.len() - 1]));
            assert(false);
        }
        lemma_part_is_smaller(fewer, list, last);
    }
    // The commit is skipped.
    assert(candidates(graph, bad, good, skipped.push(id)) matches Ok(fewer) && narrows(fewer, list))
        by {
        lemma_push_contains(skipped, id);
        law_candidates(graph, bad, good, skipped.push(id));
        let fewer = candidates(graph, bad, good, skipped.push(id))->Ok_0;
        assert forall|x: ObjectId| #[trigger] fewer.contains(x) implies list.contains(x) by {
            assert(!skipped.push(id).contains(x));
        }
        assert(skipped.push(id).contains(id));
        lemma_part_is_smaller(fewer, list, id);
    }
    // The commit is good.
    if let Ok(fewer) = candidates(graph, bad, good.push(id), skipped) {
        lemma_good_verdict(graph, bad, good, skipped, id);
        lemma_part_is_smaller(fewer, list, id);
    }
}

/// What a good verdict leaves is a part of what there was, without the ancestors of the commit.
proof fn lemma_good_verdict(
    graph: CommitGraph,
    bad: ObjectId,
    good: Seq<ObjectId>,
    skipped: Seq<ObjectId>,
    id: ObjectId,
)
    requires
        candidates(graph, bad, good, skipped) is Ok,
        candidates(graph, bad, good.push(id), skipped) is Ok,
    ensures
        ({
            let list = candidates(graph, bad, good, skipped)->Ok_0;
            let fewer = candidates(graph, bad, good.push(id), skipped)->Ok_0;
            &&& fewer.no_duplicates()
            &&& forall|x: ObjectId| #[trigger]
                fewer.contains(x) ==> list.contains(x) && !reachable(
                    graph.commits@,
                    seq![id],
                    Seq::empty(),
                    x,
                )
            &&& !fewer.contains(id)
        }),
{
    let commits = graph.commits@;
    let none = Seq::<ObjectId>::empty();
    let more_good = good.push(id);
    law_candidates(graph, bad, good, skipped);
    law_candidates(graph, bad, more_good, skipped);
    law_ancestors(graph, good);
    law_ancestors(graph, more_good);
    lemma_push_contains(good, id);
    let known = ancestors(graph, good)->Ok_0;
    let more = ancestors(graph, more_good)->Ok_0;
    let list = candidates(graph, bad, good, skipped)->Ok_0;
    let fewer = candidates(graph, bad, more_good, skipped)->Ok_0;
    assert forall|x: ObjectId| #[trigger] known.contains(x) implies more.contains(x) by {
        let chain = choose|chain: Seq<ObjectId>| leads_to(commits, good, none, chain, x);
        assert(leads_to(commits, more_good, none, chain, x));
    }
    assert forall|x: ObjectId| reachable(commits, seq![id], none, x) implies more.contains(x) by {
        let one = seq![id];
        let chain = choose|chain: Seq<ObjectId>| leads_to(commits, one, none, chain, x);
        assert(one.contains(chain[0]));
        assert(leads_to(commits, more_good, none, chain, x));
    }
    assert forall|x: ObjectId| #[trigger] fewer.contains(x) implies list.contains(x) by {
        lemma_fewer_blocks(commits, seq![bad], more, known, x);
    }
    lemma_reaches_itself(commits, none, id);
}

/// Two lists without duplicates of the same elements are of one length.
proof fn lemma_same_elements(a: Seq<ObjectId>, b: Seq<ObjectId>)
    requires
        a.no_duplicates(),
        b.no_duplicates(),
        forall|id: ObjectId| a.contains(id) <==> b.contains(id),
    ensures
        a.len() == b.len(),
{
    a.unique_seq_to_set();
    b.unique_seq_to_set();
    assert(a.to_set() =~= b.to_set());
}

/// In a history without merges a verdict leaves half of the candidates: of `n`, a bad commit leaves
/// half of them rounded up, a good one half of them rounded down.
pub proof fn law_linear_search_halves(
    graph: CommitGraph,
    bad: ObjectId,
    good: Seq<ObjectId>,
    skipped: Seq<ObjectId>,
    id: ObjectId,
)
    requires
        is_acyclic(graph.commits@),
        is_linear(graph.commits@),
        next_point(graph, Some(bad), good, skipped) == Ok::<BisectNext, Seq<char>>(
            BisectNext::Next(id),
        ),
    ensures
        candidates(graph, bad, good, skipped) matches Ok(list) && {
            &&& candidates(graph, id, good, skipped) matches Ok(fewer) && fewer.len() == (list.len()
                + 1) / 2
            &&& candidates(graph, bad, good.push(id), skipped) matches Ok(fewer) ==> fewer.len()
                == list.len() / 2
        },
{
    let commits = graph.commits@;
    let none = Seq::<ObjectId>::empty();
    law_every_verdict_narrows(graph, bad, good, skipped, id);
    law_candidates(graph, bad, good, skipped);
    lemma_between(graph, bad, good);
    let list = candidates(graph, bad, good, skipped)->Ok_0;
    let all = between(graph, bad, good)->Ok_0;
    lemma_unskipped(all, skipped);
    let known = ancestors(graph, good)->Ok_0;
    let mid = (list.len() - 1) / 2;
    assert(list[mid] == id);
    law_candidates_are_oldest_first(graph, bad, good, skipped);
    assert forall|i: int| 0 <= i < all.len() implies !known.contains(#[trigger] all[i]) by {
        assert(all.contains(all[i]));
    }
    // The commit is bad.
    law_candidates(graph, id, good, skipped);
    let below = list.take(mid + 1);
    let fewer = candidates(graph, id, good, skipped)->Ok_0;
    assert forall|x: ObjectId| fewer.contains(x) <==> below.contains(x) by {
        if fewer.contains(x) {
            assert(list.contains(x));
            let j = choose|j: int| 0 <= j < list.len() && list[j] == x;
            if j > mid {
                lemma_fewer_blocks(commits, seq![id], known, none, x);
                assert(!reachable(commits, seq![list[mid]], none, list[j]));
                assert(false);
            }
            assert(below[j] == x);
        }
        if below.contains(x) {
            let j = choose|j: int| 0 <= j < below.len() && below[j] == x;
            assert(list[j] == x);
            assert(list.contains(x));
            if j < mid {
                assert(comes_before(all, list[j], list[mid]));
                let (p, q) = choose|p: int, q: int|
                    0 <= p < q < all.len() && #[trigger] all[p] == list[j] && #[trigger] all[q]
                        == list[mid];
                lemma_between_is_a_chain(graph, bad, good, known, p, q);
            } else {
                lemma_reaches_itself(commits, known, id);
            }
        }
    }
    lemma_same_elements(fewer, below);
    // The commit is good.
    if let Ok(rest) = candidates(graph, bad, good.push(id), skipped) {
        lemma_good_leaves_the_later(graph, bad, good, skipped, id, mid);
        lemma_same_elements(rest, list.skip(mid + 1));
    }
}

/// In a history without merges, a good verdict leaves the candidates that come later.
proof fn lemma_good_leaves_the_later(
    graph: CommitGraph,
    bad: ObjectId,
    good: Seq<ObjectId>,
    skipped: Seq<ObjectId>,
    id: ObjectId,
    mid: int,
)
    requires
        is_acyclic(graph.commits@),
        is_linear(graph.commits@),
        candidates(graph, bad, good, skipped) matches Ok(list) && 0 <= mid < list.len() && list[mid]
            == id,
        candidates(graph, bad, good.push(id), skipped) is Ok,
    ensures
        candidates(graph, bad, good, skipped) matches Ok(list) && candidates(
            graph,
            bad,
            good.push(id),
            skipped,
        ) matches Ok(rest) && rest.no_duplicates() && forall|x: ObjectId|
            rest.contains(x) <==> list.skip(mid + 1).contains(x),
{
    let commits = graph.commits@;
    let none = Seq::<ObjectId>::empty();
    let more_good = good.push(id);
    law_candidates(graph, bad, good, skipped);
    law_candidates(graph, bad, more_good, skipped);
    lemma_between(graph, bad, good);
    lemma_bad_is_last(graph, bad, good);
    law_ancestors(graph, good);
    law_ancestors(graph, more_good);
    lemma_push_contains(good, id);
    lemma_good_verdict(graph, bad, good, skipped, id);
    let known = ancestors(graph, good)->Ok_0;
    let more = ancestors(graph, more_good)->Ok_0;
    let list = candidates(graph, bad, good, skipped)->Ok_0;
    let rest = candidates(graph, bad, more_good, skipped)->Ok_0;
    let all = between(graph, bad, good)->Ok_0;
    lemma_unskipped(all, skipped);
    let above = list.skip(mid + 1);
    assert(list.contains(list[mid]));
    let at = choose|at: int| 0 <= at < all.len() && all[at] == id;
    assert forall|i: int| at < i < all.len() implies !more.contains(#[trigger] all[i]) by {
        if more.contains(all[i]) {
            lemma_between_is_oldest_first(graph, bad, good, at, i);
            assert(all.contains(all[i]));
            let chain = choose|chain: Seq<ObjectId>|
                leads_to(commits, more_good, none, chain, all[i]);
            if chain[0] == id {
                let one = seq![id];
                assert(one[0] == chain[0]);
                assert(one.contains(chain[0]));
                assert(leads_to(commits, one, none, chain, all[i]));
                assert(reachable(commits, seq![all[at]], none, all[i]));
            } else {
                assert(leads_to(commits, good, none, chain, all[i]));
                assert(known.contains(all[i]));
            }
            assert(false);
        }
    }
    assert forall|x: ObjectId| rest.contains(x) <==> above.contains(x) by {
        if rest.contains(x) {
            assert(list.contains(x));
            let j = choose|j: int| 0 <= j < list.len() && list[j] == x;
            if j < mid {
                law_linear_candidates_are_a_line(graph, bad, good, skipped);
                assert(reachable(commits, seq![list[mid]], none, list[j]));
                assert(false);
            }
            assert(j != mid);
            assert(above[j - mid - 1] == x);
        }
        if above.contains(x) {
            let j = choose|j: int| 0 <= j < above.len() && above[j] == x;
            let k = j + mid + 1;
            assert(list[k] == x);
            assert(list.contains(x));
            assert(comes_before(all, list[mid], list[k]));
            let (p, q) = choose|p: int, q: int|
                0 <= p < q < all.len() && #[trigger] all[p] == list[mid] && #[trigger] all[q]
                    == list[k];
            assert(p == at);
            lemma_between_is_a_chain(graph, bad, good, more, q, all.len() - 1);
            assert(all[all.len() - 1] == bad);
            assert(!more.contains(all[q]));
        }
    }
}

} // verus!
