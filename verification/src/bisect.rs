//! Binary search for the commit that introduced a change.

use vstd::prelude::*;

use crate::bisect::order::{
    first_free, is_free, leave_out, lemma_first_free, lemma_first_stays, lemma_order_members,
    lemma_unskipped, newest_first, order_commits, unskipped,
};
use crate::object::ObjectId;
use crate::text::concat4;

pub mod order;
pub mod report;
pub mod search;
pub mod session;

verus! {

/// What a commit tells the search.
#[derive(Debug)]
pub struct CommitFacts {
    pub parents: Vec<ObjectId>,
    pub subject: String,
}

/// A commit as the object store gave it, or why it could not be read.
#[derive(Debug)]
pub struct GraphCommit {
    pub id: ObjectId,
    pub facts: Result<CommitFacts, String>,
}

/// The commits that a search may read.
#[derive(Debug)]
pub struct CommitGraph {
    pub commits: Vec<GraphCommit>,
}

/// The entry for `id`.
pub open spec fn find_commit(commits: Seq<GraphCommit>, id: ObjectId) -> Option<GraphCommit>
    decreases commits.len(),
{
    if commits.len() == 0 {
        None
    } else if commits.last().id == id {
        Some(commits.last())
    } else {
        find_commit(commits.drop_last(), id)
    }
}

/// The parents of a commit, or why it could not be read.
pub open spec fn parents_of(commits: Seq<GraphCommit>, id: ObjectId) -> Result<Seq<ObjectId>, Seq<char>> {
    match find_commit(commits, id) {
        None => Err("object was not supplied"@),
        Some(c) => match c.facts {
            Ok(f) => Ok(f.parents@),
            Err(detail) => Err(detail@),
        },
    }
}

impl CommitGraph {
    /// The facts of the commit `id`, or why it could not be read.
    pub fn load<'a>(&'a self, id: ObjectId) -> (r: Result<&'a CommitFacts, String>)
        ensures
            match (r, find_commit(self.commits@, id)) {
                (Ok(facts), Some(c)) => c.facts == Ok::<CommitFacts, String>(*facts),
                (Err(e), Some(c)) => c.facts matches Err(detail) && e@ == detail@,
                (Err(e), None) => e@ == "object was not supplied"@,
                (Ok(_), None) => false,
            },
    {
        let mut i: usize = self.commits.len();
        let ghost all = self.commits@;
        assert(all.take(i as int) =~= all);
        while i > 0
            invariant
                i <= self.commits@.len(),
                all == self.commits@,
                find_commit(all, id) == find_commit(all.take(i as int), id),
            decreases i,
        {
            proof {
                assert(all.take(i as int).last() == all[i - 1]);
                assert(all.take(i as int).drop_last() =~= all.take(i - 1));
            }
            if self.commits[i - 1].id == id {
                return match &self.commits[i - 1].facts {
                    Ok(facts) => Ok(facts),
                    Err(detail) => Err(detail.clone()),
                };
            }
            i = i - 1;
        }
        Err("object was not supplied".to_owned())
    }
}

/// A commit that could not be read, and why.
pub struct CommitFault {
    pub id: ObjectId,
    pub detail: Seq<char>,
}

pub open spec fn fault_text(fault: CommitFault) -> Seq<char> {
    "Failed to load commit "@ + fault.id.text() + ": "@ + fault.detail
}

/// How many entries are for commits that were not visited.
pub open spec fn unvisited(commits: Seq<GraphCommit>, visited: Seq<ObjectId>) -> nat
    decreases commits.len(),
{
    if commits.len() == 0 {
        0
    } else {
        unvisited(commits.drop_last(), visited) + (if visited.contains(commits.last().id) {
            0nat
        } else {
            1nat
        })
    }
}

pub proof fn lemma_unvisited_step(commits: Seq<GraphCommit>, visited: Seq<ObjectId>, id: ObjectId)
    ensures
        unvisited(commits, visited.push(id)) <= unvisited(commits, visited),
        !visited.contains(id) && find_commit(commits, id) is Some ==> unvisited(
            commits,
            visited.push(id),
        ) < unvisited(commits, visited),
    decreases commits.len(),
{
    if commits.len() > 0 {
        lemma_unvisited_step(commits.drop_last(), visited, id);
        let last = commits.last().id;
        if visited.contains(last) {
            let k = choose|k: int| 0 <= k < visited.len() && visited[k] == last;
            assert(visited.push(id)[k] == last);
        }
        if last == id {
            assert(visited.push(id)[visited.len() as int] == id);
        } else if visited.push(id).contains(last) {
            let k = choose|k: int| 0 <= k < visited.push(id).len() && visited.push(id)[k] == last;
            assert(visited[k] == last);
        }
    }
}

/// Breadth-first walk over the parents of commits: each commit once, in the order in which the
/// walk comes to it, without the blocked ones, behind which it does not go.
pub open spec fn walk(
    commits: Seq<GraphCommit>,
    blocked: Seq<ObjectId>,
    queue: Seq<ObjectId>,
    visited: Seq<ObjectId>,
    out: Seq<ObjectId>,
) -> Result<Seq<ObjectId>, CommitFault>
    decreases unvisited(commits, visited), queue.len(),
{
    if queue.len() == 0 {
        Ok(out)
    } else {
        let id = queue[0];
        let rest = queue.drop_first();
        proof {
            lemma_unvisited_step(commits, visited, id);
        }
        if visited.contains(id) {
            walk(commits, blocked, rest, visited, out)
        } else if blocked.contains(id) {
            walk(commits, blocked, rest, visited.push(id), out)
        } else {
            match parents_of(commits, id) {
                Err(detail) => Err(CommitFault { id, detail }),
                Ok(parents) => walk(
                    commits,
                    blocked,
                    rest + parents,
                    visited.push(id),
                    out.push(id),
                ),
            }
        }
    }
}

/// The commits that the walk from `starts` comes to.
pub open spec fn walk_from(
    commits: Seq<GraphCommit>,
    starts: Seq<ObjectId>,
    blocked: Seq<ObjectId>,
) -> Result<Seq<ObjectId>, CommitFault> {
    walk(commits, blocked, starts, Seq::empty(), Seq::empty())
}

pub(crate) fn contains_id(v: &Vec<ObjectId>, id: ObjectId) -> (r: bool)
    ensures
        r == v@.contains(id),
{
    let mut i: usize = 0;
    while i < v.len()
        invariant
            i <= v@.len(),
            forall|j: int| 0 <= j < i ==> v@[j] != id,
        decreases v@.len() - i,
    {
        if v[i] == id {
            assert(v@[i as int] == id);
            return true;
        }
        i = i + 1;
    }
    false
}

pub fn copy_ids(v: &Vec<ObjectId>) -> (r: Vec<ObjectId>)
    ensures
        r@ == v@,
{
    let mut out: Vec<ObjectId> = Vec::new();
    let mut i: usize = 0;
    while i < v.len()
        invariant
            i <= v@.len(),
            out@ == v@.take(i as int),
        decreases v@.len() - i,
    {
        out.push(v[i]);
        assert(v@.take(i as int + 1) =~= v@.take(i as int).push(v@[i as int]));
        i = i + 1;
    }
    assert(v@.take(v@.len() as int) =~= v@);
    out
}

fn append_ids(out: &mut Vec<ObjectId>, more: &Vec<ObjectId>)
    ensures
        final(out)@ == old(out)@ + more@,
{
    let ghost start = out@;
    let mut i: usize = 0;
    assert(start + more@.take(0) =~= start);
    while i < more.len()
        invariant
            i <= more@.len(),
            out@ == start + more@.take(i as int),
        decreases more@.len() - i,
    {
        out.push(more[i]);
        assert((start + more@.take(i as int)).push(more@[i as int]) =~= start + more@.take(i as int + 1));
        i = i + 1;
    }
    assert(more@.take(more@.len() as int) =~= more@);
}

/// Walks over the parents of `starts`.
fn walk_commits(graph: &CommitGraph, starts: &Vec<ObjectId>, blocked: &Vec<ObjectId>) -> (r: Result<
    Vec<ObjectId>,
    String,
>)
    ensures
        match (r, walk_from(graph.commits@, starts@, blocked@)) {
            (Ok(got), Ok(want)) => got@ == want,
            (Err(e), Err(fault)) => e@ == fault_text(fault),
            _ => false,
        },
{
    let mut queue = copy_ids(starts);
    let mut visited: Vec<ObjectId> = Vec::new();
    let mut out: Vec<ObjectId> = Vec::new();
    let ghost commits = graph.commits@;
    while queue.len() > 0
        invariant
            commits == graph.commits@,
            walk(commits, blocked@, queue@, visited@, out@) == walk_from(commits, starts@, blocked@),
        decreases unvisited(commits, visited@), queue@.len(),
    {
        let ghost q0 = queue@;
        let ghost v0 = visited@;
        let id = queue.remove(0);
        proof {
            assert(queue@ =~= q0.drop_first());
            lemma_unvisited_step(commits, v0, id);
        }
        if contains_id(&visited, id) {
            continue;
        }
        visited.push(id);
        if contains_id(blocked, id) {
            continue;
        }
        match graph.load(id) {
            Ok(facts) => {
                out.push(id);
                append_ids(&mut queue, &facts.parents);
            },
            Err(detail) => {
                let name = id.to_string();
                return Err(
                    concat4("Failed to load commit ", name.as_str(), ": ", detail.as_str()),
                );
            },
        }
    }
    Ok(out)
}

/// Every commit that `commits` or their ancestors are.
pub open spec fn ancestors(
    graph: CommitGraph,
    commits: Seq<ObjectId>,
) -> Result<Seq<ObjectId>, CommitFault> {
    walk_from(graph.commits@, commits, Seq::empty())
}

/// Collect every transitive parent of the input commits, and these themselves.
pub fn get_all_ancestors(graph: &CommitGraph, commits: &Vec<ObjectId>) -> (r: Result<
    Vec<ObjectId>,
    String,
>)
    ensures
        match (r, ancestors(*graph, commits@)) {
            (Ok(got), Ok(want)) => got@ == want,
            (Err(e), Err(fault)) => e@ == fault_text(fault),
            _ => false,
        },
{
    let none: Vec<ObjectId> = Vec::new();
    walk_commits(graph, commits, &none)
}

/// The commits between `bad` and `good`, oldest first: `bad` and its ancestors, without the good
/// commits and their ancestors.
pub open spec fn between(graph: CommitGraph, bad: ObjectId, good: Seq<ObjectId>) -> Result<
    Seq<ObjectId>,
    CommitFault,
> {
    match ancestors(graph, good) {
        Err(fault) => Err(fault),
        Ok(known) => match walk_from(graph.commits@, seq![bad], known) {
            Err(fault) => Err(fault),
            Ok(found) => Ok(newest_first(graph.commits@, found).reverse()),
        },
    }
}

/// The candidates between `bad` and `good`, oldest first: all commits between them that were not
/// skipped.
pub open spec fn candidates(
    graph: CommitGraph,
    bad: ObjectId,
    good: Seq<ObjectId>,
    skipped: Seq<ObjectId>,
) -> Result<Seq<ObjectId>, CommitFault> {
    match between(graph, bad, good) {
        Err(fault) => Err(fault),
        Ok(all) => Ok(unskipped(all, skipped)),
    }
}

/// The commits between `bad` and `good`, oldest first.
fn commits_between(graph: &CommitGraph, bad: ObjectId, good: &Vec<ObjectId>) -> (r: Result<
    Vec<ObjectId>,
    String,
>)
    ensures
        match (r, between(*graph, bad, good@)) {
            (Ok(got), Ok(want)) => got@ == want,
            (Err(e), Err(fault)) => e@ == fault_text(fault),
            _ => false,
        },
{
    let known = match get_all_ancestors(graph, good) {
        Ok(known) => known,
        Err(e) => {
            return Err(e);
        },
    };
    let mut starts: Vec<ObjectId> = Vec::new();
    starts.push(bad);
    assert(starts@ =~= seq![bad]);
    let found = match walk_commits(graph, &starts, &known) {
        Ok(found) => found,
        Err(e) => {
            return Err(e);
        },
    };
    proof {
        lemma_walk_from(graph.commits@, seq![bad], known@);
    }
    let mut links: Vec<Vec<ObjectId>> = Vec::new();
    let mut i: usize = 0;
    while i < found.len()
        invariant
            i <= found@.len(),
            links@.len() == i,
            forall|id: ObjectId| #[trigger]
                found@.contains(id) ==> parents_of(graph.commits@, id) is Ok,
            forall|k: int|
                0 <= k < i ==> parents_of(graph.commits@, found@[k]) == Ok::<Seq<ObjectId>, Seq<char>>(
                    (#[trigger] links@[k])@,
                ),
        decreases found@.len() - i,
    {
        assert(found@.contains(found@[i as int]));
        match graph.load(found[i]) {
            Ok(facts) => links.push(copy_ids(&facts.parents)),
            Err(e) => {
                assert(false);
                return Err(e);
            },
        }
        i = i + 1;
    }
    let ordered = order_commits(graph, found, links);
    let mut out: Vec<ObjectId> = Vec::new();
    let mut i: usize = ordered.len();
    while i > 0
        invariant
            i <= ordered@.len(),
            out@.len() == ordered@.len() - i,
            forall|j: int|
                0 <= j < out@.len() ==> #[trigger] out@[j] == ordered@[ordered@.len() - 1 - j],
        decreases i,
    {
        i = i - 1;
        out.push(ordered[i]);
    }
    assert(out@ =~= ordered@.reverse());
    Ok(out)
}

/// Enumerate the candidate commits between `bad` and any `good`: neither `good` nor an ancestor
/// of it, nor skipped. A skipped commit does not hide its ancestors.
pub fn get_testable_commits(
    graph: &CommitGraph,
    bad: ObjectId,
    good: &Vec<ObjectId>,
    skipped: &Vec<ObjectId>,
) -> (r: Result<Vec<ObjectId>, String>)
    ensures
        match (r, candidates(*graph, bad, good@, skipped@)) {
            (Ok(got), Ok(want)) => got@ == want,
            (Err(e), Err(fault)) => e@ == fault_text(fault),
            _ => false,
        },
{
    match commits_between(graph, bad, good) {
        Ok(all) => Ok(leave_out(&all, skipped)),
        Err(e) => Err(e),
    }
}

/// Result of one bisect-search iteration.
#[derive(Debug, Clone, Copy, PartialEq, Eq, Structural)]
pub enum BisectNext {
    /// There are more commits to test - the next midpoint
    Next(ObjectId),
    /// Only one candidate remains - it's the culprit (first bad commit)
    Converged,
    /// All remaining candidates were skipped - cannot determine culprit
    AllSkipped,
}

/// Bisect state stored in the repo database.
#[derive(Debug)]
pub struct BisectState {
    /// Original HEAD commit before bisect started
    pub orig_head: ObjectId,
    /// Original branch name (if on branch), None if detached
    pub orig_head_name: Option<String>,
    /// Bad commit (the commit with the bug)
    pub bad: Option<ObjectId>,
    /// Good commits (commits known to be working)
    pub good: Vec<ObjectId>,
    /// Current test commit being checked
    pub current: Option<ObjectId>,
    /// Skipped commits
    pub skipped: Vec<ObjectId>,
    /// Estimated steps remaining
    pub steps: Option<usize>,
    /// Whether bisect has found the culprit (session ended but state preserved for reset)
    pub completed: bool,
}

pub open spec fn no_candidates_text() -> Seq<char> {
    "No commits left to test between good and bad bounds - check that good and bad commits have a valid ancestor relationship"@
}

/// The next commit to test: the middle candidate; or that the only candidate is the culprit, or
/// that all were skipped; or what is wrong with the bounds.
pub open spec fn next_point(
    graph: CommitGraph,
    bad: Option<ObjectId>,
    good: Seq<ObjectId>,
    skipped: Seq<ObjectId>,
) -> Result<BisectNext, Seq<char>> {
    match bad {
        None => Err("No bad commit set"@),
        Some(b) => if good.len() == 0 {
            Err("No good commits set"@)
        } else {
            match candidates(graph, b, good, skipped) {
                Err(fault) => Err(fault_text(fault)),
                Ok(list) => if list.len() > 1 {
                    Ok(BisectNext::Next(list[(list.len() - 1) / 2]))
                } else if list.len() == 1 {
                    Ok(BisectNext::Converged)
                } else if skipped.len() == 0 {
                    Err(no_candidates_text())
                } else {
                    match candidates(graph, b, good, Seq::empty()) {
                        Err(fault) => Err(fault_text(fault)),
                        Ok(all) => if all.len() == 0 {
                            Err(no_candidates_text())
                        } else {
                            Ok(BisectNext::AllSkipped)
                        },
                    }
                },
            }
        },
    }
}

/// Compute the next commit to check out under binary search.
pub fn find_next_bisect_point(graph: &CommitGraph, state: &BisectState) -> (r: Result<
    BisectNext,
    String,
>)
    ensures
        match (r, next_point(*graph, state.bad, state.good@, state.skipped@)) {
            (Ok(got), Ok(want)) => got == want,
            (Err(e), Err(text)) => e@ == text,
            _ => false,
        },
{
    let bad = match state.bad {
        Some(bad) => bad,
        None => {
            return Err("No bad commit set".to_owned());
        },
    };
    if state.good.is_empty() {
        return Err("No good commits set".to_owned());
    }
    let testable = match get_testable_commits(graph, bad, &state.good, &state.skipped) {
        Ok(testable) => testable,
        Err(e) => {
            return Err(e);
        },
    };
    if testable.is_empty() {
        if state.skipped.is_empty() {
            return Err(
                "No commits left to test between good and bad bounds - check that good and bad commits have a valid ancestor relationship".to_owned(),
            );
        }
        let none: Vec<ObjectId> = Vec::new();
        let all = match get_testable_commits(graph, bad, &state.good, &none) {
            Ok(all) => all,
            Err(e) => {
                return Err(e);
            },
        };
        if all.is_empty() {
            return Err(
                "No commits left to test between good and bad bounds - check that good and bad commits have a valid ancestor relationship".to_owned(),
            );
        }
        return Ok(BisectNext::AllSkipped);
    }
    if testable.len() == 1 {
        return Ok(BisectNext::Converged);
    }
    let mid: usize = (testable.len() - 1) / 2;
    Ok(BisectNext::Next(testable[mid]))
}

/// The commit that a search has converged at: the only candidate.
pub open spec fn culprit(
    graph: CommitGraph,
    bad: Option<ObjectId>,
    good: Seq<ObjectId>,
    skipped: Seq<ObjectId>,
) -> ObjectId {
    candidates(graph, bad->0, good, skipped)->Ok_0[0]
}

/// The commit that a search has converged at.
pub(crate) fn only_candidate(graph: &CommitGraph, state: &BisectState) -> (r: ObjectId)
    requires
        next_point(*graph, state.bad, state.good@, state.skipped@) == Ok::<BisectNext, Seq<char>>(
            BisectNext::Converged,
        ),
    ensures
        r == culprit(*graph, state.bad, state.good@, state.skipped@),
{
    let bad = state.bad.unwrap();
    let testable = get_testable_commits(graph, bad, &state.good, &state.skipped).unwrap();
    testable[0]
}

/// How many candidates are left, or why they cannot be counted.
pub open spec fn candidate_count(
    graph: CommitGraph,
    bad: Option<ObjectId>,
    good: Seq<ObjectId>,
    skipped: Seq<ObjectId>,
) -> Result<nat, Seq<char>> {
    match bad {
        None => Err("No bad commit set"@),
        Some(b) => if good.len() == 0 {
            Err("No good commits set"@)
        } else {
            match candidates(graph, b, good, skipped) {
                Err(fault) => Err(fault_text(fault)),
                Ok(list) => Ok(list.len()),
            }
        },
    }
}

/// Length of the candidate list.
pub fn count_commits_to_test(graph: &CommitGraph, state: &BisectState) -> (r: Result<usize, String>)
    ensures
        match (r, candidate_count(*graph, state.bad, state.good@, state.skipped@)) {
            (Ok(got), Ok(want)) => got == want,
            (Err(e), Err(text)) => e@ == text,
            _ => false,
        },
{
    let bad = match state.bad {
        Some(bad) => bad,
        None => {
            return Err("No bad commit set".to_owned());
        },
    };
    if state.good.is_empty() {
        return Err("No good commits set".to_owned());
    }
    match get_testable_commits(graph, bad, &state.good, &state.skipped) {
        Ok(testable) => Ok(testable.len()),
        Err(e) => Err(e),
    }
}

/// A chain of commits, each a parent of the one before it.
pub open spec fn is_chain(commits: Seq<GraphCommit>, chain: Seq<ObjectId>) -> bool {
    &&& chain.len() > 0
    &&& forall|i: int|
        0 <= i < chain.len() - 1 ==> parent_link(commits, #[trigger] chain[i], chain[i + 1])
}

pub open spec fn parent_link(commits: Seq<GraphCommit>, child: ObjectId, parent: ObjectId) -> bool {
    parents_of(commits, child) matches Ok(parents) && parents.contains(parent)
}

/// A chain from one of `starts` to `id` that avoids the blocked commits, save perhaps `id`.
pub open spec fn leads_to(
    commits: Seq<GraphCommit>,
    starts: Seq<ObjectId>,
    blocked: Seq<ObjectId>,
    chain: Seq<ObjectId>,
    id: ObjectId,
) -> bool {
    &&& is_chain(commits, chain)
    &&& starts.contains(chain[0])
    &&& chain.last() == id
    &&& forall|i: int| 0 <= i < chain.len() - 1 ==> !blocked.contains(#[trigger] chain[i])
}

/// The walk from `starts` can come to `id`.
pub open spec fn reachable(
    commits: Seq<GraphCommit>,
    starts: Seq<ObjectId>,
    blocked: Seq<ObjectId>,
    id: ObjectId,
) -> bool {
    exists|chain: Seq<ObjectId>| leads_to(commits, starts, blocked, chain, id)
}

/// What holds of the lists of a walk at each step.
spec fn walk_state(
    commits: Seq<GraphCommit>,
    starts: Seq<ObjectId>,
    blocked: Seq<ObjectId>,
    queue: Seq<ObjectId>,
    visited: Seq<ObjectId>,
    out: Seq<ObjectId>,
) -> bool {
    &&& out.no_duplicates()
    &&& forall|id: ObjectId| #[trigger]
        out.contains(id) <==> visited.contains(id) && !blocked.contains(id)
    &&& forall|id: ObjectId| #[trigger] out.contains(id) ==> parents_of(commits, id) is Ok
    &&& forall|id: ObjectId, parent: ObjectId|
        out.contains(id) && #[trigger] parent_link(commits, id, parent) ==> visited.contains(parent)
            || queue.contains(parent)
    &&& forall|id: ObjectId| #[trigger]
        starts.contains(id) ==> visited.contains(id) || queue.contains(id)
    &&& forall|id: ObjectId| #[trigger]
        visited.contains(id) ==> reachable(commits, starts, blocked, id)
    &&& forall|id: ObjectId| #[trigger]
        queue.contains(id) ==> reachable(commits, starts, blocked, id)
}

proof fn lemma_parents_reachable(
    commits: Seq<GraphCommit>,
    starts: Seq<ObjectId>,
    blocked: Seq<ObjectId>,
    id: ObjectId,
    parent: ObjectId,
)
    requires
        reachable(commits, starts, blocked, id),
        !blocked.contains(id),
        parent_link(commits, id, parent),
    ensures
        reachable(commits, starts, blocked, parent),
{
    let chain = choose|chain: Seq<ObjectId>| leads_to(commits, starts, blocked, chain, id);
    let longer = chain.push(parent);
    assert forall|i: int| 0 <= i < longer.len() - 1 implies parent_link(
        commits,
        #[trigger] longer[i],
        longer[i + 1],
    ) && !blocked.contains(longer[i]) by {
        if i < chain.len() - 1 {
            assert(longer[i] == chain[i] && longer[i + 1] == chain[i + 1]);
        } else {
            assert(longer[i] == id);
        }
    }
    assert(longer[0] == chain[0]);
    assert(leads_to(commits, starts, blocked, longer, parent));
}

proof fn lemma_push_contains(s: Seq<ObjectId>, id: ObjectId)
    ensures
        forall|x: ObjectId| #[trigger] s.push(id).contains(x) <==> s.contains(x) || x == id,
{
    assert forall|x: ObjectId| #[trigger] s.push(id).contains(x) <==> s.contains(x) || x == id by {
        if s.push(id).contains(x) {
            let k = choose|k: int| 0 <= k < s.push(id).len() && s.push(id)[k] == x;
            if k < s.len() {
                assert(s[k] == x);
            }
        }
        if s.contains(x) {
            let k = choose|k: int| 0 <= k < s.len() && s[k] == x;
            assert(s.push(id)[k] == x);
        }
        assert(s.push(id)[s.len() as int] == id);
    }
}

proof fn lemma_first_contains(s: Seq<ObjectId>)
    requires
        s.len() > 0,
    ensures
        forall|x: ObjectId|
            #![trigger s.contains(x)]
            #![trigger s.drop_first().contains(x)]
            s.contains(x) <==> s.drop_first().contains(x) || x == s[0],
{
    assert forall|x: ObjectId|
        #![trigger s.contains(x)]
        #![trigger s.drop_first().contains(x)]
        s.contains(x) <==> s.drop_first().contains(x) || x == s[0] by {
        if s.contains(x) {
            let k = choose|k: int| 0 <= k < s.len() && s[k] == x;
            if k > 0 {
                assert(s.drop_first()[k - 1] == x);
            }
        }
        if s.drop_first().contains(x) {
            let k = choose|k: int| 0 <= k < s.drop_first().len() && s.drop_first()[k] == x;
            assert(s[k + 1] == x);
        }
    }
}

proof fn lemma_joined_contains(a: Seq<ObjectId>, b: Seq<ObjectId>)
    ensures
        forall|x: ObjectId| #[trigger] (a + b).contains(x) <==> a.contains(x) || b.contains(x),
{
    assert forall|x: ObjectId| #[trigger] (a + b).contains(x) <==> a.contains(x) || b.contains(x) by {
        if (a + b).contains(x) {
            let k = choose|k: int| 0 <= k < (a + b).len() && (a + b)[k] == x;
            if k < a.len() {
                assert(a[k] == x);
            } else {
                assert(b[k - a.len()] == x);
            }
        }
        if a.contains(x) {
            let k = choose|k: int| 0 <= k < a.len() && a[k] == x;
            assert((a + b)[k] == x);
        }
        if b.contains(x) {
            let k = choose|k: int| 0 <= k < b.len() && b[k] == x;
            assert((a + b)[k + a.len()] == x);
        }
    }
}

proof fn lemma_chain_stays(
    commits: Seq<GraphCommit>,
    starts: Seq<ObjectId>,
    blocked: Seq<ObjectId>,
    visited: Seq<ObjectId>,
    out: Seq<ObjectId>,
    chain: Seq<ObjectId>,
    n: int,
)
    requires
        walk_state(commits, starts, blocked, Seq::empty(), visited, out),
        is_chain(commits, chain),
        starts.contains(chain[0]),
        0 <= n < chain.len(),
        forall|i: int| 0 <= i < chain.len() - 1 ==> !blocked.contains(#[trigger] chain[i]),
    ensures
        visited.contains(chain[n]),
    decreases n,
{
    if n > 0 {
        lemma_chain_stays(commits, starts, blocked, visited, out, chain, n - 1);
        assert(!blocked.contains(chain[n - 1]));
        assert(out.contains(chain[n - 1]));
        assert(parent_link(commits, chain[n - 1], chain[n - 1 + 1]));
    }
}

proof fn lemma_walk(
    commits: Seq<GraphCommit>,
    starts: Seq<ObjectId>,
    blocked: Seq<ObjectId>,
    queue: Seq<ObjectId>,
    visited: Seq<ObjectId>,
    out: Seq<ObjectId>,
)
    requires
        walk_state(commits, starts, blocked, queue, visited, out),
    ensures
        match walk(commits, blocked, queue, visited, out) {
            Ok(list) => list.no_duplicates() && (forall|id: ObjectId| #[trigger]
                list.contains(id) <==> reachable(commits, starts, blocked, id)
                    && !blocked.contains(id)) && (forall|id: ObjectId| #[trigger]
                list.contains(id) ==> parents_of(commits, id) is Ok),
            Err(fault) => reachable(commits, starts, blocked, fault.id) && !blocked.contains(fault.id)
                && parents_of(commits, fault.id) == Err::<Seq<ObjectId>, Seq<char>>(fault.detail),
        },
    decreases unvisited(commits, visited), queue.len(),
{
    if queue.len() == 0 {
        assert(queue =~= Seq::empty());
        assert forall|id: ObjectId| #[trigger] out.contains(id) <==> reachable(
            commits,
            starts,
            blocked,
            id,
        ) && !blocked.contains(id) by {
            if reachable(commits, starts, blocked, id) && !blocked.contains(id) {
                let chain = choose|chain: Seq<ObjectId>|
                    leads_to(commits, starts, blocked, chain, id);
                lemma_chain_stays(commits, starts, blocked, visited, out, chain, chain.len() - 1);
            }
        }
    } else {
        let id = queue[0];
        let rest = queue.drop_first();
        lemma_unvisited_step(commits, visited, id);
        lemma_first_contains(queue);
        lemma_push_contains(visited, id);
        lemma_push_contains(out, id);
        assert(queue.contains(id));
        if visited.contains(id) {
            lemma_walk(commits, starts, blocked, rest, visited, out);
        } else if blocked.contains(id) {
            lemma_walk(commits, starts, blocked, rest, visited.push(id), out);
        } else {
            if let Ok(parents) = parents_of(commits, id) {
                lemma_joined_contains(rest, parents);
                assert forall|x: ObjectId| #[trigger] (rest + parents).contains(x) implies reachable(
                    commits,
                    starts,
                    blocked,
                    x,
                ) by {
                    if parents.contains(x) {
                        assert(parent_link(commits, id, x));
                        lemma_parents_reachable(commits, starts, blocked, id, x);
                    } else {
                        assert(queue.contains(x));
                    }
                }
                assert(!out.contains(id));
                assert(out.push(id).no_duplicates());
                lemma_walk(commits, starts, blocked, rest + parents, visited.push(id), out.push(id));
            }
        }
    }
}

proof fn lemma_walk_from(commits: Seq<GraphCommit>, starts: Seq<ObjectId>, blocked: Seq<ObjectId>)
    ensures
        match walk_from(commits, starts, blocked) {
            Ok(list) => list.no_duplicates() && (forall|id: ObjectId| #[trigger]
                list.contains(id) <==> reachable(commits, starts, blocked, id)
                    && !blocked.contains(id)) && (forall|id: ObjectId| #[trigger]
                list.contains(id) ==> parents_of(commits, id) is Ok),
            Err(fault) => reachable(commits, starts, blocked, fault.id) && !blocked.contains(fault.id)
                && parents_of(commits, fault.id) == Err::<Seq<ObjectId>, Seq<char>>(fault.detail),
        },
{
    assert forall|id: ObjectId| #[trigger] starts.contains(id) implies reachable(
        commits,
        starts,
        blocked,
        id,
    ) by {
        assert(leads_to(commits, starts, blocked, seq![id], id));
    }
    lemma_walk(commits, starts, blocked, starts, Seq::empty(), Seq::empty());
}

/// The ancestors of some commits are these and every commit that a chain of parents leads to from
/// one of them, each once. They can be listed unless one of them cannot be read.
pub proof fn law_ancestors(graph: CommitGraph, starts: Seq<ObjectId>)
    ensures
        match ancestors(graph, starts) {
            Ok(list) => list.no_duplicates() && forall|id: ObjectId| #[trigger]
                list.contains(id) <==> reachable(graph.commits@, starts, Seq::empty(), id),
            Err(fault) => reachable(graph.commits@, starts, Seq::empty(), fault.id) && parents_of(
                graph.commits@,
                fault.id,
            ) == Err::<Seq<ObjectId>, Seq<char>>(fault.detail),
        },
{
    lemma_walk_from(graph.commits@, starts, Seq::empty());
    assert forall|id: ObjectId| !(#[trigger] Seq::<ObjectId>::empty().contains(id)) by {}
}

/// The commits between a bad and some good commits are those that a chain of parents leads to from
/// the bad one without passing a good commit or an ancestor of one; each once, and each can be
/// read.
pub proof fn lemma_between(graph: CommitGraph, bad: ObjectId, good: Seq<ObjectId>)
    ensures
        match (between(graph, bad, good), ancestors(graph, good)) {
            (Ok(list), Ok(known)) => {
                &&& list.no_duplicates()
                &&& forall|id: ObjectId| #[trigger]
                    list.contains(id) <==> reachable(graph.commits@, seq![bad], known, id)
                        && !known.contains(id)
                &&& forall|id: ObjectId| #[trigger]
                    list.contains(id) ==> parents_of(graph.commits@, id) is Ok
            },
            (Ok(_), Err(_)) => false,
            (Err(fault), Err(other)) => fault == other,
            (Err(fault), Ok(known)) => reachable(graph.commits@, seq![bad], known, fault.id)
                && !known.contains(fault.id) && parents_of(graph.commits@, fault.id) == Err::<
                Seq<ObjectId>,
                Seq<char>,
            >(fault.detail),
        },
{
    if let Ok(known) = ancestors(graph, good) {
        let commits = graph.commits@;
        lemma_walk_from(commits, seq![bad], known);
        if let Ok(found) = walk_from(commits, seq![bad], known) {
            lemma_order_members(commits, found);
            let ordered = newest_first(commits, found);
            let list = ordered.reverse();
            assert forall|id: ObjectId| #[trigger] list.contains(id) <==> found.contains(id) by {
                assert(ordered.contains(id) <==> found.contains(id));
                if ordered.contains(id) {
                    let k = choose|k: int| 0 <= k < ordered.len() && ordered[k] == id;
                    assert(list[ordered.len() - 1 - k] == id);
                }
                if list.contains(id) {
                    let k = choose|k: int| 0 <= k < list.len() && list[k] == id;
                    assert(ordered[ordered.len() - 1 - k] == id);
                }
            }
        }
    }
}

/// The candidates of a search are the commits that a chain of parents leads to from the bad commit
/// without passing a good commit or an ancestor of one; each once, and none of them skipped, good
/// or an ancestor of a good commit.
pub proof fn law_candidates(
    graph: CommitGraph,
    bad: ObjectId,
    good: Seq<ObjectId>,
    skipped: Seq<ObjectId>,
)
    ensures
        match (candidates(graph, bad, good, skipped), ancestors(graph, good)) {
            (Ok(list), Ok(known)) => {
                &&& list.no_duplicates()
                &&& forall|id: ObjectId| #[trigger]
                    list.contains(id) <==> reachable(graph.commits@, seq![bad], known, id)
                        && !known.contains(id) && !skipped.contains(id)
            },
            (Ok(_), Err(_)) => false,
            (Err(fault), Err(other)) => fault == other,
            (Err(fault), Ok(known)) => reachable(graph.commits@, seq![bad], known, fault.id)
                && !known.contains(fault.id) && parents_of(graph.commits@, fault.id) == Err::<
                Seq<ObjectId>,
                Seq<char>,
            >(fault.detail),
        },
{
    lemma_between(graph, bad, good);
    if let Ok(all) = between(graph, bad, good) {
        lemma_unskipped(all, skipped);
        assert forall|id: ObjectId| #[trigger] unskipped(all, skipped).contains(id) <==> reachable(
            graph.commits@,
            seq![bad],
            ancestors(graph, good)->Ok_0,
            id,
        ) && !ancestors(graph, good)->Ok_0.contains(id) && !skipped.contains(id) by {
            assert(all.contains(id) <==> reachable(
                graph.commits@,
                seq![bad],
                ancestors(graph, good)->Ok_0,
                id,
            ) && !ancestors(graph, good)->Ok_0.contains(id));
        }
    }
}

proof fn lemma_walk_keeps_prefix(
    commits: Seq<GraphCommit>,
    blocked: Seq<ObjectId>,
    queue: Seq<ObjectId>,
    visited: Seq<ObjectId>,
    out: Seq<ObjectId>,
)
    ensures
        walk(commits, blocked, queue, visited, out) matches Ok(list) ==> out.len() <= list.len()
            && list.take(out.len() as int) == out,
    decreases unvisited(commits, visited), queue.len(),
{
    if queue.len() == 0 {
        assert(out.take(out.len() as int) =~= out);
    } else {
        let id = queue[0];
        let rest = queue.drop_first();
        lemma_unvisited_step(commits, visited, id);
        if visited.contains(id) {
            lemma_walk_keeps_prefix(commits, blocked, rest, visited, out);
        } else if blocked.contains(id) {
            lemma_walk_keeps_prefix(commits, blocked, rest, visited.push(id), out);
        } else if let Ok(parents) = parents_of(commits, id) {
            lemma_walk_keeps_prefix(
                commits,
                blocked,
                rest + parents,
                visited.push(id),
                out.push(id),
            );
            if let Ok(list) = walk(commits, blocked, queue, visited, out) {
                assert(list.take(out.len() as int) =~= list.take(out.len() as int + 1).take(
                    out.len() as int,
                ));
                assert(out.push(id).take(out.len() as int) =~= out);
            }
        }
    }
}

/// Every commit that the walk comes to but the first has a child that it came to.
proof fn lemma_walked_has_child(
    commits: Seq<GraphCommit>,
    bad: ObjectId,
    blocked: Seq<ObjectId>,
    found: Seq<ObjectId>,
    k: int,
)
    requires
        walk_from(commits, seq![bad], blocked) == Ok::<Seq<ObjectId>, CommitFault>(found),
        0 <= k < found.len(),
        found[k] != bad,
    ensures
        !is_free(commits, found, k),
{
    lemma_walk_from(commits, seq![bad], blocked);
    let one = seq![bad];
    assert(found.contains(found[k]));
    let chain = choose|chain: Seq<ObjectId>| leads_to(commits, one, blocked, chain, found[k]);
    assert(one.contains(chain[0]));
    lemma_child_on_chain(commits, one, blocked, found, chain, chain.len() - 1, k);
}

/// Somewhere along a chain a commit that is not the one at its end is its child.
proof fn lemma_child_on_chain(
    commits: Seq<GraphCommit>,
    starts: Seq<ObjectId>,
    blocked: Seq<ObjectId>,
    found: Seq<ObjectId>,
    chain: Seq<ObjectId>,
    n: int,
    k: int,
)
    requires
        0 <= n < chain.len(),
        0 <= k < found.len(),
        is_chain(commits, chain),
        starts.contains(chain[0]),
        forall|i: int| 0 <= i < chain.len() - 1 ==> !blocked.contains(#[trigger] chain[i]),
        chain[0] != found[k],
        chain[n] == found[k],
        forall|id: ObjectId| #[trigger]
            found.contains(id) <==> reachable(commits, starts, blocked, id) && !blocked.contains(id),
    ensures
        !is_free(commits, found, k),
    decreases n,
{
    let child = chain[n - 1];
    assert(parent_link(commits, chain[n - 1], chain[n - 1 + 1]));
    if child == found[k] {
        lemma_child_on_chain(commits, starts, blocked, found, chain, n - 1, k);
    } else {
        let part = chain.take(n);
        assert forall|i: int| 0 <= i < part.len() - 1 implies parent_link(
            commits,
            #[trigger] part[i],
            part[i + 1],
        ) && !blocked.contains(part[i]) by {
            assert(part[i] == chain[i] && part[i + 1] == chain[i + 1]);
        }
        assert(part[0] == chain[0]);
        assert(leads_to(commits, starts, blocked, part, child));
        assert(!blocked.contains(chain[n - 1]));
        assert(found.contains(child));
        let j = choose|j: int| 0 <= j < found.len() && found[j] == child;
        assert(parent_link(commits, found[j], found[k]));
    }
}

/// While there is a commit between them, the bad commit is the last.
pub proof fn lemma_bad_is_last(graph: CommitGraph, bad: ObjectId, good: Seq<ObjectId>)
    ensures
        between(graph, bad, good) matches Ok(list) ==> (list.len() > 0 ==> list.last() == bad),
{
    if let Ok(list) = between(graph, bad, good) {
        let known = ancestors(graph, good)->Ok_0;
        let starts = seq![bad];
        let commits = graph.commits@;
        let rest = starts.drop_first();
        assert(rest =~= Seq::empty());
        let none = Seq::<ObjectId>::empty();
        assert(!none.contains(bad));
        lemma_unvisited_step(commits, none, bad);
        reveal_with_fuel(walk, 2);
        let found = walk_from(commits, starts, known)->Ok_0;
        if !known.contains(bad) {
            if let Ok(parents) = parents_of(commits, bad) {
                lemma_walk_keeps_prefix(
                    commits,
                    known,
                    rest + parents,
                    none.push(bad),
                    none.push(bad),
                );
                assert(found.take(1)[0] == bad);
                lemma_walk_from(commits, starts, known);
                assert forall|k: int| 0 < k < found.len() implies !(#[trigger] is_free(
                    commits,
                    found,
                    k,
                )) by {
                    assert(found[k] != found[0]);
                    lemma_walked_has_child(commits, bad, known, found, k);
                }
                lemma_first_stays(commits, found);
                lemma_order_members(commits, found);
            }
        }
    }
}

/// While there is a candidate, the bad commit is one, and the last of them, unless it was skipped.
pub proof fn law_bad_commit_is_last_candidate(
    graph: CommitGraph,
    bad: ObjectId,
    good: Seq<ObjectId>,
    skipped: Seq<ObjectId>,
)
    ensures
        candidates(graph, bad, good, skipped) matches Ok(list) ==> (list.len() > 0
            && !skipped.contains(bad) ==> list.last() == bad),
{
    lemma_bad_is_last(graph, bad, good);
    if let Ok(all) = between(graph, bad, good) {
        if all.len() == 0 {
            assert(unskipped(all, skipped).len() == 0);
        }
    }
}

/// The next commit to test is always a candidate, and not the bad commit. When the search
/// converges, there is one candidate, which is the bad commit unless that was skipped. All are
/// skipped only where every commit between the bad and the good ones was.
pub proof fn law_next_point(
    graph: CommitGraph,
    bad: ObjectId,
    good: Seq<ObjectId>,
    skipped: Seq<ObjectId>,
)
    ensures
        match next_point(graph, Some(bad), good, skipped) {
            Ok(BisectNext::Next(id)) => candidates(graph, bad, good, skipped) matches Ok(list)
                && list.contains(id) && id != bad,
            Ok(BisectNext::Converged) => candidates(graph, bad, good, skipped) matches Ok(list)
                && list.len() == 1 && (!skipped.contains(bad) ==> list == seq![bad]),
            Ok(BisectNext::AllSkipped) => between(graph, bad, good) matches Ok(all) && all.len() > 0
                && forall|id: ObjectId| #[trigger] all.contains(id) ==> skipped.contains(id),
            Err(_) => true,
        },
{
    law_candidates(graph, bad, good, skipped);
    lemma_between(graph, bad, good);
    law_bad_commit_is_last_candidate(graph, bad, good, skipped);
    if let Ok(next) = next_point(graph, Some(bad), good, skipped) {
        let all = between(graph, bad, good)->Ok_0;
        let list = candidates(graph, bad, good, skipped)->Ok_0;
        lemma_unskipped(all, skipped);
        lemma_unskipped(all, Seq::empty());
        if list.len() > 1 {
            let mid = (list.len() - 1) / 2;
            assert(0 <= mid < list.len() - 1);
            assert(list.contains(list[mid]));
            assert(list[mid] != list[list.len() - 1]);
        } else if list.len() == 1 {
            if !skipped.contains(bad) {
                assert(list =~= seq![bad]);
            }
        } else {
            assert forall|id: ObjectId| #[trigger] all.contains(id) implies skipped.contains(id) by {
                if !skipped.contains(id) {
                    assert(list.contains(id));
                }
            }
        }
    }
}

/// No commit has more than one parent.
pub open spec fn is_linear(commits: Seq<GraphCommit>) -> bool {
    forall|id: ObjectId|
        (#[trigger] parents_of(commits, id)) matches Ok(parents) ==> parents.len() <= 1
}

proof fn lemma_linear_walk(
    commits: Seq<GraphCommit>,
    blocked: Seq<ObjectId>,
    queue: Seq<ObjectId>,
    visited: Seq<ObjectId>,
    out: Seq<ObjectId>,
)
    requires
        is_linear(commits),
        queue.len() <= 1,
        out.len() > 0 ==> is_chain(commits, out),
        out.len() > 0 && queue.len() == 1 ==> parent_link(commits, out.last(), queue[0]),
    ensures
        walk(commits, blocked, queue, visited, out) matches Ok(list) ==> (list.len() > 0 ==> is_chain(
            commits,
            list,
        )),
    decreases unvisited(commits, visited), queue.len(),
{
    if queue.len() > 0 {
        let id = queue[0];
        let rest = queue.drop_first();
        lemma_unvisited_step(commits, visited, id);
        if visited.contains(id) {
            lemma_linear_walk(commits, blocked, rest, visited, out);
        } else if blocked.contains(id) {
            lemma_linear_walk(commits, blocked, rest, visited.push(id), out);
        } else if let Ok(parents) = parents_of(commits, id) {
            assert(rest + parents =~= parents);
            let longer = out.push(id);
            assert forall|i: int| 0 <= i < longer.len() - 1 implies parent_link(
                commits,
                #[trigger] longer[i],
                longer[i + 1],
            ) by {
                if i < out.len() - 1 {
                    assert(longer[i] == out[i] && longer[i + 1] == out[i + 1]);
                } else {
                    assert(longer[i] == out.last());
                }
            }
            if parents.len() == 1 {
                assert(parents.contains(parents[0]));
            }
            lemma_linear_walk(commits, blocked, rest + parents, visited.push(id), longer);
        }
    }
}

/// A chain of commits of which each has one parent at most is in order.
proof fn lemma_chain_stays_in_order(commits: Seq<GraphCommit>, chain: Seq<ObjectId>)
    requires
        is_linear(commits),
        chain.no_duplicates(),
        chain.len() > 0 ==> is_chain(commits, chain),
    ensures
        newest_first(commits, chain) == chain,
    decreases chain.len(),
{
    if chain.len() > 0 {
        let rest = chain.remove(0);
        assert(rest =~= chain.drop_first());
        assert forall|k: int| 0 < k < chain.len() implies !(#[trigger] is_free(commits, chain, k)) by {
            assert(parent_link(commits, chain[k - 1], chain[k - 1 + 1]));
        }
        lemma_first_stays(commits, chain);
        lemma_first_free(commits, chain, 0);
        assert(first_free(commits, chain, 0) == 0) by {
            lemma_order_members(commits, chain);
            let k = first_free(commits, chain, 0);
            assert(newest_first(commits, chain)[0] == chain[k]);
        }
        assert forall|i: int| 0 <= i < rest.len() - 1 implies parent_link(
            commits,
            #[trigger] rest[i],
            rest[i + 1],
        ) by {
            assert(parent_link(commits, chain[i + 1], chain[i + 1 + 1]));
        }
        lemma_chain_stays_in_order(commits, rest);
        assert(newest_first(commits, chain) =~= chain);
    }
}

/// In a history without merges, each of the commits between a bad and some good ones is the parent
/// of the next.
pub proof fn lemma_linear_between(graph: CommitGraph, bad: ObjectId, good: Seq<ObjectId>)
    requires
        is_linear(graph.commits@),
    ensures
        between(graph, bad, good) matches Ok(list) ==> forall|i: int|
            0 <= i < list.len() - 1 ==> parent_link(graph.commits@, list[i + 1], #[trigger] list[i]),
{
    if let Ok(list) = between(graph, bad, good) {
        let known = ancestors(graph, good)->Ok_0;
        let found = walk_from(graph.commits@, seq![bad], known)->Ok_0;
        lemma_linear_walk(graph.commits@, known, seq![bad], Seq::empty(), Seq::empty());
        lemma_walk_from(graph.commits@, seq![bad], known);
        lemma_chain_stays_in_order(graph.commits@, found);
        assert forall|i: int| 0 <= i < list.len() - 1 implies parent_link(
            graph.commits@,
            list[i + 1],
            #[trigger] list[i],
        ) by {
            let k = found.len() - 2 - i;
            assert(parent_link(graph.commits@, found[k], found[k + 1]));
        }
    }
}

/// The next commit to test is in the middle of the candidates: as many are older as are newer, or one
/// fewer.
pub proof fn law_next_point_is_the_middle(
    graph: CommitGraph,
    bad: ObjectId,
    good: Seq<ObjectId>,
    skipped: Seq<ObjectId>,
)
    ensures
        next_point(graph, Some(bad), good, skipped) matches Ok(BisectNext::Next(id)) ==> (candidates(
            graph,
            bad,
            good,
            skipped,
        ) matches Ok(list) && exists|k: int|
            0 <= k < list.len() && #[trigger] list[k] == id && (list.len() - 1 - k == k || list.len() - 1
                - k == k + 1)),
{
    if let Ok(BisectNext::Next(id)) = next_point(graph, Some(bad), good, skipped) {
        let list = candidates(graph, bad, good, skipped)->Ok_0;
        let k = (list.len() - 1) / 2;
        assert(list[k] == id);
    }
}

/// A search without a bad or without a good commit, or with none between them, has no next point.
pub proof fn law_search_needs_bounds(
    graph: CommitGraph,
    bad: Option<ObjectId>,
    good: Seq<ObjectId>,
    skipped: Seq<ObjectId>,
)
    ensures
        bad is None || good.len() == 0 ==> next_point(graph, bad, good, skipped) is Err,
        bad matches Some(b) ==> (good.len() > 0 ==> (between(graph, b, good) matches Ok(all) ==> (
        next_point(graph, bad, good, skipped) is Err <==> all.len() == 0))),
        bad matches Some(b) ==> (between(graph, b, good) is Err ==> next_point(graph, bad, good, skipped)
            is Err),
{
    if let Some(b) = bad {
        lemma_between(graph, b, good);
        if let Ok(all) = between(graph, b, good) {
            lemma_unskipped(all, skipped);
            lemma_unskipped(all, Seq::empty());
            if all.len() > 0 {
                assert(all.contains(all[0]));
                assert(unskipped(all, Seq::empty()).contains(all[0]));
                if skipped.len() == 0 {
                    assert(unskipped(all, skipped).contains(all[0]));
                }
            }
        }
    }
}

/// A commit is read as it was listed, and its parents with it.
pub proof fn law_commits_are_found(commits: Seq<GraphCommit>, k: int)
    requires
        0 <= k < commits.len(),
        forall|j: int| k < j < commits.len() ==> (#[trigger] commits[j]).id != commits[k].id,
    ensures
        find_commit(commits, commits[k].id) == Some(commits[k]),
        commits[k].facts matches Ok(f) ==> parents_of(commits, commits[k].id) == Ok::<
            Seq<ObjectId>,
            Seq<char>,
        >(f.parents@),
    decreases commits.len(),
{
    if k < commits.len() - 1 {
        assert(commits[commits.len() - 1].id != commits[k].id);
        assert forall|j: int| k < j < commits.drop_last().len() implies (#[trigger] commits.drop_last()[j]).id
            != commits.drop_last()[k].id by {
            assert(commits[j].id != commits[k].id);
        }
        law_commits_are_found(commits.drop_last(), k);
    }
}

} // verus!
