//! The depth-first search for agendas: the tree that it builds and the
//! walker that hands out the tree's leaves one at a time.

use crate::catalogue::HandicraftPricingInfo;
use crate::graph::HandicraftGraph;
use crate::index::HandicraftMap;
use crate::names::HandicraftName;
use crate::search::{successors, RepetitionPolicy, SearchSpace, MIN_PRODUCT_TIME, TIME_IN_CYCLE};
use vstd::prelude::*;

verus! {

/// What the search found below one sequence of crafts.
#[derive(Debug)]
pub enum AgendaGeneratorResult {
    /// The sequence is complete: nothing can be appended to it.
    Tail(Vec<HandicraftName>),
    /// The sequence can go on: one result for each craft that can follow.
    Intermediate(Vec<AgendaGeneratorResult>),
}

impl AgendaGeneratorResult {
    /// The complete sequences below this result, in the order in which they
    /// are handed out: the last branch first.
    pub open spec fn leaves(self) -> Seq<Seq<HandicraftName>>
        decreases self, 1int,
    {
        match self {
            AgendaGeneratorResult::Tail(agenda) => seq![agenda@],
            AgendaGeneratorResult::Intermediate(children) => AgendaGeneratorResult::leaves_of(children@),
        }
    }

    /// The complete sequences below a row of results: those of the last
    /// result first.
    pub open spec fn leaves_of(results: Seq<AgendaGeneratorResult>) -> Seq<Seq<HandicraftName>>
        decreases results, 0int,
    {
        if results.len() == 0 {
            Seq::empty()
        } else {
            results.last().leaves() + AgendaGeneratorResult::leaves_of(results.drop_last())
        }
    }

    /// How many results stand in this one, itself included.
    pub open spec fn size(self) -> nat
        decreases self, 1int,
    {
        match self {
            AgendaGeneratorResult::Tail(_) => 1,
            AgendaGeneratorResult::Intermediate(children) => 1 + AgendaGeneratorResult::size_of(children@),
        }
    }

    /// How many results stand in a row of results.
    pub open spec fn size_of(results: Seq<AgendaGeneratorResult>) -> nat
        decreases results, 0int,
    {
        if results.len() == 0 {
            0
        } else {
            results.last().size() + AgendaGeneratorResult::size_of(results.drop_last())
        }
    }

    /// Appending a result to a row puts its leaves in front.
    pub proof fn lemma_leaves_of_push(results: Seq<AgendaGeneratorResult>, result: AgendaGeneratorResult)
        ensures
            AgendaGeneratorResult::leaves_of(results.push(result)) == result.leaves()
                + AgendaGeneratorResult::leaves_of(results),
            AgendaGeneratorResult::size_of(results.push(result)) == result.size() + AgendaGeneratorResult::size_of(
                results,
            ),
    {
        assert(results.push(result).drop_last() =~= results);
    }

    /// A walker that hands out the leaves of this result.
    pub fn into_iter(self) -> (walker: AgendaGeneratorResultIterator)
        ensures
            walker.remaining() == self.leaves(),
    {
        let mut children: Vec<AgendaGeneratorResult> = Vec::new();
        children.push(self);
        let walker = AgendaGeneratorResultIterator { children, parents: Vec::new() };
        proof {
            AgendaGeneratorResult::lemma_leaves_of_push(Seq::empty(), self);
            assert(walker.children@ =~= Seq::<AgendaGeneratorResult>::empty().push(self));
            assert(walker.remaining() =~= self.leaves());
        }
        walker
    }
}

/// A walker over the leaves of a search result.
///
/// It holds the results that are still to be opened at the level where it
/// stands, and the rows that it left behind on the levels above.
#[derive(Debug)]
pub struct AgendaGeneratorResultIterator {
    children: Vec<AgendaGeneratorResult>,
    parents: Vec<Vec<AgendaGeneratorResult>>,
}

impl AgendaGeneratorResultIterator {
    /// The leaves of the rows that wait on the levels above, the innermost
    /// row first.
    pub open spec fn leaves_above(rows: Seq<Vec<AgendaGeneratorResult>>) -> Seq<Seq<HandicraftName>>
        decreases rows.len(),
    {
        if rows.len() == 0 {
            Seq::empty()
        } else {
            AgendaGeneratorResult::leaves_of(rows.last()@) + AgendaGeneratorResultIterator::leaves_above(
                rows.drop_last(),
            )
        }
    }

    /// How many results wait on the levels above.
    pub open spec fn size_above(rows: Seq<Vec<AgendaGeneratorResult>>) -> nat
        decreases rows.len(),
    {
        if rows.len() == 0 {
            0
        } else {
            AgendaGeneratorResult::size_of(rows.last()@) + AgendaGeneratorResultIterator::size_above(
                rows.drop_last(),
            )
        }
    }

    /// The leaves that the walker has yet to hand out, in their order.
    pub closed spec fn remaining(self) -> Seq<Seq<HandicraftName>> {
        AgendaGeneratorResult::leaves_of(self.children@) + AgendaGeneratorResultIterator::leaves_above(
            self.parents@,
        )
    }

    /// A bound on the steps that the walker has yet to take.
    closed spec fn work(self) -> nat {
        2 * (AgendaGeneratorResult::size_of(self.children@) + AgendaGeneratorResultIterator::size_above(
            self.parents@,
        )) + self.parents@.len()
    }

    /// Hands out the next leaf, or `None` when all have been handed out.
    pub fn next(&mut self) -> (leaf: Option<Vec<HandicraftName>>)
        ensures
            match leaf {
                Some(agenda) => {
                    &&& old(self).remaining().len() > 0
                    &&& agenda@ == old(self).remaining()[0]
                    &&& final(self).remaining() == old(self).remaining().skip(1)
                },
                None => old(self).remaining().len() == 0 && final(self).remaining().len() == 0,
            },
    {
        loop
            invariant
                self.remaining() == old(self).remaining(),
            decreases self.work(),
        {
            let ghost before = *self;
            match self.children.pop() {
                Some(AgendaGeneratorResult::Tail(agenda)) => {
                    proof {
                        let result = AgendaGeneratorResult::Tail(agenda);
                        assert(before.children@ =~= self.children@.push(result));
                        AgendaGeneratorResult::lemma_leaves_of_push(self.children@, result);
                        assert(before.remaining() =~= seq![agenda@] + self.remaining());
                        assert(self.remaining() =~= before.remaining().skip(1));
                    }
                    return Some(agenda);
                },
                Some(AgendaGeneratorResult::Intermediate(below)) => {
                    let mut row = below;
                    std::mem::swap(&mut self.children, &mut row);
                    self.parents.push(row);
                    proof {
                        let result = AgendaGeneratorResult::Intermediate(below);
                        assert(before.children@ =~= row@.push(result));
                        AgendaGeneratorResult::lemma_leaves_of_push(row@, result);
                        assert(self.parents@.drop_last() =~= before.parents@);
                        assert(self.remaining() =~= before.remaining());
                    }
                },
                None => {
                    match self.parents.pop() {
                        Some(row) => {
                            proof {
                                assert(before.parents@.drop_last() =~= self.parents@);
                                assert(before.parents@.last() == row);
                                assert(before.children@ =~= Seq::<AgendaGeneratorResult>::empty());
                            }
                            self.children = row;
                            proof {
                                assert(self.remaining() =~= before.remaining());
                            }
                        },
                        None => {
                            proof {
                                assert(self.children@ =~= Seq::<AgendaGeneratorResult>::empty());
                                assert(self.parents@ =~= Seq::<Vec<AgendaGeneratorResult>>::empty());
                            }
                            return None;
                        },
                    }
                },
            }
        }
    }
}

/// Whether two sequences begin with the same `length` steps.
pub open spec fn begin_alike(one: Seq<HandicraftName>, other: Seq<HandicraftName>, length: int) -> bool {
    0 <= length <= one.len() && length <= other.len() && one.take(length) == other.take(length)
}

/// A row of sequences is in depth-first order when the sequences that begin
/// alike stand together: between two that begin with the same steps stands
/// none that begins otherwise.
pub open spec fn is_depth_first(leaves: Seq<Seq<HandicraftName>>) -> bool {
    forall|first: int, between: int, last: int, length: int|
        #![trigger begin_alike(leaves[first], leaves[last], length), leaves[between]]
        0 <= first < between < last < leaves.len() && begin_alike(leaves[first], leaves[last], length)
            ==> begin_alike(leaves[first], leaves[between], length)
}

/// Two rows in depth-first order, whose sequences all begin with `stem` and
/// go on with a step that tells the rows apart, make one row in depth-first
/// order.
proof fn lemma_depth_first_concat(
    front: Seq<Seq<HandicraftName>>,
    back: Seq<Seq<HandicraftName>>,
    stem: Seq<HandicraftName>,
)
    requires
        is_depth_first(front),
        is_depth_first(back),
        forall|i: int| 0 <= i < front.len() ==> stem.len() < (#[trigger] front[i]).len() && stem.is_prefix_of(front[i]),
        forall|i: int| 0 <= i < back.len() ==> stem.len() < (#[trigger] back[i]).len() && stem.is_prefix_of(back[i]),
        forall|i: int, j: int|
            0 <= i < front.len() && 0 <= j < back.len() ==> (#[trigger] front[i])[stem.len() as int] != (
            #[trigger] back[j])[stem.len() as int],
    ensures
        is_depth_first(front + back),
{
    let row = front + back;
    let split = stem.len() as int;
    assert forall|first: int, between: int, last: int, length: int|
        #![trigger begin_alike(row[first], row[last], length), row[between]]
        0 <= first < between < last < row.len() && begin_alike(row[first], row[last], length) implies begin_alike(
        row[first],
        row[between],
        length,
    ) by {
        let one = row[first];
        let mid = row[between];
        let other = row[last];
        assert(stem.is_prefix_of(one) && stem.len() < one.len()) by {
            if first < front.len() {
                assert(one == front[first]);
            } else {
                assert(one == back[first - front.len()]);
            }
        }
        assert(stem.is_prefix_of(mid) && stem.len() < mid.len()) by {
            if between < front.len() {
                assert(mid == front[between]);
            } else {
                assert(mid == back[between - front.len()]);
            }
        }
        if length <= split {
            assert(one.take(length) =~= stem.take(length));
            assert(mid.take(length) =~= stem.take(length));
        } else {
            assert(one.take(length)[split] == other.take(length)[split]);
            assert(one[split] == other[split]);
            if last < front.len() {
                assert(begin_alike(front[first], front[last], length));
                assert(mid == front[between]);
            } else if first >= front.len() {
                assert(begin_alike(back[first - front.len()], back[last - front.len()], length));
                assert(mid == back[between - front.len()]);
            } else {
                assert(one == front[first]);
                assert(other == back[last - front.len()]);
            }
        }
    }
}

/// A copy of a sequence of crafts.
pub fn copy_names(names: &Vec<HandicraftName>) -> (copy: Vec<HandicraftName>)
    ensures
        copy@ == names@,
{
    let mut copy: Vec<HandicraftName> = Vec::with_capacity(names.len());
    let mut i: usize = 0;
    while i < names.len()
        invariant
            i <= names.len(),
            copy@ == names@.take(i as int),
        decreases names.len() - i,
    {
        copy.push(names[i]);
        proof {
            assert(names@.take(i as int + 1) =~= names@.take(i as int).push(names[i as int]));
        }
        i += 1;
    }
    proof {
        assert(names@.take(i as int) =~= names@);
    }
    copy
}

/// Searches below `agenda`, which took `elapsed` hours so far: the leaves
/// of the result are the agendas that begin with `agenda`, each once.
pub fn generate_agendas(
    handicraft_graph: &HandicraftGraph,
    handicraft_pricing_info: &HandicraftMap<HandicraftPricingInfo>,
    policy: RepetitionPolicy,
    agenda: Vec<HandicraftName>,
    elapsed: usize,
) -> (found: AgendaGeneratorResult)
    requires
        handicraft_graph.wf(),
        SearchSpace::of(*handicraft_graph, *handicraft_pricing_info, policy).wf(),
        SearchSpace::of(*handicraft_graph, *handicraft_pricing_info, policy).is_walk(agenda@),
        elapsed == SearchSpace::of(*handicraft_graph, *handicraft_pricing_info, policy).elapsed(agenda@),
    ensures
        found.leaves().no_duplicates(),
        is_depth_first(found.leaves()),
        forall|path: Seq<HandicraftName>| #[trigger]
            found.leaves().contains(path) <==> (SearchSpace::of(
                *handicraft_graph,
                *handicraft_pricing_info,
                policy,
            ).is_agenda(path) && agenda@.is_prefix_of(path)),
    decreases TIME_IN_CYCLE - elapsed,
{
    let ghost space = SearchSpace::of(*handicraft_graph, *handicraft_pricing_info, policy);
    proof {
        space.lemma_walk_is_feasible(agenda@, agenda@.len() as int);
        assert(agenda@.take(agenda@.len() as int) =~= agenda@);
    }
    if elapsed > TIME_IN_CYCLE - MIN_PRODUCT_TIME {
        proof {
            lemma_only_leaf(space, agenda@);
        }
        return AgendaGeneratorResult::Tail(agenda);
    }
    let candidates = successors(handicraft_graph, handicraft_pricing_info, policy, &agenda, elapsed);
    if candidates.len() == 0 {
        proof {
            assert forall|next: HandicraftName| !space.can_follow(agenda@, next) by {
                assert(!candidates@.contains(next));
            }
            lemma_only_leaf(space, agenda@);
        }
        return AgendaGeneratorResult::Tail(agenda);
    }
    let mut children: Vec<AgendaGeneratorResult> = Vec::new();
    let mut i: usize = 0;
    while i < candidates.len()
        invariant
            handicraft_graph.wf(),
            space == SearchSpace::of(*handicraft_graph, *handicraft_pricing_info, policy),
            space.wf(),
            space.is_walk(agenda@),
            elapsed == space.elapsed(agenda@),
            elapsed <= TIME_IN_CYCLE - MIN_PRODUCT_TIME,
            i <= candidates.len(),
            candidates@.no_duplicates(),
            forall|next: HandicraftName| candidates@.contains(next) <==> space.can_follow(agenda@, next),
            AgendaGeneratorResult::leaves_of(children@).no_duplicates(),
            is_depth_first(AgendaGeneratorResult::leaves_of(children@)),
            forall|path: Seq<HandicraftName>| #[trigger]
                AgendaGeneratorResult::leaves_of(children@).contains(path) <==> {
                    &&& space.is_agenda(path)
                    &&& agenda@.is_prefix_of(path)
                    &&& path.len() > agenda@.len()
                    &&& candidates@.take(i as int).contains(path[agenda@.len() as int])
                },
        decreases candidates.len() - i,
    {
        let recipe = candidates[i];
        proof {
            assert(candidates@.contains(recipe));
            assert(space.can_follow(agenda@, recipe));
            assert(space.related(agenda@.last(), recipe));
            space.lemma_walk_push(agenda@, recipe);
            space.lemma_elapsed_push(agenda@, recipe);
        }
        let info = *handicraft_pricing_info.get(recipe).unwrap();
        let mut new_agenda = copy_names(&agenda);
        new_agenda.push(recipe);
        let below = generate_agendas(
            handicraft_graph,
            handicraft_pricing_info,
            policy,
            new_agenda,
            elapsed + info.time,
        );
        let ghost rows_before = children@;
        children.push(below);
        proof {
            let longer = agenda@.push(recipe);
            let old_leaves = AgendaGeneratorResult::leaves_of(rows_before);
            let new_leaves = AgendaGeneratorResult::leaves_of(children@);
            AgendaGeneratorResult::lemma_leaves_of_push(rows_before, below);
            assert(new_leaves == below.leaves() + old_leaves);
            let tried = candidates@.take(i as int);
            let tried_after = candidates@.take(i as int + 1);
            assert(tried_after =~= tried.push(recipe));
            assert(!tried.contains(recipe));
            assert forall|a: int, b: int| 0 <= a < below.leaves().len() && 0 <= b < old_leaves.len() implies below.leaves()[a]
                != old_leaves[b] by {
                let one = below.leaves()[a];
                let other = old_leaves[b];
                assert(below.leaves().contains(one));
                assert(old_leaves.contains(other));
                assert(longer.is_prefix_of(one));
                assert(one[agenda@.len() as int] == longer[agenda@.len() as int]);
            }
            vstd::seq_lib::lemma_no_dup_in_concat(below.leaves(), old_leaves);
            assert forall|a: int| 0 <= a < below.leaves().len() implies agenda@.len() < (
            #[trigger] below.leaves()[a]).len() && agenda@.is_prefix_of(below.leaves()[a]) by {
                let one = below.leaves()[a];
                assert(below.leaves().contains(one));
                assert(longer.is_prefix_of(one));
                assert(agenda@ =~= one.subrange(0, agenda@.len() as int));
            }
            assert forall|b: int| 0 <= b < old_leaves.len() implies agenda@.len() < (#[trigger] old_leaves[b]).len()
                && agenda@.is_prefix_of(old_leaves[b]) by {
                assert(old_leaves.contains(old_leaves[b]));
            }
            assert forall|a: int, b: int| 0 <= a < below.leaves().len() && 0 <= b < old_leaves.len() implies (
            #[trigger] below.leaves()[a])[agenda@.len() as int] != (#[trigger] old_leaves[b])[agenda@.len() as int] by {
                let one = below.leaves()[a];
                let other = old_leaves[b];
                assert(below.leaves().contains(one));
                assert(old_leaves.contains(other));
                assert(longer.is_prefix_of(one));
                assert(one[agenda@.len() as int] == longer[agenda@.len() as int]);
                assert(tried.contains(other[agenda@.len() as int]));
            }
            lemma_depth_first_concat(below.leaves(), old_leaves, agenda@);
            assert forall|path: Seq<HandicraftName>| #[trigger]
                new_leaves.contains(path) <==> {
                    &&& space.is_agenda(path)
                    &&& agenda@.is_prefix_of(path)
                    &&& path.len() > agenda@.len()
                    &&& tried_after.contains(path[agenda@.len() as int])
                } by {
                lemma_contains_in_concat(below.leaves(), old_leaves, path);
                let here = agenda@.len() as int;
                if below.leaves().contains(path) {
                    assert(longer.is_prefix_of(path));
                    assert(path[here] == longer[here]);
                    assert(tried_after[i as int] == recipe);
                    assert(agenda@ =~= path.subrange(0, here));
                }
                if old_leaves.contains(path) {
                    let k = choose|k: int| 0 <= k < tried.len() && tried[k] == path[here];
                    assert(tried_after[k] == path[here]);
                }
                if space.is_agenda(path) && agenda@.is_prefix_of(path) && path.len() > agenda@.len()
                    && tried_after.contains(path[here]) {
                    let k = choose|k: int| 0 <= k < tried_after.len() && tried_after[k] == path[here];
                    if k < i {
                        assert(tried[k] == path[here]);
                        assert(tried.contains(path[here]));
                    } else {
                        assert(path[here] == recipe);
                        assert(longer =~= path.subrange(0, here + 1));
                        assert(longer.is_prefix_of(path));
                    }
                }
            }
        }
        i += 1;
    }
    let found = AgendaGeneratorResult::Intermediate(children);
    proof {
        assert(candidates@.take(i as int) =~= candidates@);
        assert(candidates@.contains(candidates@[0]));
        assert(space.can_follow(agenda@, candidates@[0]));
        assert(found.leaves() == AgendaGeneratorResult::leaves_of(children@));
        assert forall|path: Seq<HandicraftName>| #[trigger]
            found.leaves().contains(path) <==> (space.is_agenda(path) && agenda@.is_prefix_of(path)) by {
            let here = agenda@.len() as int;
            if space.is_agenda(path) && agenda@.is_prefix_of(path) {
                if path.len() == agenda@.len() {
                    assert(path =~= agenda@);
                } else {
                    assert(path.take(here) =~= agenda@);
                    space.lemma_walk_prefix(path, here);
                }
            }
        }
    }
    found
}

/// A sequence occurs in two rows put together exactly when it occurs in one
/// of them.
proof fn lemma_contains_in_concat(
    front: Seq<Seq<HandicraftName>>,
    back: Seq<Seq<HandicraftName>>,
    path: Seq<HandicraftName>,
)
    ensures
        (front + back).contains(path) <==> front.contains(path) || back.contains(path),
{
    let both = front + back;
    if both.contains(path) {
        let k = choose|k: int| 0 <= k < both.len() && both[k] == path;
        if k < front.len() {
            assert(front[k] == path);
        } else {
            assert(back[k - front.len()] == path);
        }
    }
    if front.contains(path) {
        let k = choose|k: int| 0 <= k < front.len() && front[k] == path;
        assert(both[k] == path);
    }
    if back.contains(path) {
        let k = choose|k: int| 0 <= k < back.len() && back[k] == path;
        assert(both[k + front.len()] == path);
    }
}

/// Below a walk that nothing can follow stands that walk and no other
/// agenda.
proof fn lemma_only_leaf(space: SearchSpace, agenda: Seq<HandicraftName>)
    requires
        space.is_walk(agenda),
        !space.can_extend(agenda),
    ensures
        seq![agenda].no_duplicates(),
        forall|path: Seq<HandicraftName>| #[trigger]
            seq![agenda].contains(path) <==> (space.is_agenda(path) && agenda.is_prefix_of(path)),
{
    assert forall|path: Seq<HandicraftName>| #[trigger]
        seq![agenda].contains(path) <==> (space.is_agenda(path) && agenda.is_prefix_of(path)) by {
        if seq![agenda].contains(path) {
            assert(path == agenda);
            assert(agenda =~= agenda.subrange(0, agenda.len() as int));
        }
        if space.is_agenda(path) && agenda.is_prefix_of(path) {
            if path.len() > agenda.len() {
                assert(path.take(agenda.len() as int) =~= agenda);
                space.lemma_walk_prefix(path, agenda.len() as int);
                assert(space.can_follow(agenda, path[agenda.len() as int]));
            } else {
                assert(path =~= agenda);
            }
            assert(seq![agenda][0] == path);
        }
    }
}

} // verus!
