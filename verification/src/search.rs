//! Which sequences of crafts are agendas, said once as a specification, and
//! the search that enumerates them.

use crate::catalogue::HandicraftPricingInfo;
use crate::graph::{Direction, HandicraftGraph, HandicraftGraphNode};
use crate::index::HandicraftMap;
use crate::names::{CategoryName, HandicraftName};
use vstd::prelude::*;

verus! {

/// Hours in one cycle: no agenda takes longer.
pub const TIME_IN_CYCLE: usize = 24;

/// Hours that the quickest craft is taken to need: once less than this is
/// left of the cycle, the agenda is complete.
pub const MIN_PRODUCT_TIME: usize = 4;

/// Which crafts may come back within one agenda.
#[derive(Debug, Clone, Copy, PartialEq, Eq, Structural)]
pub enum RepetitionPolicy {
    /// A craft never follows itself, but may return after another one.
    ForbidPrevious,
    /// A craft occurs at most once in an agenda.
    ForbidUsed,
}

/// What the search walks through: the recipe graph, the time that each
/// craft takes, and the repetition policy.
pub struct SearchSpace {
    pub edges: Set<(HandicraftGraphNode, HandicraftGraphNode)>,
    pub pricing: Map<HandicraftName, HandicraftPricingInfo>,
    pub policy: RepetitionPolicy,
}

impl SearchSpace {
    /// The space that a graph, a pricing table and a policy span.
    pub open spec fn of(
        graph: HandicraftGraph,
        pricing: HandicraftMap<HandicraftPricingInfo>,
        policy: RepetitionPolicy,
    ) -> SearchSpace {
        SearchSpace { edges: graph.edges(), pricing: pricing@, policy }
    }

    /// The graph only links crafts to categories, every craft in it is
    /// priced, and every priced craft takes time.
    pub open spec fn wf(self) -> bool {
        &&& forall|edge: (HandicraftGraphNode, HandicraftGraphNode)| #[trigger]
            self.edges.contains(edge) ==> {
                &&& edge.0 is Handicraft
                &&& edge.1 is Category
                &&& self.pricing.contains_key(edge.0->Handicraft_0)
            }
        &&& forall|name: HandicraftName| #[trigger]
            self.pricing.contains_key(name) ==> self.pricing[name].time >= 1
    }

    /// Hours that one run of a craft takes.
    pub open spec fn time(self, name: HandicraftName) -> int {
        self.pricing[name].time as int
    }

    /// Hours that a sequence of crafts takes.
    pub open spec fn elapsed(self, path: Seq<HandicraftName>) -> int
        decreases path.len(),
    {
        if path.len() == 0 {
            0
        } else {
            self.elapsed(path.drop_last()) + self.time(path.last())
        }
    }

    /// Two crafts are related when they share a category.
    pub open spec fn related(self, one: HandicraftName, other: HandicraftName) -> bool {
        exists|category: CategoryName|
            {
                &&& #[trigger] self.edges.contains(
                    (HandicraftGraphNode::Handicraft(one), HandicraftGraphNode::Category(category)),
                )
                &&& self.edges.contains(
                    (HandicraftGraphNode::Handicraft(other), HandicraftGraphNode::Category(category)),
                )
            }
    }

    /// What the repetition policy lets follow a sequence.
    pub open spec fn permits(self, path: Seq<HandicraftName>, next: HandicraftName) -> bool {
        match self.policy {
            RepetitionPolicy::ForbidPrevious => path.len() > 0 ==> path.last() != next,
            RepetitionPolicy::ForbidUsed => !path.contains(next),
        }
    }

    /// Whether `next` can be appended to `path`: the cycle still has room
    /// for a craft, `next` is another craft than the last one and related to
    /// it, the policy permits it, and it fits into what is left of the cycle.
    pub open spec fn can_follow(self, path: Seq<HandicraftName>, next: HandicraftName) -> bool {
        &&& path.len() > 0
        &&& self.elapsed(path) <= TIME_IN_CYCLE - MIN_PRODUCT_TIME
        &&& next != path.last()
        &&& self.related(path.last(), next)
        &&& self.permits(path, next)
        &&& self.elapsed(path) + self.time(next) <= TIME_IN_CYCLE
    }

    /// Whether the step at `position` of `path` can follow what stands
    /// before it.
    pub open spec fn step_fits(self, path: Seq<HandicraftName>, position: int) -> bool {
        self.can_follow(path.take(position), path[position])
    }

    /// A walk starts with a craft that fits into the cycle, and each
    /// further step can follow the steps before it.
    pub open spec fn is_walk(self, path: Seq<HandicraftName>) -> bool {
        &&& path.len() > 0
        &&& self.time(path[0]) <= TIME_IN_CYCLE
        &&& forall|position: int| 1 <= position < path.len() ==> #[trigger] self.step_fits(path, position)
    }

    /// Whether any craft can be appended to `path`.
    pub open spec fn can_extend(self, path: Seq<HandicraftName>) -> bool {
        exists|next: HandicraftName| #[trigger] self.can_follow(path, next)
    }

    /// An agenda is a walk that nothing can be appended to.
    pub open spec fn is_agenda(self, path: Seq<HandicraftName>) -> bool {
        self.is_walk(path) && !self.can_extend(path)
    }

    /// Appending a step adds its time.
    pub proof fn lemma_elapsed_push(self, path: Seq<HandicraftName>, next: HandicraftName)
        ensures
            self.elapsed(path.push(next)) == self.elapsed(path) + self.time(next),
    {
        assert(path.push(next).drop_last() =~= path);
    }

    /// A sequence takes no negative time.
    pub proof fn lemma_elapsed_nonnegative(self, path: Seq<HandicraftName>)
        ensures
            self.elapsed(path) >= 0,
        decreases path.len(),
    {
        if path.len() > 0 {
            self.lemma_elapsed_nonnegative(path.drop_last());
        }
    }

    /// A single craft that fits into the cycle is a walk.
    pub proof fn lemma_walk_start(self, start: HandicraftName)
        requires
            self.time(start) <= TIME_IN_CYCLE,
        ensures
            self.is_walk(seq![start]),
            self.elapsed(seq![start]) == self.time(start),
    {
        assert(seq![start].drop_last() =~= Seq::<HandicraftName>::empty());
        assert(self.elapsed(Seq::<HandicraftName>::empty()) == 0);
    }

    /// A walk with a step appended that can follow it is a walk again.
    pub proof fn lemma_walk_push(self, path: Seq<HandicraftName>, next: HandicraftName)
        requires
            self.is_walk(path),
            self.can_follow(path, next),
        ensures
            self.is_walk(path.push(next)),
    {
        let longer = path.push(next);
        assert forall|position: int| 1 <= position < longer.len() implies #[trigger] self.step_fits(
            longer,
            position,
        ) by {
            if position < path.len() {
                assert(self.step_fits(path, position));
                assert(longer.take(position) =~= path.take(position));
            } else {
                assert(longer.take(position) =~= path);
            }
        }
    }

    /// Every beginning of a walk is a walk, and the step after it can
    /// follow it.
    pub proof fn lemma_walk_prefix(self, path: Seq<HandicraftName>, length: int)
        requires
            self.is_walk(path),
            1 <= length <= path.len(),
        ensures
            self.is_walk(path.take(length)),
            length < path.len() ==> self.can_follow(path.take(length), path[length]),
    {
        let prefix = path.take(length);
        assert forall|position: int| 1 <= position < prefix.len() implies #[trigger] self.step_fits(
            prefix,
            position,
        ) by {
            assert(self.step_fits(path, position));
            assert(prefix.take(position) =~= path.take(position));
        }
        if length < path.len() {
            assert(self.step_fits(path, length));
        }
    }

    /// A walk fits into the cycle, and so does every beginning of it.
    pub proof fn lemma_walk_is_feasible(self, path: Seq<HandicraftName>, length: int)
        requires
            self.is_walk(path),
            0 <= length <= path.len(),
        ensures
            0 <= self.elapsed(path.take(length)) <= TIME_IN_CYCLE,
    {
        let prefix = path.take(length);
        self.lemma_elapsed_nonnegative(prefix);
        if length == 1 {
            assert(prefix =~= seq![path[0]]);
            self.lemma_walk_start(path[0]);
        } else if length > 1 {
            assert(self.step_fits(path, length - 1));
            assert(prefix =~= path.take(length - 1).push(path[length - 1]));
            self.lemma_elapsed_push(path.take(length - 1), path[length - 1]);
        }
    }

    /// Two steps of a walk that stand side by side are different crafts
    /// that share a category.
    pub proof fn lemma_walk_is_adjacent(self, path: Seq<HandicraftName>, position: int)
        requires
            self.is_walk(path),
            1 <= position < path.len(),
        ensures
            path[position - 1] != path[position],
            self.related(path[position - 1], path[position]),
    {
        assert(self.step_fits(path, position));
        assert(path.take(position).last() == path[position - 1]);
    }

    /// Under the policy that forbids used crafts, no craft occurs twice in a
    /// walk.
    pub proof fn lemma_walk_without_reuse(self, path: Seq<HandicraftName>)
        requires
            self.is_walk(path),
            self.policy == RepetitionPolicy::ForbidUsed,
        ensures
            path.no_duplicates(),
    {
        assert forall|i: int, j: int| 0 <= i < j < path.len() implies path[i] != path[j] by {
            assert(self.step_fits(path, j));
            if path[i] == path[j] {
                assert(path.take(j)[i] == path[j]);
                assert(path.take(j).contains(path[j]));
            }
        }
    }

    /// Every craft of a walk but the first stands in the graph.
    pub proof fn lemma_walk_step_in_graph(self, path: Seq<HandicraftName>, position: int)
        requires
            self.is_walk(path),
            1 <= position < path.len(),
        ensures
            exists|category: CategoryName| #[trigger]
                self.edges.contains(
                    (HandicraftGraphNode::Handicraft(path[position]), HandicraftGraphNode::Category(category)),
                ),
    {
        assert(self.step_fits(path, position));
        let category = choose|category: CategoryName|
            {
                &&& #[trigger] self.edges.contains(
                    (
                        HandicraftGraphNode::Handicraft(path.take(position).last()),
                        HandicraftGraphNode::Category(category),
                    ),
                )
                &&& self.edges.contains(
                    (HandicraftGraphNode::Handicraft(path[position]), HandicraftGraphNode::Category(category)),
                )
            };
        assert(self.edges.contains(
            (HandicraftGraphNode::Handicraft(path[position]), HandicraftGraphNode::Category(category)),
        ));
    }
}

/// Whether the repetition policy lets `next` follow `agenda`.
pub fn permits(policy: RepetitionPolicy, agenda: &Vec<HandicraftName>, next: HandicraftName) -> (permitted: bool)
    ensures
        permitted == (match policy {
            RepetitionPolicy::ForbidPrevious => agenda@.len() > 0 ==> agenda@.last() != next,
            RepetitionPolicy::ForbidUsed => !agenda@.contains(next),
        }),
{
    match policy {
        RepetitionPolicy::ForbidPrevious => agenda.len() == 0 || agenda[agenda.len() - 1] != next,
        RepetitionPolicy::ForbidUsed => !contains_name(agenda, next),
    }
}

/// Whether `name` occurs in `names`.
pub fn contains_name(names: &Vec<HandicraftName>, name: HandicraftName) -> (found: bool)
    ensures
        found == names@.contains(name),
{
    let mut i: usize = 0;
    while i < names.len()
        invariant
            i <= names.len(),
            forall|k: int| 0 <= k < i ==> names[k] != name,
        decreases names.len() - i,
    {
        if names[i] == name {
            return true;
        }
        i += 1;
    }
    false
}

/// Whether `name` is linked to one of `categories`.
pub open spec fn linked_to_any(
    edges: Set<(HandicraftGraphNode, HandicraftGraphNode)>,
    name: HandicraftName,
    categories: Seq<HandicraftGraphNode>,
) -> bool {
    exists|k: int|
        0 <= k < categories.len() && #[trigger] edges.contains(
            (HandicraftGraphNode::Handicraft(name), categories[k]),
        )
}

/// The crafts that can follow `agenda`, each once.
///
/// They are found by going from the last craft to its categories and from
/// each category back to the crafts in it.
pub fn successors(
    graph: &HandicraftGraph,
    pricing: &HandicraftMap<HandicraftPricingInfo>,
    policy: RepetitionPolicy,
    agenda: &Vec<HandicraftName>,
    elapsed: usize,
) -> (candidates: Vec<HandicraftName>)
    requires
        graph.wf(),
        SearchSpace::of(*graph, *pricing, policy).wf(),
        agenda@.len() > 0,
        elapsed == SearchSpace::of(*graph, *pricing, policy).elapsed(agenda@),
        elapsed <= TIME_IN_CYCLE - MIN_PRODUCT_TIME,
    ensures
        candidates@.no_duplicates(),
        forall|next: HandicraftName|
            candidates@.contains(next) <==> SearchSpace::of(*graph, *pricing, policy).can_follow(agenda@, next),
{
    let ghost space = SearchSpace::of(*graph, *pricing, policy);
    let current = agenda[agenda.len() - 1];
    let categories = graph.neighbors(HandicraftGraphNode::Handicraft(current));
    let mut candidates: Vec<HandicraftName> = Vec::new();
    let mut c: usize = 0;
    while c < categories.len()
        invariant
            graph.wf(),
            space == SearchSpace::of(*graph, *pricing, policy),
            space.wf(),
            agenda@.len() > 0,
            current == agenda@.last(),
            elapsed == space.elapsed(agenda@),
            elapsed <= TIME_IN_CYCLE - MIN_PRODUCT_TIME,
            c <= categories.len(),
            forall|target: HandicraftGraphNode|
                categories@.contains(target) <==> space.edges.contains(
                    (HandicraftGraphNode::Handicraft(current), target),
                ),
            candidates@.no_duplicates(),
            forall|next: HandicraftName|
                candidates@.contains(next) <==> {
                    &&& next != current
                    &&& space.permits(agenda@, next)
                    &&& elapsed + space.time(next) <= TIME_IN_CYCLE
                    &&& linked_to_any(space.edges, next, categories@.take(c as int))
                },
        decreases categories.len() - c,
    {
        let category = categories[c];
        let members = graph.neighbors_directed(category, Direction::Incoming);
        let mut m: usize = 0;
        while m < members.len()
            invariant
                space == SearchSpace::of(*graph, *pricing, policy),
                space.wf(),
                agenda@.len() > 0,
                current == agenda@.last(),
                elapsed <= TIME_IN_CYCLE - MIN_PRODUCT_TIME,
                c < categories.len(),
                category == categories[c as int],
                m <= members.len(),
                members@.no_duplicates(),
                forall|source: HandicraftGraphNode|
                    members@.contains(source) <==> space.edges.contains((source, category)),
                candidates@.no_duplicates(),
                forall|next: HandicraftName|
                    candidates@.contains(next) <==> {
                        &&& next != current
                        &&& space.permits(agenda@, next)
                        &&& elapsed + space.time(next) <= TIME_IN_CYCLE
                        &&& (linked_to_any(space.edges, next, categories@.take(c as int)) || members@.take(
                            m as int,
                        ).contains(HandicraftGraphNode::Handicraft(next)))
                    },
            decreases members.len() - m,
        {
            let member = members[m];
            proof {
                assert(members@.contains(member));
                assert(space.edges.contains((member, category)));
            }
            let recipe = member.unwrap_handicraft();
            let ghost before = candidates@;
            let mut added = false;
            if recipe != current && permits(policy, agenda, recipe) && !contains_name(&candidates, recipe) {
                let info = pricing.get(recipe).unwrap();
                if info.time <= TIME_IN_CYCLE - elapsed {
                    candidates.push(recipe);
                    added = true;
                }
            }
            proof {
                let seen = members@.take(m as int);
                let seen_after = members@.take(m as int + 1);
                assert(seen_after =~= seen.push(member));
                assert forall|next: HandicraftName|
                    candidates@.contains(next) <==> {
                        &&& next != current
                        &&& space.permits(agenda@, next)
                        &&& elapsed + space.time(next) <= TIME_IN_CYCLE
                        &&& (linked_to_any(space.edges, next, categories@.take(c as int)) || seen_after.contains(
                            HandicraftGraphNode::Handicraft(next),
                        ))
                    } by {
                    let node = HandicraftGraphNode::Handicraft(next);
                    if seen_after.contains(node) {
                        let k = choose|k: int| 0 <= k < seen_after.len() && seen_after[k] == node;
                        if k < m {
                            assert(seen[k] == node);
                            assert(seen.contains(node));
                        } else {
                            assert(next == recipe);
                        }
                    }
                    if seen.contains(node) {
                        let k = choose|k: int| 0 <= k < seen.len() && seen[k] == node;
                        assert(seen_after[k] == node);
                    }
                    if next == recipe {
                        assert(seen_after[m as int] == node);
                        assert(seen_after.contains(node));
                    }
                    if added {
                        assert(candidates@ == before.push(recipe));
                        assert(candidates@.last() == recipe);
                        if before.contains(next) {
                            let k = choose|k: int| 0 <= k < before.len() && before[k] == next;
                            assert(candidates@[k] == next);
                        }
                        if candidates@.contains(next) && next != recipe {
                            let k = choose|k: int| 0 <= k < candidates@.len() && candidates@[k] == next;
                            assert(before[k] == next);
                        }
                    }
                }
            }
            m += 1;
        }
        proof {
            let done = categories@.take(c as int);
            let done_after = categories@.take(c as int + 1);
            assert(done_after =~= done.push(category));
            assert(members@.take(m as int) =~= members@);
            assert forall|next: HandicraftName|
                (linked_to_any(space.edges, next, done) || members@.contains(
                    HandicraftGraphNode::Handicraft(next),
                )) <==> linked_to_any(space.edges, next, done_after) by {
                let node = HandicraftGraphNode::Handicraft(next);
                if linked_to_any(space.edges, next, done) {
                    let k = choose|k: int| 0 <= k < done.len() && #[trigger] space.edges.contains((node, done[k]));
                    assert(space.edges.contains((node, done_after[k])));
                }
                if members@.contains(node) {
                    assert(space.edges.contains((node, done_after[c as int])));
                }
                if linked_to_any(space.edges, next, done_after) {
                    let k = choose|k: int|
                        0 <= k < done_after.len() && #[trigger] space.edges.contains((node, done_after[k]));
                    if k < c {
                        assert(space.edges.contains((node, done[k])));
                    }
                }
            }
        }
        c += 1;
    }
    proof {
        assert(categories@.take(c as int) =~= categories@);
        assert forall|next: HandicraftName| candidates@.contains(next) <==> space.can_follow(agenda@, next) by {
            let node = HandicraftGraphNode::Handicraft(next);
            let here = HandicraftGraphNode::Handicraft(current);
            if linked_to_any(space.edges, next, categories@) {
                let k = choose|k: int|
                    0 <= k < categories@.len() && #[trigger] space.edges.contains((node, categories@[k]));
                assert(categories@.contains(categories@[k]));
                assert(space.edges.contains((here, categories@[k])));
                let category = categories@[k]->Category_0;
                assert(categories@[k] == HandicraftGraphNode::Category(category));
                assert(space.edges.contains((here, HandicraftGraphNode::Category(category))));
                assert(space.related(current, next));
            }
            if space.related(current, next) {
                let category = choose|category: CategoryName|
                    {
                        &&& #[trigger] space.edges.contains((here, HandicraftGraphNode::Category(category)))
                        &&& space.edges.contains((node, HandicraftGraphNode::Category(category)))
                    };
                let target = HandicraftGraphNode::Category(category);
                assert(categories@.contains(target));
                let k = choose|k: int| 0 <= k < categories@.len() && categories@[k] == target;
                assert(space.edges.contains((node, categories@[k])));
                assert(linked_to_any(space.edges, next, categories@));
            }
        }
    }
    candidates
}

} // verus!
