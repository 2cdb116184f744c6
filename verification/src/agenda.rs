//! From the recipe graph to the ranked agendas: taking out what cannot be
//! made, searching, scoring and ranking.

use crate::availability::{
    is_unmakeable, remove_unmakeable_recipes, surviving_edges, surviving_recipes, survives, unmakeable,
};
use crate::catalogue::{Handicraft, HandicraftPricingInfo, RareItemCount};
use crate::generator::generate_agendas;
use crate::graph::{HandicraftGraph, HandicraftGraphNode};
use crate::index::HandicraftMap;
use crate::market::PopSupply;
use crate::memo::PricingCache;
use crate::names::{CategoryName, HandicraftName};
use crate::pricing::{lemma_abs_pricing_bounded, max_abs_pricing};
use crate::ranking::{is_ranked, lemma_paths_of_insert, paths_of, rank_insert};
use crate::recipe_graph::{
    catalogue_edges, catalogue_pricing, create_handicraft_graph, is_listed, is_recorded, lemma_catalogue_pricing_domain,
    lemma_catalogue_pricing_source, pricing_index,
};
use crate::scoring::{calc_agenda, lemma_total_value_bounded, step_value, total_value, Agenda};
use crate::search::{RepetitionPolicy, SearchSpace, MIN_PRODUCT_TIME, TIME_IN_CYCLE};
use vstd::prelude::*;

verus! {

/// What the search of `find_agendas` walks through: the graph without the
/// unmakeable crafts, the pricing table and the policy.
pub open spec fn planning_space(
    handicrafts: Seq<Handicraft>,
    counts: Seq<RareItemCount>,
    edges: Set<(HandicraftGraphNode, HandicraftGraphNode)>,
    pricing: Map<HandicraftName, HandicraftPricingInfo>,
    policy: RepetitionPolicy,
) -> SearchSpace {
    SearchSpace { edges: surviving_edges(edges, handicrafts, counts), pricing, policy }
}

/// A craft is in play when an agenda can start with it or when the graph
/// links it to a category.
pub open spec fn is_in_play(space: SearchSpace, starts: Seq<HandicraftName>, name: HandicraftName) -> bool {
    starts.contains(name) || exists|category: CategoryName| #[trigger]
        space.edges.contains((HandicraftGraphNode::Handicraft(name), HandicraftGraphNode::Category(category)))
}

/// Every craft in play is priced and has a market state, and no agenda is
/// worth more than the machine can count.
pub open spec fn is_total(
    space: SearchSpace,
    starts: Seq<HandicraftName>,
    pop_supplies: Map<HandicraftName, PopSupply>,
) -> bool {
    &&& forall|name: HandicraftName| #[trigger]
        is_in_play(space, starts, name) ==> space.pricing.contains_key(name) && pop_supplies.contains_key(name)
    &&& forall|name: HandicraftName| #[trigger]
        space.pricing.contains_key(name) ==> TIME_IN_CYCLE * max_abs_pricing(space.pricing[name].value)
            <= usize::MAX
}

/// The crafts of a walk that starts with a priced craft in play are all in
/// play and priced, and the walk has no more steps than the cycle has hours.
pub proof fn lemma_walk_in_play(space: SearchSpace, starts: Seq<HandicraftName>, path: Seq<HandicraftName>)
    requires
        space.wf(),
        space.is_walk(path),
        starts.contains(path[0]),
        space.pricing.contains_key(path[0]),
    ensures
        forall|position: int| 0 <= position < path.len() ==> is_in_play(space, starts, #[trigger] path[position]),
        forall|position: int| 0 <= position < path.len() ==> space.pricing.contains_key(#[trigger] path[position]),
        path.len() <= TIME_IN_CYCLE,
{
    assert forall|position: int| 0 <= position < path.len() implies is_in_play(
        space,
        starts,
        #[trigger] path[position],
    ) && space.pricing.contains_key(path[position]) by {
        if position > 0 {
            space.lemma_walk_step_in_graph(path, position);
            let category = choose|category: CategoryName| #[trigger]
                space.edges.contains(
                    (HandicraftGraphNode::Handicraft(path[position]), HandicraftGraphNode::Category(category)),
                );
            assert(space.edges.contains(
                (HandicraftGraphNode::Handicraft(path[position]), HandicraftGraphNode::Category(category)),
            ));
        }
    }
    lemma_steps_take_time(space, path, path.len() as int);
    assert(path.take(path.len() as int) =~= path);
    space.lemma_walk_is_feasible(path, path.len() as int);
}

/// Where every craft takes an hour at least, a beginning with `length`
/// steps takes `length` hours at least.
proof fn lemma_steps_take_time(space: SearchSpace, path: Seq<HandicraftName>, length: int)
    requires
        space.wf(),
        0 <= length <= path.len(),
        forall|position: int| 0 <= position < path.len() ==> space.pricing.contains_key(#[trigger] path[position]),
    ensures
        space.elapsed(path.take(length)) >= length,
    decreases length,
{
    if length == 0 {
        space.lemma_elapsed_nonnegative(path.take(0));
    } else {
        lemma_steps_take_time(space, path, length - 1);
        assert(path.take(length) =~= path.take(length - 1).push(path[length - 1]));
        space.lemma_elapsed_push(path.take(length - 1), path[length - 1]);
        assert(space.pricing.contains_key(path[length - 1]));
    }
}

/// No agenda found in the graph without the unmakeable crafts holds an
/// unmakeable craft.
pub proof fn lemma_walk_excludes_unmakeable(
    handicrafts: Seq<Handicraft>,
    counts: Seq<RareItemCount>,
    edges: Set<(HandicraftGraphNode, HandicraftGraphNode)>,
    pricing: Map<HandicraftName, HandicraftPricingInfo>,
    policy: RepetitionPolicy,
    path: Seq<HandicraftName>,
)
    requires
        planning_space(handicrafts, counts, edges, pricing, policy).is_walk(path),
        !is_unmakeable(handicrafts, counts, path[0]),
    ensures
        forall|position: int|
            0 <= position < path.len() ==> !is_unmakeable(handicrafts, counts, #[trigger] path[position]),
{
    let space = planning_space(handicrafts, counts, edges, pricing, policy);
    assert forall|position: int| 0 <= position < path.len() implies !is_unmakeable(
        handicrafts,
        counts,
        #[trigger] path[position],
    ) by {
        if position > 0 {
            space.lemma_walk_step_in_graph(path, position);
            let category = choose|category: CategoryName| #[trigger]
                space.edges.contains(
                    (HandicraftGraphNode::Handicraft(path[position]), HandicraftGraphNode::Category(category)),
                );
            let node = HandicraftGraphNode::Handicraft(path[position]);
            assert(survives(handicrafts, counts, node));
        }
    }
}

/// All agendas of a catalogue under the market and the stock of the day,
/// each scored, the most valuable first.
///
/// The crafts that need an exhausted material are taken out of the
/// candidates and the graph first. What is left is searched from every
/// candidate that fits into the cycle. The result holds every agenda of the
/// search space that starts with a candidate, once.
pub fn find_agendas(
    handicrafts: &Vec<Handicraft>,
    handicraft_pop_supply: HandicraftMap<PopSupply>,
    rare_item_counts: Vec<RareItemCount>,
    recipe_nodes: Vec<HandicraftName>,
    handicraft_graph: HandicraftGraph,
    handicraft_pricing_info: HandicraftMap<HandicraftPricingInfo>,
    policy: RepetitionPolicy,
) -> (ranked: Vec<Agenda>)
    requires
        handicraft_graph.wf(),
        recipe_nodes@.no_duplicates(),
        planning_space(
            handicrafts@,
            rare_item_counts@,
            handicraft_graph.edges(),
            handicraft_pricing_info@,
            policy,
        ).wf(),
        is_total(
            planning_space(
                handicrafts@,
                rare_item_counts@,
                handicraft_graph.edges(),
                handicraft_pricing_info@,
                policy,
            ),
            surviving_recipes(recipe_nodes@, handicrafts@, rare_item_counts@),
            handicraft_pop_supply@,
        ),
    ensures
        is_ranked(ranked@),
        paths_of(ranked@).no_duplicates(),
        forall|path: Seq<HandicraftName>| #[trigger]
            paths_of(ranked@).contains(path) <==> (planning_space(
                handicrafts@,
                rare_item_counts@,
                handicraft_graph.edges(),
                handicraft_pricing_info@,
                policy,
            ).is_agenda(path) && surviving_recipes(recipe_nodes@, handicrafts@, rare_item_counts@).contains(
                path[0],
            )),
        forall|k: int|
            0 <= k < ranked@.len() ==> (#[trigger] ranked@[k]).is_scored(
                handicraft_pop_supply@,
                handicraft_pricing_info@,
            ),
        forall|k: int, length: int|
            0 <= k < ranked@.len() && 0 <= length <= ranked@[k].handicrafts@.len() ==> 0 <= planning_space(
                handicrafts@,
                rare_item_counts@,
                handicraft_graph.edges(),
                handicraft_pricing_info@,
                policy,
            ).elapsed(#[trigger] ranked@[k].handicrafts@.take(length)) <= TIME_IN_CYCLE,
        forall|k: int, position: int|
            0 <= k < ranked@.len() && 1 <= position < ranked@[k].handicrafts@.len() ==> planning_space(
                handicrafts@,
                rare_item_counts@,
                handicraft_graph.edges(),
                handicraft_pricing_info@,
                policy,
            ).related(ranked@[k].handicrafts@[position - 1], #[trigger] ranked@[k].handicrafts@[position]),
        forall|k: int, position: int|
            0 <= k < ranked@.len() && 0 <= position < ranked@[k].handicrafts@.len() ==> !is_unmakeable(
                handicrafts@,
                rare_item_counts@,
                #[trigger] ranked@[k].handicrafts@[position],
            ),
{
    let ghost space = planning_space(
        handicrafts@,
        rare_item_counts@,
        handicraft_graph.edges(),
        handicraft_pricing_info@,
        policy,
    );
    let ghost starts = surviving_recipes(recipe_nodes@, handicrafts@, rare_item_counts@);
    let ghost pop_supplies = handicraft_pop_supply@;
    let ghost pricing = handicraft_pricing_info@;
    let ghost edges_before = handicraft_graph.edges();
    let mut recipe_nodes = recipe_nodes;
    let mut handicraft_graph = handicraft_graph;
    remove_unmakeable_recipes(handicrafts, &mut recipe_nodes, &rare_item_counts, &mut handicraft_graph);
    let mut cache = PricingCache::new();
    let mut ranked: Vec<Agenda> = Vec::new();
    proof {
        assert(paths_of(ranked@) =~= Seq::<Seq<HandicraftName>>::empty());
        assert(starts.take(0) =~= Seq::<HandicraftName>::empty());
    }
    let mut s: usize = 0;
    while s < recipe_nodes.len()
        invariant
            handicraft_graph.wf(),
            space == SearchSpace::of(handicraft_graph, handicraft_pricing_info, policy),
            space.wf(),
            starts == recipe_nodes@,
            starts.no_duplicates(),
            pop_supplies == handicraft_pop_supply@,
            pricing == handicraft_pricing_info@,
            is_total(space, starts, pop_supplies),
            cache.wf(),
            s <= recipe_nodes.len(),
            is_ranked(ranked@),
            paths_of(ranked@).no_duplicates(),
            forall|path: Seq<HandicraftName>| #[trigger]
                paths_of(ranked@).contains(path) <==> (space.is_agenda(path) && starts.take(s as int).contains(
                    path[0],
                )),
            forall|k: int| 0 <= k < ranked@.len() ==> (#[trigger] ranked@[k]).is_scored(pop_supplies, pricing),
        decreases recipe_nodes.len() - s,
    {
        let start = recipe_nodes[s];
        proof {
            assert(starts.contains(start));
            assert(is_in_play(space, starts, start));
        }
        let time = handicraft_pricing_info.get(start).unwrap().time;
        let ghost leaves: Seq<Seq<HandicraftName>> = Seq::empty();
        if time <= TIME_IN_CYCLE {
            let mut agenda: Vec<HandicraftName> = Vec::with_capacity(TIME_IN_CYCLE / MIN_PRODUCT_TIME);
            agenda.push(start);
            proof {
                assert(agenda@ =~= seq![start]);
                space.lemma_walk_start(start);
            }
            let found = generate_agendas(&handicraft_graph, &handicraft_pricing_info, policy, agenda, time);
            proof {
                leaves = found.leaves();
            }
            let mut walker = found.into_iter();
            let ghost mut handed_out: nat = 0;
            let mut done = false;
            while !done
                invariant
                    space == SearchSpace::of(handicraft_graph, handicraft_pricing_info, policy),
                    space.wf(),
                    starts == recipe_nodes@,
                    starts.no_duplicates(),
                    s < recipe_nodes.len(),
                    start == starts[s as int],
                    pop_supplies == handicraft_pop_supply@,
                    pricing == handicraft_pricing_info@,
                    is_total(space, starts, pop_supplies),
                    cache.wf(),
                    leaves.no_duplicates(),
                    forall|path: Seq<HandicraftName>| #[trigger]
                        leaves.contains(path) <==> (space.is_agenda(path) && seq![start].is_prefix_of(path)),
                    handed_out <= leaves.len(),
                    walker.remaining() == leaves.skip(handed_out as int),
                    done ==> handed_out == leaves.len(),
                    is_ranked(ranked@),
                    paths_of(ranked@).no_duplicates(),
                    forall|path: Seq<HandicraftName>| #[trigger]
                        paths_of(ranked@).contains(path) <==> ((space.is_agenda(path) && starts.take(
                            s as int,
                        ).contains(path[0])) || leaves.take(handed_out as int).contains(path)),
                    forall|k: int|
                        0 <= k < ranked@.len() ==> (#[trigger] ranked@[k]).is_scored(pop_supplies, pricing),
                decreases leaves.len() - handed_out + (if done { 0int } else { 1int }),
            {
                match walker.next() {
                    Some(path) => {
                        proof {
                            assert(path@ == leaves[handed_out as int]);
                            assert(leaves.contains(path@));
                            assert(seq![start].is_prefix_of(path@));
                            assert(path@.subrange(0, 1)[0] == path@[0]);
                            assert(seq![start][0] == start);
                            assert(starts.contains(path@[0]));
                            lemma_agenda_can_be_scored(space, starts, pop_supplies, path@);
                        }
                        let ghost row_before = ranked@;
                        let scored = calc_agenda(path, &handicraft_pop_supply, &handicraft_pricing_info, &mut cache);
                        let position = rank_insert(&mut ranked, scored);
                        proof {
                            let given = leaves.take(handed_out as int);
                            let given_after = leaves.take(handed_out as int + 1);
                            assert(given_after =~= given.push(path@));
                            lemma_paths_of_insert(row_before, position as int, scored);
                            if paths_of(row_before).contains(path@) {
                                if given.contains(path@) {
                                    let k = choose|k: int| 0 <= k < given.len() && given[k] == path@;
                                    assert(leaves[k] == leaves[handed_out as int]);
                                } else {
                                    let k = choose|k: int|
                                        0 <= k < starts.take(s as int).len() && starts.take(s as int)[k]
                                            == path@[0];
                                    assert(starts[k] == starts[s as int]);
                                }
                            }
                            assert forall|other: Seq<HandicraftName>| #[trigger]
                                paths_of(ranked@).contains(other) <==> ((space.is_agenda(other) && starts.take(
                                    s as int,
                                ).contains(other[0])) || given_after.contains(other)) by {
                                if given.contains(other) {
                                    let k = choose|k: int| 0 <= k < given.len() && given[k] == other;
                                    assert(given_after[k] == other);
                                }
                                if given_after.contains(other) {
                                    let k = choose|k: int| 0 <= k < given_after.len() && given_after[k] == other;
                                    if k < handed_out {
                                        assert(given[k] == other);
                                    }
                                }
                                assert(given_after[handed_out as int] == path@);
                            }
                            assert forall|k: int| 0 <= k < ranked@.len() implies (#[trigger] ranked@[k]).is_scored(
                                pop_supplies,
                                pricing,
                            ) by {
                                if k < position {
                                    assert(ranked@[k] == row_before[k]);
                                } else if k > position {
                                    assert(ranked@[k] == row_before[k - 1]);
                                }
                            }
                            assert(leaves.skip(handed_out as int).skip(1) =~= leaves.skip(handed_out as int + 1));
                            handed_out = handed_out + 1;
                        }
                    },
                    None => {
                        done = true;
                    },
                }
            }
            proof {
                assert(leaves.take(handed_out as int) =~= leaves);
            }
        }
        proof {
            let tried = starts.take(s as int);
            let tried_after = starts.take(s as int + 1);
            assert(tried_after =~= tried.push(start));
            assert forall|path: Seq<HandicraftName>| #[trigger]
                paths_of(ranked@).contains(path) <==> (space.is_agenda(path) && tried_after.contains(path[0])) by {
                if tried.contains(path[0]) {
                    let k = choose|k: int| 0 <= k < tried.len() && tried[k] == path[0];
                    assert(tried_after[k] == path[0]);
                }
                if tried_after.contains(path[0]) {
                    let k = choose|k: int| 0 <= k < tried_after.len() && tried_after[k] == path[0];
                    if k < s {
                        assert(tried[k] == path[0]);
                    }
                }
                assert(tried_after[s as int] == start);
                if space.is_agenda(path) {
                    if path[0] == start {
                        assert(seq![start] =~= path.subrange(0, 1));
                        assert(seq![start].is_prefix_of(path));
                    }
                    if seq![start].is_prefix_of(path) {
                        assert(path.subrange(0, 1)[0] == path[0]);
                    }
                }
                if time <= TIME_IN_CYCLE {
                    if leaves.contains(path) {
                        assert(seq![start].is_prefix_of(path));
                        assert(path.subrange(0, 1)[0] == path[0]);
                        assert(seq![start][0] == start);
                    }
                } else {
                    assert(!leaves.contains(path));
                }
            }
        }
        s += 1;
    }
    proof {
        assert(starts.take(s as int) =~= starts);
        assert forall|k: int, length: int|
            0 <= k < ranked@.len() && 0 <= length <= ranked@[k].handicrafts@.len() implies 0 <= space.elapsed(
            #[trigger] ranked@[k].handicrafts@.take(length),
        ) <= TIME_IN_CYCLE by {
            let path = ranked@[k].handicrafts@;
            assert(paths_of(ranked@)[k] == path);
            assert(paths_of(ranked@).contains(path));
            space.lemma_walk_is_feasible(path, length);
        }
        assert forall|k: int, position: int|
            0 <= k < ranked@.len() && 1 <= position < ranked@[k].handicrafts@.len() implies space.related(
            ranked@[k].handicrafts@[position - 1],
            #[trigger] ranked@[k].handicrafts@[position],
        ) by {
            let path = ranked@[k].handicrafts@;
            assert(paths_of(ranked@)[k] == path);
            assert(paths_of(ranked@).contains(path));
            space.lemma_walk_is_adjacent(path, position);
        }
        assert forall|k: int, position: int|
            0 <= k < ranked@.len() && 0 <= position < ranked@[k].handicrafts@.len() implies !is_unmakeable(
            handicrafts@,
            rare_item_counts@,
            #[trigger] ranked@[k].handicrafts@[position],
        ) by {
            let path = ranked@[k].handicrafts@;
            assert(paths_of(ranked@)[k] == path);
            assert(paths_of(ranked@).contains(path));
            lemma_walk_excludes_unmakeable(
                handicrafts@,
                rare_item_counts@,
                edges_before,
                pricing,
                policy,
                path,
            );
        }
    }
    ranked
}

/// An agenda that starts with a craft in play can be scored: its crafts
/// are priced and have a market state, and its worth can be counted.
proof fn lemma_agenda_can_be_scored(
    space: SearchSpace,
    starts: Seq<HandicraftName>,
    pop_supplies: Map<HandicraftName, PopSupply>,
    path: Seq<HandicraftName>,
)
    requires
        space.wf(),
        is_total(space, starts, pop_supplies),
        space.is_walk(path),
        starts.contains(path[0]),
    ensures
        forall|position: int|
            0 <= position < path.len() ==> pop_supplies.contains_key(#[trigger] path[position])
                && space.pricing.contains_key(path[position]),
        total_value(pop_supplies, space.pricing, path) <= usize::MAX,
{
    assert(is_in_play(space, starts, path[0]));
    lemma_walk_in_play(space, starts, path);
    let bound = (usize::MAX / TIME_IN_CYCLE) as nat;
    assert forall|position: int| 0 <= position < path.len() implies #[trigger] step_value(
        pop_supplies,
        space.pricing,
        path,
        position,
    ) <= bound by {
        let name = path[position];
        assert(is_in_play(space, starts, name));
        lemma_abs_pricing_bounded(position > 0, pop_supplies[name], space.pricing[name]);
        assert(space.pricing.contains_key(name));
    }
    lemma_total_value_bounded(pop_supplies, space.pricing, path, bound);
    assert(path.len() * bound <= usize::MAX) by (nonlinear_arith)
        requires
            path.len() <= 24,
            bound == (usize::MAX / 24) as nat,
    ;
    assert forall|position: int| 0 <= position < path.len() implies pop_supplies.contains_key(
        #[trigger] path[position],
    ) && space.pricing.contains_key(path[position]) by {
        assert(is_in_play(space, starts, path[position]));
    }
}

/// What makes a catalogue unfit for planning, with the craft at fault.
#[derive(Debug, Clone, Copy, PartialEq, Eq, Structural)]
pub enum CatalogueError {
    /// A record says that the craft takes no time.
    NoTime(HandicraftName),
    /// A record gives the craft a value so large that the worth of an
    /// agenda could not be counted.
    ValueTooLarge(HandicraftName),
    /// The craft can be made, but the market says nothing of it.
    NoMarketState(HandicraftName),
}

/// What is wrong with one record of the catalogue, if anything.
pub open spec fn record_fault(
    handicrafts: Seq<Handicraft>,
    counts: Seq<RareItemCount>,
    pop_supplies: Map<HandicraftName, PopSupply>,
    record: int,
) -> Option<CatalogueError> {
    let handicraft = handicrafts[record];
    if handicraft.time == 0 {
        Some(CatalogueError::NoTime(handicraft.name))
    } else if TIME_IN_CYCLE * max_abs_pricing(handicraft.value) > usize::MAX {
        Some(CatalogueError::ValueTooLarge(handicraft.name))
    } else if !is_unmakeable(handicrafts, counts, handicraft.name) && !pop_supplies.contains_key(handicraft.name) {
        Some(CatalogueError::NoMarketState(handicraft.name))
    } else {
        None
    }
}

/// What the planner walks through: the recipe graph of the catalogue
/// without the unmakeable crafts, the pricing table of the catalogue and the
/// policy.
pub open spec fn catalogue_space(
    handicrafts: Seq<Handicraft>,
    counts: Seq<RareItemCount>,
    policy: RepetitionPolicy,
) -> SearchSpace {
    planning_space(handicrafts, counts, catalogue_edges(handicrafts), catalogue_pricing(handicrafts), policy)
}

/// Two crafts that are related in the space of a catalogue have records that
/// list one and the same category.
pub proof fn lemma_related_in_catalogue(
    handicrafts: Seq<Handicraft>,
    counts: Seq<RareItemCount>,
    policy: RepetitionPolicy,
    one: HandicraftName,
    other: HandicraftName,
)
    requires
        catalogue_space(handicrafts, counts, policy).related(one, other),
    ensures
        exists|first: int, second: int, category: CategoryName|
            {
                &&& 0 <= first < handicrafts.len()
                &&& 0 <= second < handicrafts.len()
                &&& (#[trigger] handicrafts[first]).name == one
                &&& (#[trigger] handicrafts[second]).name == other
                &&& handicrafts[first].category@.contains(category)
                &&& #[trigger] handicrafts[second].category@.contains(category)
            },
{
    let space = catalogue_space(handicrafts, counts, policy);
    let category = choose|category: CategoryName|
        {
            &&& #[trigger] space.edges.contains(
                (HandicraftGraphNode::Handicraft(one), HandicraftGraphNode::Category(category)),
            )
            &&& space.edges.contains((HandicraftGraphNode::Handicraft(other), HandicraftGraphNode::Category(category)))
        };
    let here = (HandicraftGraphNode::Handicraft(one), HandicraftGraphNode::Category(category));
    let there = (HandicraftGraphNode::Handicraft(other), HandicraftGraphNode::Category(category));
    assert(catalogue_edges(handicrafts).contains(here));
    assert(catalogue_edges(handicrafts).contains(there));
    let (first, entry) = choose|record: int, entry: int| #[trigger] is_listed(handicrafts, record, entry, here);
    let (second, other_entry) = choose|record: int, entry: int| #[trigger]
        is_listed(handicrafts, record, entry, there);
    assert(handicrafts[first].category@[entry] == category);
    assert(handicrafts[second].category@[other_entry] == category);
    assert(handicrafts[first].category@.contains(category));
    assert(handicrafts[second].category@.contains(category));
}

/// A catalogue without a fault spans a space that the search can walk
/// through, and gives every craft in play a price and a market state.
proof fn lemma_sound_catalogue_is_total(
    handicrafts: Seq<Handicraft>,
    counts: Seq<RareItemCount>,
    pop_supplies: Map<HandicraftName, PopSupply>,
    policy: RepetitionPolicy,
    starts: Seq<HandicraftName>,
)
    requires
        forall|record: int|
            0 <= record < handicrafts.len() ==> #[trigger] record_fault(handicrafts, counts, pop_supplies, record)
                is None,
        forall|name: HandicraftName|
            starts.contains(name) ==> is_recorded(handicrafts, name) && !is_unmakeable(handicrafts, counts, name),
    ensures
        catalogue_space(handicrafts, counts, policy).wf(),
        is_total(catalogue_space(handicrafts, counts, policy), starts, pop_supplies),
{
    let space = catalogue_space(handicrafts, counts, policy);
    assert forall|name: HandicraftName| is_recorded(handicrafts, name) && !is_unmakeable(
        handicrafts,
        counts,
        name,
    ) implies space.pricing.contains_key(name) && pop_supplies.contains_key(name) by {
        lemma_catalogue_pricing_domain(handicrafts, name);
        let record = choose|record: int| 0 <= record < handicrafts.len() && (#[trigger] handicrafts[record]).name == name;
        assert(record_fault(handicrafts, counts, pop_supplies, record) is None);
    }
    assert forall|name: HandicraftName| #[trigger] space.pricing.contains_key(name) implies space.pricing[name].time
        >= 1 && TIME_IN_CYCLE * max_abs_pricing(space.pricing[name].value) <= usize::MAX by {
        lemma_catalogue_pricing_source(handicrafts, name);
        let record = choose|record: int|
            0 <= record < handicrafts.len() && (#[trigger] handicrafts[record]).name == name && catalogue_pricing(
                handicrafts,
            )[name] == handicrafts[record].spec_pricing_info();
        assert(record_fault(handicrafts, counts, pop_supplies, record) is None);
    }
    assert forall|edge: (HandicraftGraphNode, HandicraftGraphNode)| #[trigger]
        space.edges.contains(edge) implies edge.0 is Handicraft && edge.1 is Category && is_recorded(
        handicrafts,
        edge.0->Handicraft_0,
    ) && !is_unmakeable(handicrafts, counts, edge.0->Handicraft_0) by {
        assert(catalogue_edges(handicrafts).contains(edge));
        let (record, entry) = choose|record: int, entry: int| #[trigger] is_listed(handicrafts, record, entry, edge);
        assert(handicrafts[record].name == edge.0->Handicraft_0);
        assert(survives(handicrafts, counts, edge.0));
    }
    assert forall|name: HandicraftName| #[trigger] is_in_play(space, starts, name) implies space.pricing.contains_key(
        name,
    ) && pop_supplies.contains_key(name) by {
        if !starts.contains(name) {
            let category = choose|category: CategoryName| #[trigger]
                space.edges.contains((HandicraftGraphNode::Handicraft(name), HandicraftGraphNode::Category(category)));
            assert(space.edges.contains(
                (HandicraftGraphNode::Handicraft(name), HandicraftGraphNode::Category(category)),
            ));
        }
    }
}

/// Plans the agendas of a catalogue under the market and the stock of the
/// day.
///
/// The records are looked over first, and the first faulty one is reported.
/// A catalogue without fault gives its agendas: every sequence that starts
/// with a makeable craft of the catalogue and is an agenda of the
/// catalogue's space, once, scored, the most valuable first.
pub fn plan_agendas(
    handicrafts: &Vec<Handicraft>,
    handicraft_pop_supply: HandicraftMap<PopSupply>,
    rare_item_counts: Vec<RareItemCount>,
    policy: RepetitionPolicy,
) -> (planned: Result<Vec<Agenda>, CatalogueError>)
    ensures
        match planned {
            Ok(ranked) => {
                &&& forall|record: int|
                    0 <= record < handicrafts@.len() ==> #[trigger] record_fault(
                        handicrafts@,
                        rare_item_counts@,
                        handicraft_pop_supply@,
                        record,
                    ) is None
                &&& is_ranked(ranked@)
                &&& paths_of(ranked@).no_duplicates()
                &&& forall|path: Seq<HandicraftName>| #[trigger]
                    paths_of(ranked@).contains(path) <==> {
                        &&& catalogue_space(handicrafts@, rare_item_counts@, policy).is_agenda(path)
                        &&& is_recorded(handicrafts@, path[0])
                        &&& !is_unmakeable(handicrafts@, rare_item_counts@, path[0])
                    }
                &&& forall|k: int|
                    0 <= k < ranked@.len() ==> (#[trigger] ranked@[k]).is_scored(
                        handicraft_pop_supply@,
                        catalogue_pricing(handicrafts@),
                    )
                &&& forall|k: int, length: int|
                    0 <= k < ranked@.len() && 0 <= length <= ranked@[k].handicrafts@.len() ==> 0 <= catalogue_space(
                        handicrafts@,
                        rare_item_counts@,
                        policy,
                    ).elapsed(#[trigger] ranked@[k].handicrafts@.take(length)) <= TIME_IN_CYCLE
                &&& forall|k: int, position: int|
                    0 <= k < ranked@.len() && 1 <= position < ranked@[k].handicrafts@.len() ==> catalogue_space(
                        handicrafts@,
                        rare_item_counts@,
                        policy,
                    ).related(ranked@[k].handicrafts@[position - 1], #[trigger] ranked@[k].handicrafts@[position])
                &&& forall|k: int, position: int|
                    0 <= k < ranked@.len() && 0 <= position < ranked@[k].handicrafts@.len() ==> !is_unmakeable(
                        handicrafts@,
                        rare_item_counts@,
                        #[trigger] ranked@[k].handicrafts@[position],
                    )
            },
            Err(fault) => exists|record: int|
                {
                    &&& 0 <= record < handicrafts@.len()
                    &&& #[trigger] record_fault(handicrafts@, rare_item_counts@, handicraft_pop_supply@, record)
                        == Some(fault)
                    &&& forall|earlier: int|
                        0 <= earlier < record ==> #[trigger] record_fault(
                            handicrafts@,
                            rare_item_counts@,
                            handicraft_pop_supply@,
                            earlier,
                        ) is None
                },
        },
{
    let mut i: usize = 0;
    while i < handicrafts.len()
        invariant
            i <= handicrafts.len(),
            forall|earlier: int|
                0 <= earlier < i ==> #[trigger] record_fault(
                    handicrafts@,
                    rare_item_counts@,
                    handicraft_pop_supply@,
                    earlier,
                ) is None,
        decreases handicrafts.len() - i,
    {
        let handicraft = &handicrafts[i];
        if handicraft.time == 0 {
            proof {
                assert(record_fault(handicrafts@, rare_item_counts@, handicraft_pop_supply@, i as int) == Some(
                    CatalogueError::NoTime(handicraft.name),
                ));
            }
            return Err(CatalogueError::NoTime(handicraft.name));
        }
        let value: u128 = handicraft.value as u128;
        proof {
            assert(224 * value <= 224 * 0x1_0000_0000_0000_0000) by (nonlinear_arith)
                requires
                    value <= 0xffff_ffff_ffff_ffff,
            ;
        }
        let most: u128 = 2 * (14 * 16 * value / 100);
        if 24 * most > usize::MAX as u128 {
            proof {
                assert(record_fault(handicrafts@, rare_item_counts@, handicraft_pop_supply@, i as int) == Some(
                    CatalogueError::ValueTooLarge(handicraft.name),
                ));
            }
            return Err(CatalogueError::ValueTooLarge(handicraft.name));
        }
        if !handicraft_pop_supply.contains_key(handicraft.name) && !unmakeable(
            handicrafts,
            &rare_item_counts,
            handicraft.name,
        ) {
            proof {
                assert(record_fault(handicrafts@, rare_item_counts@, handicraft_pop_supply@, i as int) == Some(
                    CatalogueError::NoMarketState(handicraft.name),
                ));
            }
            return Err(CatalogueError::NoMarketState(handicraft.name));
        }
        i += 1;
    }
    let (recipe_nodes, handicraft_graph) = create_handicraft_graph(handicrafts);
    let handicraft_pricing_info = pricing_index(handicrafts);
    let ghost starts = surviving_recipes(recipe_nodes@, handicrafts@, rare_item_counts@);
    proof {
        let makeable = |name: HandicraftName| !is_unmakeable(handicrafts@, rare_item_counts@, name);
        assert forall|name: HandicraftName| starts.contains(name) <==> (is_recorded(handicrafts@, name)
            && !is_unmakeable(handicrafts@, rare_item_counts@, name)) by {
            if starts.contains(name) {
                let k = choose|k: int| 0 <= k < starts.len() && starts[k] == name;
                recipe_nodes@.lemma_filter_pred(makeable, k);
                recipe_nodes@.lemma_filter_contains_rev(makeable, name);
            }
            if recipe_nodes@.contains(name) && makeable(name) {
                let k = choose|k: int| 0 <= k < recipe_nodes@.len() && recipe_nodes@[k] == name;
                recipe_nodes@.lemma_filter_contains(makeable, k);
            }
        }
        lemma_sound_catalogue_is_total(handicrafts@, rare_item_counts@, handicraft_pop_supply@, policy, starts);
    }
    let ranked = find_agendas(
        handicrafts,
        handicraft_pop_supply,
        rare_item_counts,
        recipe_nodes,
        handicraft_graph,
        handicraft_pricing_info,
        policy,
    );
    Ok(ranked)
}

} // verus!
