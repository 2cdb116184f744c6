//! From the catalogue to the recipe graph: an edge from every craft to every
//! category that it lists.

use crate::catalogue::{Handicraft, HandicraftPricingInfo};
use crate::graph::{HandicraftGraph, HandicraftGraphNode};
use crate::index::HandicraftMap;
use crate::names::HandicraftName;
use crate::search::contains_name;
use vstd::prelude::*;

verus! {

/// Whether `edge` is the link from a record of the catalogue to one of the
/// categories that the record lists.
pub open spec fn is_listed(
    handicrafts: Seq<Handicraft>,
    record: int,
    entry: int,
    edge: (HandicraftGraphNode, HandicraftGraphNode),
) -> bool {
    &&& 0 <= record < handicrafts.len()
    &&& 0 <= entry < handicrafts[record].category@.len()
    &&& edge == (
        HandicraftGraphNode::Handicraft(handicrafts[record].name),
        HandicraftGraphNode::Category(handicrafts[record].category@[entry]),
    )
}

/// The edges of the recipe graph of a catalogue: from every craft to every
/// category that it lists.
pub open spec fn catalogue_edges(handicrafts: Seq<Handicraft>) -> Set<(HandicraftGraphNode, HandicraftGraphNode)> {
    Set::new(
        |edge: (HandicraftGraphNode, HandicraftGraphNode)|
            exists|record: int, entry: int| #[trigger] is_listed(handicrafts, record, entry, edge),
    )
}

/// Whether a craft has a record in the catalogue.
pub open spec fn is_recorded(handicrafts: Seq<Handicraft>, name: HandicraftName) -> bool {
    exists|record: int| 0 <= record < handicrafts.len() && (#[trigger] handicrafts[record]).name == name
}

/// Whether a node is an end of one of the edges.
pub open spec fn is_end_of_edge(
    edges: Set<(HandicraftGraphNode, HandicraftGraphNode)>,
    node: HandicraftGraphNode,
) -> bool {
    exists|edge: (HandicraftGraphNode, HandicraftGraphNode)|
        #[trigger] edges.contains(edge) && (edge.0 == node || edge.1 == node)
}

/// Whether `edge` is listed by one of the first `records` records, or by
/// one of the first `entries` categories of the record after them.
pub open spec fn is_listed_before(
    handicrafts: Seq<Handicraft>,
    records: int,
    entries: int,
    edge: (HandicraftGraphNode, HandicraftGraphNode),
) -> bool {
    exists|record: int, entry: int|
        #[trigger] is_listed(handicrafts, record, entry, edge) && (record < records || (record == records && entry
            < entries))
}

/// Whether a node belongs to the recipe graph of the records: the node of a
/// craft that has a record, or an end of one of the edges.
pub open spec fn is_catalogue_node(
    edges: Set<(HandicraftGraphNode, HandicraftGraphNode)>,
    records: Seq<Handicraft>,
    node: HandicraftGraphNode,
) -> bool {
    is_end_of_edge(edges, node) || (node matches HandicraftGraphNode::Handicraft(name) && is_recorded(records, name))
}

/// Builds the recipe graph of a catalogue and the row of its crafts.
///
/// The row holds every craft that has a record, once. The graph holds a
/// node for every craft that has a record and for every category that a
/// record lists, and an edge from every craft to every category that it
/// lists.
pub fn create_handicraft_graph(handicrafts: &Vec<Handicraft>) -> (built: (Vec<HandicraftName>, HandicraftGraph))
    ensures
        built.0@.no_duplicates(),
        forall|name: HandicraftName|
            #![trigger built.0@.contains(name)]
            #![trigger is_recorded(handicrafts@, name)]
            built.0@.contains(name) <==> is_recorded(handicrafts@, name),
        built.1.wf(),
        built.1.edges() == catalogue_edges(handicrafts@),
        forall|node: HandicraftGraphNode|
            #![trigger built.1.nodes().contains(node)]
            #![trigger is_catalogue_node(catalogue_edges(handicrafts@), handicrafts@, node)]
            built.1.nodes().contains(node) <==> is_catalogue_node(catalogue_edges(handicrafts@), handicrafts@, node),
{
    let mut graph = HandicraftGraph::new();
    let mut recipe_nodes: Vec<HandicraftName> = Vec::new();
    let mut i: usize = 0;
    while i < handicrafts.len()
        invariant
            i <= handicrafts.len(),
            graph.wf(),
            recipe_nodes@.no_duplicates(),
            forall|name: HandicraftName|
                recipe_nodes@.contains(name) <==> is_recorded(handicrafts@.take(i as int), name),
            forall|edge: (HandicraftGraphNode, HandicraftGraphNode)|
                graph.edges().contains(edge) <==> is_listed_before(handicrafts@, i as int, 0, edge),
            forall|node: HandicraftGraphNode|
                graph.nodes().contains(node) <==> is_catalogue_node(
                    graph.edges(),
                    handicrafts@.take(i as int),
                    node,
                ),
        decreases handicrafts.len() - i,
    {
        let item = &handicrafts[i];
        let ghost seen = handicrafts@.take(i as int);
        let ghost seen_after = handicrafts@.take(i as int + 1);
        proof {
            assert(seen_after[i as int].name == item.name);
            assert forall|name: HandicraftName|
                is_recorded(seen_after, name) <==> (is_recorded(seen, name) || name == item.name) by {
                if is_recorded(seen, name) {
                    let record = choose|record: int|
                        0 <= record < seen.len() && (#[trigger] seen[record]).name == name;
                    assert(seen_after[record].name == name);
                }
                if is_recorded(seen_after, name) {
                    let record = choose|record: int|
                        0 <= record < seen_after.len() && (#[trigger] seen_after[record]).name == name;
                    if record < i {
                        assert(seen[record].name == name);
                    }
                }
            }
        }
        let recipe_node = graph.add_node(HandicraftGraphNode::Handicraft(item.name));
        let mut j: usize = 0;
        while j < item.category.len()
            invariant
                i < handicrafts.len(),
                *item == handicrafts@[i as int],
                recipe_node == HandicraftGraphNode::Handicraft(item.name),
                seen_after == handicrafts@.take(i as int + 1),
                j <= item.category.len(),
                graph.wf(),
                forall|edge: (HandicraftGraphNode, HandicraftGraphNode)|
                    graph.edges().contains(edge) <==> is_listed_before(handicrafts@, i as int, j as int, edge),
                forall|node: HandicraftGraphNode|
                    graph.nodes().contains(node) <==> is_catalogue_node(graph.edges(), seen_after, node),
            decreases item.category.len() - j,
        {
            let ghost edges_before = graph.edges();
            let ghost nodes_before = graph.nodes();
            let category_node = HandicraftGraphNode::Category(item.category[j]);
            graph.add_edge(recipe_node, category_node, 0);
            proof {
                let added = (recipe_node, category_node);
                assert(is_listed(handicrafts@, i as int, j as int, added));
                assert(graph.edges() == edges_before.insert(added));
                assert(graph.nodes() =~= nodes_before.insert(recipe_node).insert(category_node));
                assert forall|edge: (HandicraftGraphNode, HandicraftGraphNode)|
                    graph.edges().contains(edge) <==> is_listed_before(
                        handicrafts@,
                        i as int,
                        j as int + 1,
                        edge,
                    ) by {
                    if is_listed_before(handicrafts@, i as int, j as int, edge) {
                        let (record, entry) = choose|record: int, entry: int|
                            #[trigger] is_listed(handicrafts@, record, entry, edge) && (record < i || (record == i
                                && entry < j));
                        assert(is_listed(handicrafts@, record, entry, edge));
                    }
                    if is_listed_before(handicrafts@, i as int, j as int + 1, edge) {
                        let (record, entry) = choose|record: int, entry: int|
                            #[trigger] is_listed(handicrafts@, record, entry, edge) && (record < i || (record == i
                                && entry < j + 1));
                        if record == i && entry == j {
                            assert(edge == added);
                        } else {
                            assert(is_listed(handicrafts@, record, entry, edge));
                        }
                    }
                }
                assert forall|node: HandicraftGraphNode|
                    graph.nodes().contains(node) <==> is_catalogue_node(graph.edges(), seen_after, node) by {
                    if is_end_of_edge(edges_before, node) {
                        let edge = choose|edge: (HandicraftGraphNode, HandicraftGraphNode)|
                            #[trigger] edges_before.contains(edge) && (edge.0 == node || edge.1 == node);
                        assert(graph.edges().contains(edge));
                    }
                    if node == recipe_node || node == category_node {
                        assert(graph.edges().contains(added));
                    }
                    if is_end_of_edge(graph.edges(), node) {
                        let edge = choose|edge: (HandicraftGraphNode, HandicraftGraphNode)|
                            #[trigger] graph.edges().contains(edge) && (edge.0 == node || edge.1 == node);
                        if edge != added {
                            assert(edges_before.contains(edge));
                        }
                    }
                }
            }
            j += 1;
        }
        let ghost row_before = recipe_nodes@;
        let known = contains_name(&recipe_nodes, item.name);
        if !known {
            recipe_nodes.push(item.name);
        }
        proof {
            assert forall|name: HandicraftName| recipe_nodes@.contains(name) <==> is_recorded(seen_after, name) by {
                if row_before.contains(name) {
                    let k = choose|k: int| 0 <= k < row_before.len() && row_before[k] == name;
                    assert(recipe_nodes@[k] == name);
                }
                if !known {
                    assert(recipe_nodes@[row_before.len() as int] == item.name);
                    if recipe_nodes@.contains(name) {
                        let k = choose|k: int| 0 <= k < recipe_nodes@.len() && recipe_nodes@[k] == name;
                        if k < row_before.len() {
                            assert(row_before[k] == name);
                        }
                    }
                }
            }
            assert forall|edge: (HandicraftGraphNode, HandicraftGraphNode)|
                is_listed_before(handicrafts@, i as int, j as int, edge) <==> is_listed_before(
                    handicrafts@,
                    i as int + 1,
                    0,
                    edge,
                ) by {
                if is_listed_before(handicrafts@, i as int, j as int, edge) {
                    let (record, entry) = choose|record: int, entry: int|
                        #[trigger] is_listed(handicrafts@, record, entry, edge) && (record < i || (record == i
                            && entry < j));
                    assert(is_listed(handicrafts@, record, entry, edge));
                }
                if is_listed_before(handicrafts@, i as int + 1, 0, edge) {
                    let (record, entry) = choose|record: int, entry: int|
                        #[trigger] is_listed(handicrafts@, record, entry, edge) && (record < i + 1 || (record == i
                            + 1 && entry < 0));
                    assert(is_listed(handicrafts@, record, entry, edge));
                }
            }
        }
        i += 1;
    }
    proof {
        assert(handicrafts@.take(i as int) =~= handicrafts@);
        assert forall|edge: (HandicraftGraphNode, HandicraftGraphNode)|
            graph.edges().contains(edge) <==> catalogue_edges(handicrafts@).contains(edge) by {
            if is_listed_before(handicrafts@, i as int, 0, edge) {
                let (record, entry) = choose|record: int, entry: int|
                    #[trigger] is_listed(handicrafts@, record, entry, edge) && (record < i || (record == i && entry
                        < 0));
                assert(is_listed(handicrafts@, record, entry, edge));
            }
            if catalogue_edges(handicrafts@).contains(edge) {
                let (record, entry) = choose|record: int, entry: int| #[trigger]
                    is_listed(handicrafts@, record, entry, edge);
                assert(is_listed(handicrafts@, record, entry, edge) && record < i);
            }
        }
        assert(graph.edges() =~= catalogue_edges(handicrafts@));
    }
    (recipe_nodes, graph)
}

/// The pricing table of a catalogue: every craft with what pricing reads of
/// its record. Where a craft has several records, the last one counts.
pub open spec fn catalogue_pricing(handicrafts: Seq<Handicraft>) -> Map<HandicraftName, HandicraftPricingInfo>
    decreases handicrafts.len(),
{
    if handicrafts.len() == 0 {
        Map::empty()
    } else {
        catalogue_pricing(handicrafts.drop_last()).insert(
            handicrafts.last().name,
            handicrafts.last().spec_pricing_info(),
        )
    }
}

/// The pricing table holds exactly the crafts that have a record.
pub proof fn lemma_catalogue_pricing_domain(handicrafts: Seq<Handicraft>, name: HandicraftName)
    ensures
        catalogue_pricing(handicrafts).contains_key(name) <==> is_recorded(handicrafts, name),
    decreases handicrafts.len(),
{
    if handicrafts.len() > 0 {
        let shorter = handicrafts.drop_last();
        let last = handicrafts.len() - 1;
        lemma_catalogue_pricing_domain(shorter, name);
        if is_recorded(shorter, name) {
            let record = choose|record: int| 0 <= record < shorter.len() && (#[trigger] shorter[record]).name == name;
            assert(handicrafts[record].name == name);
        }
        if is_recorded(handicrafts, name) {
            let record = choose|record: int|
                0 <= record < handicrafts.len() && (#[trigger] handicrafts[record]).name == name;
            if record < last {
                assert(shorter[record].name == name);
            }
        }
        if handicrafts[last].name == name {
            assert(is_recorded(handicrafts, name));
        }
    }
}

/// The pricing table gives a craft the pricing of its record, unless a later
/// record bears the same name.
pub proof fn lemma_catalogue_pricing_of_record(handicrafts: Seq<Handicraft>, record: int)
    requires
        0 <= record < handicrafts.len(),
        forall|later: int|
            record < later < handicrafts.len() ==> (#[trigger] handicrafts[later]).name != handicrafts[record].name,
    ensures
        catalogue_pricing(handicrafts).contains_key(handicrafts[record].name),
        catalogue_pricing(handicrafts)[handicrafts[record].name] == handicrafts[record].spec_pricing_info(),
    decreases handicrafts.len(),
{
    let last = handicrafts.len() - 1;
    if record < last {
        let shorter = handicrafts.drop_last();
        assert(handicrafts[last].name != handicrafts[record].name);
        assert forall|later: int| record < later < shorter.len() implies (#[trigger] shorter[later]).name
            != shorter[record].name by {
            assert(handicrafts[later].name != handicrafts[record].name);
        }
        lemma_catalogue_pricing_of_record(shorter, record);
    }
}

/// Every entry of the pricing table is the pricing of a record under that
/// name.
pub proof fn lemma_catalogue_pricing_source(handicrafts: Seq<Handicraft>, name: HandicraftName)
    requires
        catalogue_pricing(handicrafts).contains_key(name),
    ensures
        exists|record: int|
            0 <= record < handicrafts.len() && (#[trigger] handicrafts[record]).name == name && catalogue_pricing(
                handicrafts,
            )[name] == handicrafts[record].spec_pricing_info(),
    decreases handicrafts.len(),
{
    let last = handicrafts.len() - 1;
    if handicrafts[last].name == name {
        assert(catalogue_pricing(handicrafts)[name] == handicrafts[last].spec_pricing_info());
    } else {
        let shorter = handicrafts.drop_last();
        lemma_catalogue_pricing_source(shorter, name);
        let record = choose|record: int|
            0 <= record < shorter.len() && (#[trigger] shorter[record]).name == name && catalogue_pricing(
                shorter,
            )[name] == shorter[record].spec_pricing_info();
        assert(handicrafts[record] == shorter[record]);
    }
}

/// The pricing table of a catalogue.
pub fn pricing_index(handicrafts: &Vec<Handicraft>) -> (table: HandicraftMap<HandicraftPricingInfo>)
    ensures
        table@ == catalogue_pricing(handicrafts@),
{
    let mut table: HandicraftMap<HandicraftPricingInfo> = HandicraftMap::new();
    let mut i: usize = 0;
    while i < handicrafts.len()
        invariant
            i <= handicrafts.len(),
            table@ == catalogue_pricing(handicrafts@.take(i as int)),
        decreases handicrafts.len() - i,
    {
        table.insert(handicrafts[i].name, handicrafts[i].as_pricing_info());
        proof {
            assert(handicrafts@.take(i as int + 1).drop_last() =~= handicrafts@.take(i as int));
        }
        i += 1;
    }
    proof {
        assert(handicrafts@.take(i as int) =~= handicrafts@);
    }
    table
}

} // verus!
