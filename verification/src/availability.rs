//! Which crafts can be made at all: a craft that needs a rare material of
//! which nothing is in stock is taken out before the search begins.

use crate::catalogue::{Handicraft, RareItemCount};
use crate::graph::{HandicraftGraph, HandicraftGraphNode};
use crate::names::{HandicraftName, MaterialName};
use vstd::prelude::*;

verus! {

/// A material is exhausted when one of the counts reports none of it.
pub open spec fn is_exhausted(counts: Seq<RareItemCount>, material: MaterialName) -> bool {
    exists|k: int| 0 <= k < counts.len() && (#[trigger] counts[k]).spec_name() == material && counts[k].count == 0
}

/// Whether a craft needs a material that is exhausted.
pub open spec fn needs_exhausted(handicraft: Handicraft, counts: Seq<RareItemCount>) -> bool {
    exists|j: int|
        0 <= j < handicraft.materials@.len() && is_exhausted(counts, (#[trigger] handicraft.materials@[j]).0)
}

/// A craft is unmakeable when a record of the catalogue under its name
/// needs a material that is exhausted.
pub open spec fn is_unmakeable(
    handicrafts: Seq<Handicraft>,
    counts: Seq<RareItemCount>,
    name: HandicraftName,
) -> bool {
    exists|i: int|
        0 <= i < handicrafts.len() && (#[trigger] handicrafts[i]).name == name && needs_exhausted(
            handicrafts[i],
            counts,
        )
}

/// A node survives unless it is the node of an unmakeable craft.
pub open spec fn survives(
    handicrafts: Seq<Handicraft>,
    counts: Seq<RareItemCount>,
    node: HandicraftGraphNode,
) -> bool {
    node matches HandicraftGraphNode::Handicraft(name) ==> !is_unmakeable(handicrafts, counts, name)
}

/// The edges that are left of a graph once the unmakeable crafts are gone.
pub open spec fn surviving_edges(
    edges: Set<(HandicraftGraphNode, HandicraftGraphNode)>,
    handicrafts: Seq<Handicraft>,
    counts: Seq<RareItemCount>,
) -> Set<(HandicraftGraphNode, HandicraftGraphNode)> {
    Set::new(
        |edge: (HandicraftGraphNode, HandicraftGraphNode)|
            edges.contains(edge) && survives(handicrafts, counts, edge.0) && survives(handicrafts, counts, edge.1),
    )
}

/// The crafts that are left of a row once the unmakeable ones are gone, in
/// the order they had.
pub open spec fn surviving_recipes(
    recipes: Seq<HandicraftName>,
    handicrafts: Seq<Handicraft>,
    counts: Seq<RareItemCount>,
) -> Seq<HandicraftName> {
    recipes.filter(|name: HandicraftName| !is_unmakeable(handicrafts, counts, name))
}

/// Whether one of the counts reports that nothing of `material` is in stock.
pub fn exhausted(rare_item_counts: &Vec<RareItemCount>, material: MaterialName) -> (none_left: bool)
    ensures
        none_left == is_exhausted(rare_item_counts@, material),
{
    let mut k: usize = 0;
    while k < rare_item_counts.len()
        invariant
            k <= rare_item_counts.len(),
            forall|seen: int|
                0 <= seen < k ==> !((#[trigger] rare_item_counts@[seen]).spec_name() == material
                    && rare_item_counts@[seen].count == 0),
        decreases rare_item_counts.len() - k,
    {
        if *rare_item_counts[k].name() == material && rare_item_counts[k].count == 0 {
            return true;
        }
        k += 1;
    }
    false
}

/// Whether `handicraft` needs a material of which nothing is in stock.
pub fn uses_exhausted(handicraft: &Handicraft, rare_item_counts: &Vec<RareItemCount>) -> (blocked: bool)
    ensures
        blocked == needs_exhausted(*handicraft, rare_item_counts@),
{
    let mut j: usize = 0;
    while j < handicraft.materials.len()
        invariant
            j <= handicraft.materials.len(),
            forall|seen: int|
                0 <= seen < j ==> !is_exhausted(rare_item_counts@, (#[trigger] handicraft.materials@[seen]).0),
        decreases handicraft.materials.len() - j,
    {
        if exhausted(rare_item_counts, handicraft.materials[j].0) {
            return true;
        }
        j += 1;
    }
    false
}

/// Whether a record of the catalogue under `name` needs a material of which
/// nothing is in stock.
pub fn unmakeable(handicrafts: &Vec<Handicraft>, rare_item_counts: &Vec<RareItemCount>, name: HandicraftName) -> (blocked:
    bool)
    ensures
        blocked == is_unmakeable(handicrafts@, rare_item_counts@, name),
{
    let mut i: usize = 0;
    while i < handicrafts.len()
        invariant
            i <= handicrafts.len(),
            forall|seen: int|
                0 <= seen < i ==> !((#[trigger] handicrafts@[seen]).name == name && needs_exhausted(
                    handicrafts@[seen],
                    rare_item_counts@,
                )),
        decreases handicrafts.len() - i,
    {
        if handicrafts[i].name == name && uses_exhausted(&handicrafts[i], rare_item_counts) {
            return true;
        }
        i += 1;
    }
    false
}

/// A craft is unmakeable within the first records of the catalogue and one
/// more exactly when it is so within the first records, or by that one
/// more.
proof fn lemma_unmakeable_one_more(
    handicrafts: Seq<Handicraft>,
    counts: Seq<RareItemCount>,
    length: int,
    name: HandicraftName,
)
    requires
        0 <= length < handicrafts.len(),
    ensures
        is_unmakeable(handicrafts.take(length + 1), counts, name) <==> (is_unmakeable(
            handicrafts.take(length),
            counts,
            name,
        ) || (handicrafts[length].name == name && needs_exhausted(handicrafts[length], counts))),
{
    let shorter = handicrafts.take(length);
    let longer = handicrafts.take(length + 1);
    if is_unmakeable(shorter, counts, name) {
        let i = choose|i: int|
            0 <= i < shorter.len() && (#[trigger] shorter[i]).name == name && needs_exhausted(shorter[i], counts);
        assert(longer[i] == shorter[i]);
    }
    if handicrafts[length].name == name && needs_exhausted(handicrafts[length], counts) {
        assert(longer[length] == handicrafts[length]);
    }
    if is_unmakeable(longer, counts, name) {
        let i = choose|i: int|
            0 <= i < longer.len() && (#[trigger] longer[i]).name == name && needs_exhausted(longer[i], counts);
        if i < length {
            assert(shorter[i] == longer[i]);
        }
    }
}

/// Takes the unmakeable crafts out of the candidates and out of the graph,
/// with every edge of theirs.
pub fn remove_unmakeable_recipes(
    handicrafts: &Vec<Handicraft>,
    recipe_nodes: &mut Vec<HandicraftName>,
    rare_item_counts: &Vec<RareItemCount>,
    handicraft_graph: &mut HandicraftGraph,
)
    requires
        old(handicraft_graph).wf(),
    ensures
        final(handicraft_graph).wf(),
        final(recipe_nodes)@ == surviving_recipes(old(recipe_nodes)@, handicrafts@, rare_item_counts@),
        forall|name: HandicraftName|
            final(recipe_nodes)@.contains(name) <==> (old(recipe_nodes)@.contains(name) && !is_unmakeable(
                handicrafts@,
                rare_item_counts@,
                name,
            )),
        old(recipe_nodes)@.no_duplicates() ==> final(recipe_nodes)@.no_duplicates(),
        forall|node: HandicraftGraphNode|
            final(handicraft_graph).nodes().contains(node) <==> (old(handicraft_graph).nodes().contains(node)
                && survives(handicrafts@, rare_item_counts@, node)),
        final(handicraft_graph).edges() == surviving_edges(
            old(handicraft_graph).edges(),
            handicrafts@,
            rare_item_counts@,
        ),
{
    let ghost counts = rare_item_counts@;
    let ghost makeable = |name: HandicraftName| !is_unmakeable(handicrafts@, counts, name);
    let mut kept: Vec<HandicraftName> = Vec::new();
    let mut j: usize = 0;
    while j < recipe_nodes.len()
        invariant
            counts == rare_item_counts@,
            makeable == |name: HandicraftName| !is_unmakeable(handicrafts@, counts, name),
            recipe_nodes@ == old(recipe_nodes)@,
            j <= recipe_nodes.len(),
            kept@ == recipe_nodes@.take(j as int).filter(makeable),
            forall|k: int| 0 <= k < kept@.len() ==> recipe_nodes@.take(j as int).contains(#[trigger] kept@[k]),
            forall|name: HandicraftName|
                kept@.contains(name) <==> (recipe_nodes@.take(j as int).contains(name) && makeable(name)),
            recipe_nodes@.no_duplicates() ==> kept@.no_duplicates(),
        decreases recipe_nodes.len() - j,
    {
        let name = recipe_nodes[j];
        let ghost seen = recipe_nodes@.take(j as int);
        let ghost seen_after = recipe_nodes@.take(j as int + 1);
        let ghost kept_before = kept@;
        let blocked = unmakeable(handicrafts, rare_item_counts, name);
        if !blocked {
            kept.push(name);
        }
        proof {
            reveal(Seq::filter);
            assert(seen_after.drop_last() =~= seen);
            assert(seen_after.last() == name);
            assert(seen_after =~= seen.push(name));
            assert forall|other: HandicraftName|
                kept@.contains(other) <==> (seen_after.contains(other) && makeable(other)) by {
                if seen.contains(other) {
                    let k = choose|k: int| 0 <= k < seen.len() && seen[k] == other;
                    assert(seen_after[k] == other);
                }
                if seen_after.contains(other) {
                    let k = choose|k: int| 0 <= k < seen_after.len() && seen_after[k] == other;
                    if k < j {
                        assert(seen[k] == other);
                    }
                }
                if kept_before.contains(other) {
                    let k = choose|k: int| 0 <= k < kept_before.len() && kept_before[k] == other;
                    if !blocked {
                        assert(kept@[k] == other);
                    }
                }
                if !blocked {
                    assert(kept@[kept@.len() - 1] == name);
                    assert(seen_after[j as int] == name);
                    if kept@.contains(other) {
                        let k = choose|k: int| 0 <= k < kept@.len() && kept@[k] == other;
                        if k < kept_before.len() {
                            assert(kept_before[k] == other);
                        }
                    }
                }
            }
            assert forall|k: int| 0 <= k < kept@.len() implies seen_after.contains(#[trigger] kept@[k]) by {
                assert(kept@.contains(kept@[k]));
            }
            if recipe_nodes@.no_duplicates() && !blocked {
                if kept_before.contains(name) {
                    let k = choose|k: int| 0 <= k < seen.len() && seen[k] == name;
                    assert(recipe_nodes@[k] == recipe_nodes@[j as int]);
                }
                assert forall|a: int, b: int| 0 <= a < kept@.len() && 0 <= b < kept@.len() && a != b implies kept@[a]
                    != kept@[b] by {
                    if a < kept_before.len() && b < kept_before.len() {
                        assert(kept_before[a] != kept_before[b]);
                    } else if a < kept_before.len() {
                        assert(kept_before.contains(kept_before[a]));
                    } else {
                        assert(kept_before.contains(kept_before[b]));
                    }
                }
            }
        }
        j += 1;
    }
    proof {
        assert(recipe_nodes@.take(j as int) =~= recipe_nodes@);
    }
    *recipe_nodes = kept;
    let mut i: usize = 0;
    while i < handicrafts.len()
        invariant
            counts == rare_item_counts@,
            i <= handicrafts.len(),
            handicraft_graph.wf(),
            forall|node: HandicraftGraphNode|
                handicraft_graph.nodes().contains(node) <==> (old(handicraft_graph).nodes().contains(node)
                    && survives(handicrafts@.take(i as int), counts, node)),
            forall|edge: (HandicraftGraphNode, HandicraftGraphNode)|
                handicraft_graph.edges().contains(edge) <==> (old(handicraft_graph).edges().contains(edge)
                    && survives(handicrafts@.take(i as int), counts, edge.0) && survives(
                    handicrafts@.take(i as int),
                    counts,
                    edge.1,
                )),
        decreases handicrafts.len() - i,
    {
        let ghost graph_before = *handicraft_graph;
        let blocked = uses_exhausted(&handicrafts[i], rare_item_counts);
        if blocked {
            handicraft_graph.remove_node(HandicraftGraphNode::Handicraft(handicrafts[i].name));
        }
        proof {
            assert forall|node: HandicraftGraphNode|
                survives(handicrafts@.take(i as int + 1), counts, node) <==> (survives(
                    handicrafts@.take(i as int),
                    counts,
                    node,
                ) && !(blocked && node == HandicraftGraphNode::Handicraft(handicrafts@[i as int].name))) by {
                if let HandicraftGraphNode::Handicraft(name) = node {
                    lemma_unmakeable_one_more(handicrafts@, counts, i as int, name);
                }
            }
        }
        i += 1;
    }
    proof {
        assert(handicrafts@.take(i as int) =~= handicrafts@);
        assert(handicraft_graph.edges() =~= surviving_edges(old(handicraft_graph).edges(), handicrafts@, counts));
    }
}

} // verus!
