//! The recipe graph: crafts on one side, categories on the other, and an edge
//! from each craft to every category it belongs to.
//!
//! The graph itself is a `petgraph` `GraphMap` whose nodes are pairs of small
//! integers. What this library assumes of `GraphMap` is written down in the
//! contracts of the `raw_*` functions below and nowhere else; everything above
//! them is proved from those contracts.

use crate::names::{CategoryName, HandicraftName};
use petgraph::graphmap::GraphMap;
use petgraph::Directed;
use std::collections::hash_map::RandomState;
use std::hash::BuildHasher;
use vstd::prelude::*;

verus! {

/// `petgraph::graphmap::GraphMap`, taken as it is: the proofs see nothing
/// inside it.
#[verifier::external_type_specification]
#[verifier::external_body]
#[verifier::reject_recursive_types(N)]
#[verifier::reject_recursive_types(E)]
#[verifier::reject_recursive_types(Ty)]
#[verifier::reject_recursive_types(S)]
pub struct ExGraphMap<N, E, Ty, S>(GraphMap<N, E, Ty, S>) where S: BuildHasher;

/// `petgraph::Directed`, the mark of a graph whose edges have a direction.
#[verifier::external_type_specification]
#[verifier::external_body]
pub struct ExDirected(Directed);

/// The nodes that a `GraphMap` holds.
pub uninterp spec fn graph_nodes(graph: GraphMap<(u8, u8), u8, Directed, RandomState>) -> Set<(u8, u8)>;

/// The edges that a `GraphMap` holds, each as the pair of its source and its
/// target, with the weight of each.
pub uninterp spec fn graph_edges(graph: GraphMap<(u8, u8), u8, Directed, RandomState>) -> Map<((u8, u8), (u8, u8)), u8>;

/// The direction in which the edges at a node are followed.
#[derive(Debug, Clone, Copy, PartialEq, Eq, Structural)]
pub enum Direction {
    /// From the node to the targets of its edges.
    Outgoing,
    /// From the node back to the sources of the edges that end in it.
    Incoming,
}

/// `GraphMap::new`: assumed to give a graph without nodes and without edges.
#[verifier::external_body]
fn raw_new() -> (graph: GraphMap<(u8, u8), u8, Directed, RandomState>)
    ensures
        forall|node: (u8, u8)| !graph_nodes(graph).contains(node),
        forall|edge: ((u8, u8), (u8, u8))| !graph_edges(graph).contains_key(edge),
{
    GraphMap::new()
}

/// `GraphMap::add_node`: assumed to add the node if it is missing, to leave
/// the edges alone, and to hand the node back.
#[verifier::external_body]
fn raw_add_node(graph: &mut GraphMap<(u8, u8), u8, Directed, RandomState>, node: (u8, u8)) -> (added: (u8, u8))
    ensures
        added == node,
        graph_nodes(*final(graph)) == graph_nodes(*old(graph)).insert(node),
        graph_edges(*final(graph)) == graph_edges(*old(graph)),
{
    graph.add_node(node)
}

/// `GraphMap::add_edge` on a directed graph: assumed to add the edge from
/// `source` to `target` together with both of its ends, to give it the
/// weight, and to return the weight that it had if it was there before.
#[verifier::external_body]
fn raw_add_edge(
    graph: &mut GraphMap<(u8, u8), u8, Directed, RandomState>,
    source: (u8, u8),
    target: (u8, u8),
    weight: u8,
) -> (earlier: Option<u8>)
    ensures
        earlier == if graph_edges(*old(graph)).contains_key((source, target)) {
            Some(graph_edges(*old(graph))[(source, target)])
        } else {
            None
        },
        graph_nodes(*final(graph)) == graph_nodes(*old(graph)).insert(source).insert(target),
        graph_edges(*final(graph)) == graph_edges(*old(graph)).insert((source, target), weight),
{
    graph.add_edge(source, target, weight)
}

/// `GraphMap::remove_node`: assumed to remove the node and every edge that
/// starts or ends in it, to keep all the rest as it is, and to say whether
/// the node was there.
#[verifier::external_body]
fn raw_remove_node(graph: &mut GraphMap<(u8, u8), u8, Directed, RandomState>, node: (u8, u8)) -> (removed: bool)
    ensures
        removed == graph_nodes(*old(graph)).contains(node),
        graph_nodes(*final(graph)) == graph_nodes(*old(graph)).remove(node),
        forall|edge: ((u8, u8), (u8, u8))|
            graph_edges(*final(graph)).contains_key(edge) <==> (graph_edges(*old(graph)).contains_key(edge)
                && edge.0 != node && edge.1 != node),
        forall|edge: ((u8, u8), (u8, u8))|
            graph_edges(*final(graph)).contains_key(edge) ==> graph_edges(*final(graph))[edge] == graph_edges(
                *old(graph),
            )[edge],
{
    graph.remove_node(node)
}

/// `GraphMap::neighbors` on a directed graph: assumed to yield, once each and
/// in no stated order, the targets of the edges that start in `node`.
#[verifier::external_body]
fn raw_neighbors(graph: &GraphMap<(u8, u8), u8, Directed, RandomState>, node: (u8, u8)) -> (targets: Vec<(u8, u8)>)
    ensures
        targets@.no_duplicates(),
        forall|target: (u8, u8)|
            targets@.contains(target) <==> graph_edges(*graph).contains_key((node, target)),
{
    graph.neighbors(node).collect()
}

/// `GraphMap::neighbors_directed` on a directed graph: assumed to yield, once
/// each and in no stated order, the other ends of the edges that leave `node`
/// (outgoing) or that arrive in it (incoming).
#[verifier::external_body]
fn raw_neighbors_directed(
    graph: &GraphMap<(u8, u8), u8, Directed, RandomState>,
    node: (u8, u8),
    direction: Direction,
) -> (others: Vec<(u8, u8)>)
    ensures
        others@.no_duplicates(),
        forall|other: (u8, u8)|
            others@.contains(other) <==> graph_edges(*graph).contains_key(
                match direction {
                    Direction::Outgoing => (node, other),
                    Direction::Incoming => (other, node),
                },
            ),
{
    let direction = match direction {
        Direction::Outgoing => petgraph::Direction::Outgoing,
        Direction::Incoming => petgraph::Direction::Incoming,
    };
    graph.neighbors_directed(node, direction).collect()
}

/// A node of the recipe graph: a craft or a category.
#[derive(Debug, Clone, Copy, PartialOrd, Ord, PartialEq, Eq, Hash, Structural)]
pub enum HandicraftGraphNode {
    Handicraft(HandicraftName),
    Category(CategoryName),
}

impl HandicraftGraphNode {
    /// The pair of integers that stands for this node inside the graph: the
    /// kind of node first, then the code of the craft or category.
    pub open spec fn spec_key(self) -> (u8, u8) {
        match self {
            HandicraftGraphNode::Handicraft(name) => (0, name.spec_code()),
            HandicraftGraphNode::Category(name) => (1, name.spec_code()),
        }
    }

    /// The node that a pair of integers stands for, if it stands for one.
    pub open spec fn spec_from_key(key: (u8, u8)) -> Option<HandicraftGraphNode> {
        if key.0 == 0 {
            match HandicraftName::spec_from_code(key.1) {
                Some(name) => Some(HandicraftGraphNode::Handicraft(name)),
                None => None,
            }
        } else if key.0 == 1 {
            match CategoryName::spec_from_code(key.1) {
                Some(name) => Some(HandicraftGraphNode::Category(name)),
                None => None,
            }
        } else {
            None
        }
    }

    /// The pair of integers that stands for this node inside the graph.
    #[verifier::when_used_as_spec(spec_key)]
    pub fn key(self) -> (key: (u8, u8))
        ensures
            key == self.spec_key(),
            HandicraftGraphNode::spec_from_key(key) == Some(self),
    {
        proof {
            self.lemma_key_round_trip();
        }
        match self {
            HandicraftGraphNode::Handicraft(name) => (0, name.code()),
            HandicraftGraphNode::Category(name) => (1, name.code()),
        }
    }

    /// The node that a pair of integers stands for, if it stands for one.
    #[verifier::when_used_as_spec(spec_from_key)]
    pub fn from_key(key: (u8, u8)) -> (node: Option<HandicraftGraphNode>)
        ensures
            node == HandicraftGraphNode::spec_from_key(key),
            node matches Some(n) ==> n.spec_key() == key,
    {
        proof {
            HandicraftGraphNode::lemma_from_key_round_trip(key);
        }
        if key.0 == 0 {
            match HandicraftName::from_code(key.1) {
                Some(name) => Some(HandicraftGraphNode::Handicraft(name)),
                None => None,
            }
        } else if key.0 == 1 {
            match CategoryName::from_code(key.1) {
                Some(name) => Some(HandicraftGraphNode::Category(name)),
                None => None,
            }
        } else {
            None
        }
    }

    /// The craft that this node holds.
    pub fn unwrap_handicraft(self) -> (name: HandicraftName)
        requires
            self is Handicraft,
        ensures
            self == HandicraftGraphNode::Handicraft(name),
    {
        match self {
            HandicraftGraphNode::Handicraft(name) => name,
            HandicraftGraphNode::Category(_) => vstd::pervasive::unreached(),
        }
    }

    /// The category that this node holds.
    pub fn unwrap_category(self) -> (name: CategoryName)
        requires
            self is Category,
        ensures
            self == HandicraftGraphNode::Category(name),
    {
        match self {
            HandicraftGraphNode::Category(name) => name,
            HandicraftGraphNode::Handicraft(_) => vstd::pervasive::unreached(),
        }
    }

    /// A node is found again from its key.
    pub proof fn lemma_key_round_trip(self)
        ensures
            HandicraftGraphNode::spec_from_key(self.spec_key()) == Some(self),
    {
        match self {
            HandicraftGraphNode::Handicraft(name) => name.lemma_code_round_trip(),
            HandicraftGraphNode::Category(name) => name.lemma_code_round_trip(),
        }
    }

    /// A key that stands for a node is the key of that node.
    pub proof fn lemma_from_key_round_trip(key: (u8, u8))
        ensures
            HandicraftGraphNode::spec_from_key(key) matches Some(node) ==> node.spec_key() == key,
    {
        HandicraftName::lemma_decode_round_trip(key.1);
        CategoryName::lemma_decode_round_trip(key.1);
    }

    /// Distinct nodes have distinct keys.
    pub proof fn lemma_key_injective(self, other: HandicraftGraphNode)
        ensures
            self.spec_key() == other.spec_key() <==> self == other,
    {
        self.lemma_key_round_trip();
        other.lemma_key_round_trip();
    }
}

/// The recipe graph.
pub struct HandicraftGraph {
    graph: GraphMap<(u8, u8), u8, Directed, RandomState>,
}

impl HandicraftGraph {
    /// Every key inside the graph stands for a node. `new` gives such a
    /// graph and every method keeps it so.
    pub closed spec fn wf(self) -> bool {
        &&& forall|key: (u8, u8)| #[trigger]
            graph_nodes(self.graph).contains(key) ==> HandicraftGraphNode::spec_from_key(key) is Some
        &&& forall|edge: ((u8, u8), (u8, u8))| #[trigger]
            graph_edges(self.graph).contains_key(edge) ==> HandicraftGraphNode::spec_from_key(edge.0) is Some
                && HandicraftGraphNode::spec_from_key(edge.1) is Some
    }

    /// The nodes of the graph.
    pub closed spec fn nodes(self) -> Set<HandicraftGraphNode> {
        Set::new(|node: HandicraftGraphNode| graph_nodes(self.graph).contains(node.spec_key()))
    }

    /// The edges of the graph, each as the pair of its source and its target.
    pub closed spec fn edges(self) -> Set<(HandicraftGraphNode, HandicraftGraphNode)> {
        Set::new(
            |edge: (HandicraftGraphNode, HandicraftGraphNode)|
                graph_edges(self.graph).contains_key((edge.0.spec_key(), edge.1.spec_key())),
        )
    }

    /// The weight of the edge from `source` to `target`, where there is one.
    pub closed spec fn weight(self, source: HandicraftGraphNode, target: HandicraftGraphNode) -> u8 {
        graph_edges(self.graph)[(source.spec_key(), target.spec_key())]
    }

    /// A graph without nodes and without edges.
    pub fn new() -> (graph: HandicraftGraph)
        ensures
            graph.wf(),
            graph.nodes() == Set::<HandicraftGraphNode>::empty(),
            graph.edges() == Set::<(HandicraftGraphNode, HandicraftGraphNode)>::empty(),
    {
        let graph = HandicraftGraph { graph: raw_new() };
        assert(graph.nodes() =~= Set::<HandicraftGraphNode>::empty());
        assert(graph.edges() =~= Set::<(HandicraftGraphNode, HandicraftGraphNode)>::empty());
        graph
    }

    /// Adds a node, unless it is there already, and hands it back.
    pub fn add_node(&mut self, node: HandicraftGraphNode) -> (added: HandicraftGraphNode)
        requires
            old(self).wf(),
        ensures
            final(self).wf(),
            added == node,
            final(self).nodes() == old(self).nodes().insert(node),
            final(self).edges() == old(self).edges(),
            forall|source: HandicraftGraphNode, target: HandicraftGraphNode| #[trigger]
                final(self).weight(source, target) == old(self).weight(source, target),
    {
        let key = node.key();
        raw_add_node(&mut self.graph, key);
        proof {
            assert forall|other: HandicraftGraphNode|
                self.nodes().contains(other) == old(self).nodes().insert(node).contains(other) by {
                other.lemma_key_injective(node);
            }
            assert(self.nodes() =~= old(self).nodes().insert(node));
            assert(self.edges() =~= old(self).edges());
        }
        node
    }

    /// Adds the edge from `source` to `target`, and both nodes with it, or
    /// gives the edge a new weight if it is there already. Hands back the
    /// weight that the edge had before.
    pub fn add_edge(&mut self, source: HandicraftGraphNode, target: HandicraftGraphNode, weight: u8) -> (earlier:
        Option<u8>)
        requires
            old(self).wf(),
        ensures
            final(self).wf(),
            earlier == if old(self).edges().contains((source, target)) {
                Some(old(self).weight(source, target))
            } else {
                None
            },
            final(self).nodes() == old(self).nodes().insert(source).insert(target),
            final(self).edges() == old(self).edges().insert((source, target)),
            final(self).weight(source, target) == weight,
            forall|from: HandicraftGraphNode, to: HandicraftGraphNode|
                (from, to) != (source, target) ==> #[trigger] final(self).weight(from, to) == old(self).weight(
                    from,
                    to,
                ),
    {
        let earlier = raw_add_edge(&mut self.graph, source.key(), target.key(), weight);
        proof {
            assert forall|other: HandicraftGraphNode|
                self.nodes().contains(other) == old(self).nodes().insert(source).insert(target).contains(
                    other,
                ) by {
                other.lemma_key_injective(source);
                other.lemma_key_injective(target);
            }
            assert(self.nodes() =~= old(self).nodes().insert(source).insert(target));
            assert forall|edge: (HandicraftGraphNode, HandicraftGraphNode)|
                self.edges().contains(edge) == old(self).edges().insert((source, target)).contains(edge) by {
                edge.0.lemma_key_injective(source);
                edge.1.lemma_key_injective(target);
            }
            assert(self.edges() =~= old(self).edges().insert((source, target)));
            assert forall|from: HandicraftGraphNode, to: HandicraftGraphNode|
                (from, to) != (source, target) implies #[trigger] self.weight(from, to) == old(self).weight(
                from,
                to,
            ) by {
                from.lemma_key_injective(source);
                to.lemma_key_injective(target);
            }
        }
        earlier
    }

    /// Removes a node and every edge that starts or ends in it, and leaves
    /// the rest as it is. Tells whether the node was there.
    pub fn remove_node(&mut self, node: HandicraftGraphNode) -> (removed: bool)
        requires
            old(self).wf(),
        ensures
            final(self).wf(),
            removed == old(self).nodes().contains(node),
            final(self).nodes() == old(self).nodes().remove(node),
            forall|edge: (HandicraftGraphNode, HandicraftGraphNode)|
                final(self).edges().contains(edge) <==> (old(self).edges().contains(edge) && edge.0 != node
                    && edge.1 != node),
            forall|source: HandicraftGraphNode, target: HandicraftGraphNode|
                final(self).edges().contains((source, target)) ==> #[trigger] final(self).weight(source, target)
                    == old(self).weight(source, target),
    {
        let removed = raw_remove_node(&mut self.graph, node.key());
        proof {
            assert forall|other: HandicraftGraphNode|
                self.nodes().contains(other) == old(self).nodes().remove(node).contains(other) by {
                other.lemma_key_injective(node);
            }
            assert(self.nodes() =~= old(self).nodes().remove(node));
            assert forall|edge: (HandicraftGraphNode, HandicraftGraphNode)|
                self.edges().contains(edge) <==> (old(self).edges().contains(edge) && edge.0 != node && edge.1
                    != node) by {
                edge.0.lemma_key_injective(node);
                edge.1.lemma_key_injective(node);
            }
        }
        removed
    }

    /// The nodes that a row of keys out of the graph stands for.
    fn nodes_of(keys: Vec<(u8, u8)>) -> (nodes: Vec<HandicraftGraphNode>)
        requires
            keys@.no_duplicates(),
            forall|k: int| 0 <= k < keys.len() ==> HandicraftGraphNode::spec_from_key(#[trigger] keys[k]) is Some,
        ensures
            nodes@.no_duplicates(),
            forall|node: HandicraftGraphNode| nodes@.contains(node) <==> keys@.contains(node.spec_key()),
    {
        let mut nodes: Vec<HandicraftGraphNode> = Vec::new();
        let mut i: usize = 0;
        while i < keys.len()
            invariant
                i <= keys.len(),
                nodes.len() == i,
                forall|k: int| 0 <= k < keys.len() ==> HandicraftGraphNode::spec_from_key(#[trigger] keys[k]) is Some,
                forall|k: int| 0 <= k < i ==> (#[trigger] nodes[k]).spec_key() == keys[k],
            decreases keys.len() - i,
        {
            let found = HandicraftGraphNode::from_key(keys[i]);
            nodes.push(found.unwrap());
            i += 1;
        }
        proof {
            assert forall|a: int, b: int| 0 <= a < nodes.len() && 0 <= b < nodes.len() && a != b implies nodes[a]
                != nodes[b] by {
                assert(keys[a] != keys[b]);
            }
            assert forall|node: HandicraftGraphNode|
                nodes@.contains(node) <==> keys@.contains(node.spec_key()) by {
                if nodes@.contains(node) {
                    let k = choose|k: int| 0 <= k < nodes.len() && nodes[k] == node;
                    assert(keys[k] == node.spec_key());
                }
                if keys@.contains(node.spec_key()) {
                    let k = choose|k: int| 0 <= k < keys.len() && keys[k] == node.spec_key();
                    nodes[k].lemma_key_injective(node);
                    assert(nodes[k] == node);
                }
            }
        }
        nodes
    }

    /// The targets of the edges that start in `node`, each once.
    pub fn neighbors(&self, node: HandicraftGraphNode) -> (targets: Vec<HandicraftGraphNode>)
        requires
            self.wf(),
        ensures
            targets@.no_duplicates(),
            forall|target: HandicraftGraphNode|
                targets@.contains(target) <==> self.edges().contains((node, target)),
    {
        let key = node.key();
        let keys = raw_neighbors(&self.graph, key);
        proof {
            assert forall|k: int| 0 <= k < keys.len() implies HandicraftGraphNode::spec_from_key(
                #[trigger] keys[k],
            ) is Some by {
                assert(keys@.contains(keys[k]));
                assert(graph_edges(self.graph).contains_key((key, keys[k])));
            }
        }
        HandicraftGraph::nodes_of(keys)
    }

    /// The other ends of the edges that leave `node` or that arrive in it,
    /// each once.
    pub fn neighbors_directed(&self, node: HandicraftGraphNode, direction: Direction) -> (others: Vec<
        HandicraftGraphNode,
    >)
        requires
            self.wf(),
        ensures
            others@.no_duplicates(),
            forall|other: HandicraftGraphNode|
                others@.contains(other) <==> self.edges().contains(
                    match direction {
                        Direction::Outgoing => (node, other),
                        Direction::Incoming => (other, node),
                    },
                ),
    {
        let key = node.key();
        let keys = raw_neighbors_directed(&self.graph, key, direction);
        proof {
            assert forall|k: int| 0 <= k < keys.len() implies HandicraftGraphNode::spec_from_key(
                #[trigger] keys[k],
            ) is Some by {
                assert(keys@.contains(keys[k]));
                let edge = match direction {
                    Direction::Outgoing => (key, keys[k]),
                    Direction::Incoming => (keys[k], key),
                };
                assert(graph_edges(self.graph).contains_key(edge));
            }
        }
        HandicraftGraph::nodes_of(keys)
    }
}

} // verus!
