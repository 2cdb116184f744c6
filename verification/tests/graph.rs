use mji_agenda::{
    create_handicraft_graph, CategoryName, Direction, Handicraft, HandicraftGraph, HandicraftGraphNode, HandicraftMap,
    HandicraftName,
};

const POTION: HandicraftGraphNode = HandicraftGraphNode::Handicraft(HandicraftName::IsleworksPotion);
const JAM: HandicraftGraphNode = HandicraftGraphNode::Handicraft(HandicraftName::IsleberryJam);
const CONCOCTIONS: HandicraftGraphNode = HandicraftGraphNode::Category(CategoryName::Concoctions);
const CONFECTIONS: HandicraftGraphNode = HandicraftGraphNode::Category(CategoryName::Confections);

fn sorted(mut nodes: Vec<HandicraftGraphNode>) -> Vec<HandicraftGraphNode> {
    nodes.sort();
    nodes
}

#[test]
fn new_graph_has_no_neighbours() {
    let graph = HandicraftGraph::new();
    assert!(graph.neighbors(POTION).is_empty());
    assert!(graph.neighbors_directed(CONCOCTIONS, Direction::Incoming).is_empty());
}

#[test]
fn add_node_hands_the_node_back() {
    let mut graph = HandicraftGraph::new();
    assert_eq!(graph.add_node(POTION), POTION);
    assert!(graph.neighbors(POTION).is_empty());
    assert!(graph.remove_node(POTION));
    assert!(!graph.remove_node(POTION));
}

#[test]
fn add_edge_links_source_to_target() {
    let mut graph = HandicraftGraph::new();
    assert_eq!(graph.add_edge(POTION, CONCOCTIONS, 0), None);
    assert_eq!(graph.neighbors(POTION), vec![CONCOCTIONS]);
    assert!(graph.neighbors(CONCOCTIONS).is_empty());
    assert_eq!(graph.neighbors_directed(CONCOCTIONS, Direction::Incoming), vec![POTION]);
    assert_eq!(graph.neighbors_directed(POTION, Direction::Outgoing), vec![CONCOCTIONS]);
    assert!(graph.neighbors_directed(POTION, Direction::Incoming).is_empty());
}

#[test]
fn add_edge_twice_returns_the_earlier_weight() {
    let mut graph = HandicraftGraph::new();
    assert_eq!(graph.add_edge(POTION, CONCOCTIONS, 7), None);
    assert_eq!(graph.add_edge(POTION, CONCOCTIONS, 9), Some(7));
    assert_eq!(graph.add_edge(POTION, CONCOCTIONS, 0), Some(9));
    assert_eq!(graph.neighbors(POTION), vec![CONCOCTIONS]);
}

#[test]
fn add_edge_adds_both_ends() {
    let mut graph = HandicraftGraph::new();
    graph.add_edge(POTION, CONCOCTIONS, 0);
    assert!(graph.remove_node(CONCOCTIONS));
    assert!(graph.remove_node(POTION));
}

#[test]
fn remove_node_takes_its_edges_along() {
    let mut graph = HandicraftGraph::new();
    graph.add_edge(POTION, CONCOCTIONS, 0);
    graph.add_edge(JAM, CONCOCTIONS, 0);
    graph.add_edge(JAM, CONFECTIONS, 0);
    assert_eq!(sorted(graph.neighbors_directed(CONCOCTIONS, Direction::Incoming)), vec![POTION, JAM]);
    assert!(graph.remove_node(JAM));
    assert_eq!(graph.neighbors_directed(CONCOCTIONS, Direction::Incoming), vec![POTION]);
    assert!(graph.neighbors_directed(CONFECTIONS, Direction::Incoming).is_empty());
    assert!(graph.neighbors(JAM).is_empty());
    assert_eq!(graph.neighbors(POTION), vec![CONCOCTIONS]);
}

#[test]
fn self_loop_is_its_own_neighbour_both_ways() {
    let mut graph = HandicraftGraph::new();
    graph.add_edge(POTION, POTION, 0);
    assert_eq!(graph.neighbors(POTION), vec![POTION]);
    assert_eq!(graph.neighbors_directed(POTION, Direction::Incoming), vec![POTION]);
    assert!(graph.remove_node(POTION));
    assert!(graph.neighbors(POTION).is_empty());
}

#[test]
fn node_keys_tell_kind_and_code() {
    assert_eq!(POTION.key(), (0, 0));
    assert_eq!(JAM.key(), (0, 34));
    assert_eq!(CONCOCTIONS.key(), (1, 3));
    assert_eq!(HandicraftGraphNode::from_key((0, 34)), Some(JAM));
    assert_eq!(HandicraftGraphNode::from_key((1, 3)), Some(CONCOCTIONS));
    assert_eq!(HandicraftGraphNode::from_key((0, 50)), None);
    assert_eq!(HandicraftGraphNode::from_key((1, 16)), None);
    assert_eq!(HandicraftGraphNode::from_key((2, 0)), None);
}

#[test]
fn every_code_names_its_entry() {
    for code in 0..=255u8 {
        match HandicraftName::from_code(code) {
            Some(name) => {
                assert!(code < 50);
                assert_eq!(name.code(), code);
            },
            None => assert!(code >= 50),
        }
        match CategoryName::from_code(code) {
            Some(name) => {
                assert!(code < 16);
                assert_eq!(name.code(), code);
            },
            None => assert!(code >= 16),
        }
    }
    assert_eq!(HandicraftName::IsleworksPotion.code(), 0);
    assert_eq!(HandicraftName::IsleworksCrook.code(), 49);
    assert_eq!(CategoryName::Accessories.code(), 0);
    assert_eq!(CategoryName::Woodworks.code(), 15);
}

#[test]
fn unwrapping_gives_what_the_node_holds() {
    assert_eq!(POTION.unwrap_handicraft(), HandicraftName::IsleworksPotion);
    assert_eq!(CONFECTIONS.unwrap_category(), CategoryName::Confections);
}

#[test]
fn catalogue_graph_links_crafts_to_their_categories() {
    let handicrafts = vec![
        Handicraft {
            name: HandicraftName::IsleworksPotion,
            time: 4,
            quantity: 1,
            value: 28,
            category: vec![CategoryName::Concoctions],
            materials: Vec::new(),
        },
        Handicraft {
            name: HandicraftName::IsleberryJam,
            time: 6,
            quantity: 1,
            value: 78,
            category: vec![CategoryName::Concoctions, CategoryName::Confections],
            materials: Vec::new(),
        },
        Handicraft {
            name: HandicraftName::IsleworksPotion,
            time: 4,
            quantity: 1,
            value: 28,
            category: vec![CategoryName::Concoctions],
            materials: Vec::new(),
        },
        Handicraft {
            name: HandicraftName::IsleworksRope,
            time: 4,
            quantity: 1,
            value: 36,
            category: Vec::new(),
            materials: Vec::new(),
        },
    ];
    let (recipe_nodes, mut graph) = create_handicraft_graph(&handicrafts);
    let mut names = recipe_nodes.clone();
    names.sort();
    assert_eq!(
        names,
        vec![HandicraftName::IsleworksPotion, HandicraftName::IsleworksRope, HandicraftName::IsleberryJam]
    );
    assert_eq!(graph.neighbors(POTION), vec![CONCOCTIONS]);
    assert_eq!(sorted(graph.neighbors(JAM)), vec![CONCOCTIONS, CONFECTIONS]);
    assert_eq!(sorted(graph.neighbors_directed(CONCOCTIONS, Direction::Incoming)), vec![POTION, JAM]);
    assert_eq!(graph.neighbors_directed(CONFECTIONS, Direction::Incoming), vec![JAM]);
    assert!(graph.neighbors(HandicraftGraphNode::Handicraft(HandicraftName::IsleworksRope)).is_empty());
    assert!(graph.remove_node(HandicraftGraphNode::Handicraft(HandicraftName::IsleworksRope)));
    assert!(!graph.remove_node(HandicraftGraphNode::Handicraft(HandicraftName::IsleworksBed)));
}

#[test]
fn table_by_craft_keeps_the_last_value() {
    let mut table: HandicraftMap<u32> = HandicraftMap::new();
    assert!(!table.contains_key(HandicraftName::IsleworksHorn));
    assert_eq!(table.get(HandicraftName::IsleworksHorn), None);
    assert_eq!(table.insert(HandicraftName::IsleworksHorn, 1), None);
    assert_eq!(table.insert(HandicraftName::IsleworksHora, 2), None);
    assert_eq!(table.insert(HandicraftName::IsleworksHorn, 3), Some(1));
    assert!(table.contains_key(HandicraftName::IsleworksHorn));
    assert_eq!(table.get(HandicraftName::IsleworksHorn), Some(&3));
    assert_eq!(table.get(HandicraftName::IsleworksHora), Some(&2));
    assert_eq!(table.get(HandicraftName::IsleworksBed), None);
}
