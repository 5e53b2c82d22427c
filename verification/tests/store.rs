use network_grapher::models::{Node, Position};
use network_grapher::store::{
    edges_of, flatten, nodes_of, rebuild, DanglingReference, Edge, Endpoint, SaveData,
};
use petgraph::graph::NodeIndex;
use petgraph::Graph;

fn node(id: i32, label: &str) -> Node {
    Node { id, label: label.to_string(), image_src: None, position: None }
}

fn edge(src_id: i32, target_id: i32, weight: i32) -> Edge {
    Edge { src_id, target_id, weight }
}

fn links(graph: &Graph<Node, i32>) -> Vec<(usize, usize, i32)> {
    graph
        .raw_edges()
        .iter()
        .map(|e| (e.source().index(), e.target().index(), e.weight))
        .collect()
}

fn weights(graph: &Graph<Node, i32>) -> Vec<Node> {
    graph.raw_nodes().iter().map(|n| n.weight.clone()).collect()
}

#[test]
fn flatten_names_edges_by_id() {
    let mut graph = Graph::<Node, i32>::new();
    let a = graph.add_node(node(10, "a"));
    let b = graph.add_node(node(20, "b"));
    let c = graph.add_node(node(30, "c"));
    graph.add_edge(a, c, 4);
    graph.add_edge(c, b, -1);
    let data = flatten(&graph);
    assert_eq!(data.nodes, vec![node(10, "a"), node(20, "b"), node(30, "c")]);
    assert_eq!(data.edges, vec![edge(10, 30, 4), edge(30, 20, -1)]);
}

#[test]
fn flatten_only_reads_the_graph() {
    let mut graph = Graph::<Node, i32>::new();
    let a = graph.add_node(node(1, "a"));
    let b = graph.add_node(node(2, "b"));
    graph.add_edge(a, b, 9);
    let first = flatten(&graph);
    let second = flatten(&graph);
    assert_eq!(first, second);
    assert_eq!(weights(&graph), vec![node(1, "a"), node(2, "b")]);
    assert_eq!(links(&graph), vec![(0, 1, 9)]);
}

#[test]
fn nodes_of_copies_every_field() {
    let full = Node {
        id: -7,
        label: "Grandmother".to_string(),
        image_src: Some("https://placehold.co/100".to_string()),
        position: Some(Position { x_bits: 1.5f32.to_bits(), y_bits: (-2.25f32).to_bits() }),
    };
    let mut graph = Graph::<Node, i32>::new();
    graph.add_node(full.clone());
    graph.add_node(node(8, ""));
    let nodes = nodes_of(&graph);
    assert_eq!(nodes, vec![full, node(8, "")]);
    assert_eq!(nodes[0].position.unwrap().x_bits, 0x3fc0_0000);
}

#[test]
fn edges_of_keeps_stored_order() {
    let mut graph = Graph::<Node, i32>::new();
    let a = graph.add_node(node(3, "a"));
    let b = graph.add_node(node(2, "b"));
    let c = graph.add_node(node(1, "c"));
    graph.add_edge(c, a, 30);
    graph.add_edge(a, b, 10);
    graph.add_edge(b, c, 20);
    assert_eq!(edges_of(&graph), vec![edge(1, 3, 30), edge(3, 2, 10), edge(2, 1, 20)]);
}

#[test]
fn rebuild_gives_handles_in_document_order() {
    let data = SaveData {
        nodes: vec![node(100, "x"), node(-5, "y"), node(7, "z")],
        edges: vec![edge(7, 100, 1), edge(-5, 7, 2)],
    };
    let graph = rebuild(data).unwrap();
    assert_eq!(weights(&graph), vec![node(100, "x"), node(-5, "y"), node(7, "z")]);
    assert_eq!(links(&graph), vec![(2, 0, 1), (1, 2, 2)]);
    assert_eq!(graph.node_weight(NodeIndex::new(1)).unwrap().id, -5);
}

#[test]
fn round_trip_keeps_nodes_and_edges() {
    let mut graph = Graph::<Node, i32>::new();
    let a = graph.add_node(Node {
        id: 1,
        label: "Father".to_string(),
        image_src: Some("father.png".to_string()),
        position: Some(Position { x_bits: 0, y_bits: 200.0f32.to_bits() }),
    });
    let b = graph.add_node(node(2, "Mother"));
    let c = graph.add_node(node(3, "Child"));
    graph.add_edge(a, c, 0);
    graph.add_edge(b, c, 5);
    graph.add_edge(c, a, i32::MIN);
    let again = rebuild(flatten(&graph)).unwrap();
    assert_eq!(weights(&again), weights(&graph));
    assert_eq!(links(&again), links(&graph));
    assert_eq!(flatten(&again), flatten(&graph));
}

#[test]
fn document_survives_rebuild_and_flatten() {
    let nodes = vec![node(4, "a"), node(9, "b"), node(4, "c")];
    let edges = vec![edge(4, 9, 1), edge(9, 4, 2), edge(4, 4, 3)];
    let graph = rebuild(SaveData { nodes: nodes.clone(), edges: edges.clone() }).unwrap();
    assert_eq!(flatten(&graph), SaveData { nodes, edges });
}

#[test]
fn empty_graph_round_trips() {
    let graph = Graph::<Node, i32>::new();
    let data = flatten(&graph);
    assert_eq!(data, SaveData { nodes: vec![], edges: vec![] });
    let again = rebuild(data).unwrap();
    assert_eq!(again.node_count(), 0);
    assert_eq!(again.edge_count(), 0);
}

#[test]
fn nodes_without_edges_round_trip() {
    let data = SaveData { nodes: vec![node(1, "alone")], edges: vec![] };
    let graph = rebuild(data).unwrap();
    assert_eq!(graph.node_count(), 1);
    assert_eq!(graph.edge_count(), 0);
    assert_eq!(flatten(&graph), SaveData { nodes: vec![node(1, "alone")], edges: vec![] });
}

#[test]
fn self_loop_round_trips() {
    let mut graph = Graph::<Node, i32>::new();
    let a = graph.add_node(node(42, "narcissus"));
    graph.add_edge(a, a, 3);
    let data = flatten(&graph);
    assert_eq!(data.edges, vec![edge(42, 42, 3)]);
    let again = rebuild(data).unwrap();
    assert_eq!(links(&again), vec![(0, 0, 3)]);
}

#[test]
fn parallel_edges_are_not_merged() {
    let mut graph = Graph::<Node, i32>::new();
    let a = graph.add_node(node(1, "a"));
    let b = graph.add_node(node(2, "b"));
    graph.add_edge(a, b, 10);
    graph.add_edge(a, b, 20);
    graph.add_edge(a, b, 10);
    let data = flatten(&graph);
    assert_eq!(data.edges, vec![edge(1, 2, 10), edge(1, 2, 20), edge(1, 2, 10)]);
    let again = rebuild(data).unwrap();
    assert_eq!(links(&again), vec![(0, 1, 10), (0, 1, 20), (0, 1, 10)]);
}

#[test]
fn dangling_source_fails_the_rebuild() {
    let data = SaveData { nodes: vec![node(1, "a"), node(2, "b")], edges: vec![edge(3, 1, 0)] };
    let failure = rebuild(data).unwrap_err();
    assert_eq!(failure, DanglingReference { edge: 0, endpoint: Endpoint::Source, id: 3 });
    assert_eq!(failure.message(), "Source not found!");
}

#[test]
fn dangling_target_fails_the_rebuild() {
    let data = SaveData { nodes: vec![node(1, "a"), node(2, "b")], edges: vec![edge(2, 99, 0)] };
    let failure = rebuild(data).unwrap_err();
    assert_eq!(failure, DanglingReference { edge: 0, endpoint: Endpoint::Target, id: 99 });
    assert_eq!(failure.message(), "Target not found");
}

#[test]
fn source_is_looked_at_before_target() {
    let data = SaveData { nodes: vec![node(1, "a")], edges: vec![edge(7, 8, 0)] };
    let failure = rebuild(data).unwrap_err();
    assert_eq!(failure, DanglingReference { edge: 0, endpoint: Endpoint::Source, id: 7 });
}

#[test]
fn first_dangling_edge_is_reported() {
    let data = SaveData {
        nodes: vec![node(1, "a"), node(2, "b")],
        edges: vec![edge(1, 2, 0), edge(2, 1, 0), edge(1, 5, 0), edge(6, 1, 0)],
    };
    let failure = rebuild(data).unwrap_err();
    assert_eq!(failure, DanglingReference { edge: 2, endpoint: Endpoint::Target, id: 5 });
}

#[test]
fn edge_without_any_node_fails_the_rebuild() {
    let data = SaveData { nodes: vec![], edges: vec![edge(0, 0, 0)] };
    let failure = rebuild(data).unwrap_err();
    assert_eq!(failure, DanglingReference { edge: 0, endpoint: Endpoint::Source, id: 0 });
}

#[test]
fn duplicate_id_stands_for_the_last_node() {
    let data = SaveData {
        nodes: vec![node(5, "first"), node(6, "other"), node(5, "second")],
        edges: vec![edge(5, 6, 1), edge(6, 5, 2), edge(5, 5, 3)],
    };
    let graph = rebuild(data).unwrap();
    assert_eq!(graph.node_count(), 3);
    assert_eq!(weights(&graph)[0], node(5, "first"));
    assert_eq!(weights(&graph)[2], node(5, "second"));
    assert_eq!(links(&graph), vec![(2, 1, 1), (1, 2, 2), (2, 2, 3)]);
}

#[test]
fn removed_node_takes_its_edges_along() {
    let mut graph = Graph::<Node, i32>::new();
    let a = graph.add_node(node(1, "a"));
    let b = graph.add_node(node(2, "b"));
    let c = graph.add_node(node(3, "c"));
    graph.add_edge(a, b, 1);
    graph.add_edge(b, c, 2);
    graph.add_edge(c, a, 3);
    graph.remove_node(a);
    let data = flatten(&graph);
    assert_eq!(data.nodes, vec![node(3, "c"), node(2, "b")]);
    assert_eq!(data.edges, vec![edge(2, 3, 2)]);
    let again = rebuild(data).unwrap();
    assert_eq!(links(&again), vec![(1, 0, 2)]);
}
