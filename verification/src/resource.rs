//! The graph on display, and the one that is shown before anything was saved.

use crate::graph::{add_edge, add_node, graph_edges, graph_nodes, new_graph};
use crate::models::{Node, NodeView};
use petgraph::Graph;
use vstd::prelude::*;

verus! {

/// The owner of the graph on display. Whoever draws the graph or saves it
/// reads it through this value.
pub struct GraphResource(pub Graph<Node, i32>);

impl std::ops::Deref for GraphResource {
    type Target = Graph<Node, i32>;

    fn deref(&self) -> (graph: &Graph<Node, i32>)
        ensures
            *graph == self.0,
    {
        &self.0
    }
}

/// A person of the sample family, as the graph holds it: the given id and
/// label, the placeholder picture, and no position yet.
pub open spec fn person_view(id: i32, label: Seq<char>) -> NodeView {
    NodeView { id, label, image_src: Some("https://placehold.co/100"@), position: None }
}

/// A person of the sample family.
pub fn person(id: i32, label: &str) -> (node: Node)
    ensures
        node@ == person_view(id, label@),
{
    Node {
        id,
        label: label.to_owned(),
        image_src: Some("https://placehold.co/100".to_owned()),
        position: None,
    }
}

/// A family of three: a father and a mother, each with an edge of weight 0
/// to their child.
pub fn setup_graph() -> (resource: GraphResource)
    ensures
        graph_nodes(resource.0) == seq![
            person_view(1, "Father"@),
            person_view(2, "Mother"@),
            person_view(3, "Child"@),
        ],
        graph_edges(resource.0) == seq![(0u32, 2u32, 0i32), (1u32, 2u32, 0i32)],
{
    let mut graph = new_graph();
    let father = add_node(&mut graph, person(1, "Father"));
    let mother = add_node(&mut graph, person(2, "Mother"));
    let child = add_node(&mut graph, person(3, "Child"));
    add_edge(&mut graph, father, child, 0);
    add_edge(&mut graph, mother, child, 0);
    GraphResource(graph)
}

} // verus!
