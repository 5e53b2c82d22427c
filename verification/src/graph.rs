//! The in-memory graph and what this crate assumes of it.

use crate::models::{Node, NodeView};
use petgraph::graph::NodeIndex;
use petgraph::Graph;
use vstd::prelude::*;

verus! {

/// `petgraph::Graph`. What a graph holds is known only through
/// [`graph_nodes`] and [`graph_edges`], and only as far as the functions of
/// this module say.
#[verifier::external_type_specification]
#[verifier::external_body]
#[verifier::reject_recursive_types(N)]
#[verifier::reject_recursive_types(E)]
#[verifier::reject_recursive_types(Ty)]
#[verifier::reject_recursive_types(Ix)]
pub struct ExGraph<N, E, Ty, Ix>(petgraph::Graph<N, E, Ty, Ix>);

/// `petgraph::Directed`, the marker of a graph whose edges have a direction.
#[verifier::external_type_specification]
#[verifier::external_body]
pub struct ExDirected(petgraph::Directed);

/// The node weights of a graph, by handle: the node with handle `h` is at
/// position `h`.
pub uninterp spec fn graph_nodes(g: Graph<Node, i32>) -> Seq<NodeView>;

/// The edges of a graph in the order in which it stores them, each as the
/// handle of its source, the handle of its target, and its weight.
pub uninterp spec fn graph_edges(g: Graph<Node, i32>) -> Seq<(u32, u32, i32)>;

/// `Graph::new`: a directed graph without nodes or edges.
#[verifier::external_body]
pub(crate) fn new_graph() -> (g: Graph<Node, i32>)
    ensures
        graph_nodes(g) == Seq::<NodeView>::empty(),
        graph_edges(g) == Seq::<(u32, u32, i32)>::empty(),
{
    Graph::new()
}

/// `Graph::node_count`: how many nodes the graph holds.
#[verifier::external_body]
pub(crate) fn node_count(g: &Graph<Node, i32>) -> (n: usize)
    ensures
        n == graph_nodes(*g).len(),
{
    g.node_count()
}

/// `Graph::edge_count`: how many edges the graph holds.
#[verifier::external_body]
pub(crate) fn edge_count(g: &Graph<Node, i32>) -> (n: usize)
    ensures
        n == graph_edges(*g).len(),
{
    g.edge_count()
}

/// `Graph::raw_nodes`, read at one position: the weight of the node stored
/// there. The slice holds the nodes by handle, so position `i` is handle `i`.
#[verifier::external_body]
pub(crate) fn node_at(g: &Graph<Node, i32>, i: usize) -> (node: &Node)
    requires
        i < graph_nodes(*g).len(),
    ensures
        node@ == graph_nodes(*g)[i as int],
{
    &g.raw_nodes()[i].weight
}

/// `Graph::raw_edges`, read at one position: the source, target and weight
/// of the edge stored there, the two ends as the numbers of their handles.
#[verifier::external_body]
pub(crate) fn edge_at(g: &Graph<Node, i32>, k: usize) -> (edge: (u32, u32, i32))
    requires
        k < graph_edges(*g).len(),
    ensures
        edge == graph_edges(*g)[k as int],
{
    let e = &g.raw_edges()[k];
    (e.source().index() as u32, e.target().index() as u32, e.weight)
}

/// `Graph::node_weight`: the weight of the node with handle `a`, or `None`
/// when the graph has no node with that handle.
#[verifier::external_body]
pub(crate) fn node_weight(g: &Graph<Node, i32>, a: u32) -> (found: Option<&Node>)
    ensures
        match found {
            Some(node) => a < graph_nodes(*g).len() && node@ == graph_nodes(*g)[a as int],
            None => a >= graph_nodes(*g).len(),
        },
{
    g.node_weight(NodeIndex::new(a as usize))
}

/// `Graph::add_node`: appends a node and returns its handle, which is the
/// number of nodes that the graph held before. The edges stay as they were.
/// The call panics in a graph that already holds `u32::MAX` nodes, so such a
/// graph is left out.
#[verifier::external_body]
pub(crate) fn add_node(g: &mut Graph<Node, i32>, node: Node) -> (handle: u32)
    requires
        graph_nodes(*old(g)).len() < u32::MAX,
    ensures
        graph_nodes(*final(g)) == graph_nodes(*old(g)).push(node@),
        graph_edges(*final(g)) == graph_edges(*old(g)),
        handle == graph_nodes(*old(g)).len(),
{
    g.add_node(node).index() as u32
}

/// `Graph::add_edge`: appends an edge from handle `a` to handle `b`. The
/// nodes stay as they were; parallel edges and loops are kept. The call
/// panics when one of the handles is not in the graph or when the graph
/// already holds `u32::MAX` edges, so those inputs are left out.
#[verifier::external_body]
pub(crate) fn add_edge(g: &mut Graph<Node, i32>, a: u32, b: u32, weight: i32)
    requires
        a < graph_nodes(*old(g)).len(),
        b < graph_nodes(*old(g)).len(),
        graph_edges(*old(g)).len() < u32::MAX,
    ensures
        graph_nodes(*final(g)) == graph_nodes(*old(g)),
        graph_edges(*final(g)) == graph_edges(*old(g)).push((a, b, weight)),
{
    g.add_edge(NodeIndex::new(a as usize), NodeIndex::new(b as usize), weight);
}

} // verus!
