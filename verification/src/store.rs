//! The persisted document and the two conversions between it and a graph.

use crate::graph::{
    add_edge, add_node, edge_at, edge_count, graph_edges, graph_nodes, new_graph, node_at,
    node_count, node_weight,
};
use crate::models::{node_views, Node, NodeView};
use petgraph::Graph;
use std::collections::HashMap;
use vstd::prelude::*;

verus! {

/// A persisted edge: its two ends by the stable ids of their nodes.
#[derive(Clone, Copy, Debug, PartialEq, Eq)]
pub struct Edge {
    pub src_id: i32,
    pub target_id: i32,
    pub weight: i32,
}

/// The persisted document: the nodes and the edges, each in stored order.
#[derive(Debug, PartialEq, Eq)]
pub struct SaveData {
    pub nodes: Vec<Node>,
    pub edges: Vec<Edge>,
}

/// What a [`SaveData`] holds.
pub ghost struct SaveDataView {
    pub nodes: Seq<NodeView>,
    pub edges: Seq<Edge>,
}

impl View for SaveData {
    type V = SaveDataView;

    open spec fn view(&self) -> SaveDataView {
        SaveDataView { nodes: node_views(self.nodes@), edges: self.edges@ }
    }
}

/// One end of an edge.
#[derive(Clone, Copy, Debug, PartialEq, Eq)]
pub enum Endpoint {
    Source,
    Target,
}

/// Why a document cannot be rebuilt: the edge at position `edge` names, at
/// its `endpoint`, the id `id`, and no node of the document has that id.
#[derive(Clone, Copy, Debug, PartialEq, Eq)]
pub struct DanglingReference {
    pub edge: usize,
    pub endpoint: Endpoint,
    pub id: i32,
}

impl DanglingReference {
    /// What the failure says to a reader: which end was not found.
    pub fn message(&self) -> (text: String)
        ensures
            text@ == match self.endpoint {
                Endpoint::Source => "Source not found!"@,
                Endpoint::Target => "Target not found"@,
            },
    {
        match self.endpoint {
            Endpoint::Source => "Source not found!".to_owned(),
            Endpoint::Target => "Target not found".to_owned(),
        }
    }
}

/// The persisted form of one stored edge: the ids of the nodes at its two
/// handles. An edge with a handle that is no node of the graph has none.
pub open spec fn persisted_edge(nodes: Seq<NodeView>, link: (u32, u32, i32)) -> Option<Edge> {
    if link.0 < nodes.len() && link.1 < nodes.len() {
        Some(
            Edge {
                src_id: nodes[link.0 as int].id,
                target_id: nodes[link.1 as int].id,
                weight: link.2,
            },
        )
    } else {
        None
    }
}

/// The persisted edges of a graph: those of its stored edges that have a
/// persisted form, in stored order.
pub open spec fn persisted_edges(nodes: Seq<NodeView>, links: Seq<(u32, u32, i32)>) -> Seq<Edge> {
    links.filter_map(|link: (u32, u32, i32)| persisted_edge(nodes, link))
}

/// The nodes of a graph, by handle.
pub fn nodes_of(graph: &Graph<Node, i32>) -> (nodes: Vec<Node>)
    ensures
        node_views(nodes@) == graph_nodes(*graph),
{
    let count = node_count(graph);
    let mut nodes: Vec<Node> = Vec::new();
    let mut i: usize = 0;
    while i < count
        invariant
            i <= count,
            count == graph_nodes(*graph).len(),
            node_views(nodes@) == graph_nodes(*graph).take(i as int),
        decreases count - i,
    {
        let ghost before = nodes@;
        assert(node_views(before).len() == i);
        nodes.push(node_at(graph, i).clone());
        assert forall|j: int| 0 <= j <= i implies #[trigger] node_views(nodes@)[j] == graph_nodes(
            *graph,
        )[j] by {
            if j < i {
                assert(node_views(before)[j] == graph_nodes(*graph).take(i as int)[j]);
            }
        }
        i += 1;
        assert(node_views(nodes@) =~= graph_nodes(*graph).take(i as int));
    }
    assert(graph_nodes(*graph).take(count as int) =~= graph_nodes(*graph));
    nodes
}

/// The persisted edges of a graph. An edge whose source or target is no node
/// of the graph is left out; every other edge is kept, in stored order.
pub fn edges_of(graph: &Graph<Node, i32>) -> (edges: Vec<Edge>)
    ensures
        edges@ == persisted_edges(graph_nodes(*graph), graph_edges(*graph)),
{
    let count = edge_count(graph);
    let mut edges: Vec<Edge> = Vec::new();
    let mut k: usize = 0;
    while k < count
        invariant
            k <= count,
            count == graph_edges(*graph).len(),
            edges@ == persisted_edges(graph_nodes(*graph), graph_edges(*graph).take(k as int)),
        decreases count - k,
    {
        let link = edge_at(graph, k);
        proof {
            graph_edges(*graph).lemma_filter_map_take_succ(
                |link: (u32, u32, i32)| persisted_edge(graph_nodes(*graph), link),
                k as int,
            );
        }
        match node_weight(graph, link.0) {
            Some(source) => match node_weight(graph, link.1) {
                Some(target) => {
                    edges.push(Edge { src_id: source.id, target_id: target.id, weight: link.2 });
                },
                None => {},
            },
            None => {},
        }
        k += 1;
    }
    assert(graph_edges(*graph).take(count as int) =~= graph_edges(*graph));
    edges
}

/// Flattens a graph into its persisted document. The graph is only read.
pub fn flatten(graph: &Graph<Node, i32>) -> (data: SaveData)
    ensures
        data@.nodes == graph_nodes(*graph),
        data@.edges == persisted_edges(graph_nodes(*graph), graph_edges(*graph)),
{
    SaveData { nodes: nodes_of(graph), edges: edges_of(graph) }
}

/// The handle that `id` stands for in a graph built from `nodes` in order:
/// the position of the last node with that id. Where several nodes share an
/// id, the later one takes it over. `None` when no node has the id.
pub open spec fn handle_of(nodes: Seq<NodeView>, id: i32) -> Option<int>
    decreases nodes.len(),
{
    if nodes.len() == 0 {
        None
    } else if nodes.last().id == id {
        Some(nodes.len() - 1)
    } else {
        handle_of(nodes.drop_last(), id)
    }
}

/// The end of `edge` that names no node of `nodes`, the source being looked
/// at first. `None` when both ends name a node.
pub open spec fn dangling_end(nodes: Seq<NodeView>, edge: Edge) -> Option<Endpoint> {
    if handle_of(nodes, edge.src_id) is None {
        Some(Endpoint::Source)
    } else if handle_of(nodes, edge.target_id) is None {
        Some(Endpoint::Target)
    } else {
        None
    }
}

/// Whether every edge of the document names, at both ends, a node of the
/// document.
pub open spec fn is_closed(data: SaveDataView) -> bool {
    forall|k: int| 0 <= k < data.edges.len() ==> dangling_end(data.nodes, #[trigger] data.edges[k]) is None
}

/// Whether `found` reports the first dangling end of the document: the edge
/// is the first with such an end, and the end and the id are those of that
/// edge.
pub open spec fn is_first_dangling(data: SaveDataView, found: DanglingReference) -> bool {
    &&& found.edge < data.edges.len()
    &&& forall|k: int| 0 <= k < found.edge ==> dangling_end(data.nodes, #[trigger] data.edges[k]) is None
    &&& dangling_end(data.nodes, data.edges[found.edge as int]) == Some(found.endpoint)
    &&& found.id == match found.endpoint {
        Endpoint::Source => data.edges[found.edge as int].src_id,
        Endpoint::Target => data.edges[found.edge as int].target_id,
    }
}

/// The stored form of a persisted edge in a graph built from `nodes`.
pub open spec fn resolved_link(nodes: Seq<NodeView>, edge: Edge) -> (u32, u32, i32) {
    (
        handle_of(nodes, edge.src_id).unwrap() as u32,
        handle_of(nodes, edge.target_id).unwrap() as u32,
        edge.weight,
    )
}

/// The stored forms of the persisted edges, in the same order.
pub open spec fn resolved_links(nodes: Seq<NodeView>, edges: Seq<Edge>) -> Seq<(u32, u32, i32)> {
    edges.map_values(|edge: Edge| resolved_link(nodes, edge))
}

/// What `handle_of` finds is a position of `nodes` that holds the id, and no
/// later position holds it; it finds nothing only when no position holds it.
pub proof fn lemma_handle_of(nodes: Seq<NodeView>, id: i32)
    ensures
        match handle_of(nodes, id) {
            Some(h) => {
                &&& 0 <= h < nodes.len()
                &&& nodes[h].id == id
                &&& forall|j: int| h < j < nodes.len() ==> (#[trigger] nodes[j]).id != id
            },
            None => forall|j: int| 0 <= j < nodes.len() ==> (#[trigger] nodes[j]).id != id,
        },
    decreases nodes.len(),
{
    if nodes.len() > 0 && nodes.last().id != id {
        let front = nodes.drop_last();
        lemma_handle_of(front, id);
        assert forall|j: int| 0 <= j < front.len() implies front[j] == nodes[j] by {}
        match handle_of(front, id) {
            Some(h) => {
                assert forall|j: int| h < j < nodes.len() implies (#[trigger] nodes[j]).id != id by {
                    if j < front.len() {
                        assert(front[j].id != id);
                    }
                }
            },
            None => {
                assert forall|j: int| 0 <= j < nodes.len() implies (#[trigger] nodes[j]).id != id by {
                    if j < front.len() {
                        assert(front[j].id != id);
                    }
                }
            },
        }
    }
}

/// Whether `handles` gives each id the handle that it stands for in `nodes`,
/// and knows no id that no node has.
spec fn records(handles: Map<i32, u32>, nodes: Seq<NodeView>) -> bool {
    forall|id: i32|
        match #[trigger] handle_of(nodes, id) {
            Some(h) => handles.contains_key(id) && handles[id] == h,
            None => !handles.contains_key(id),
        }
}

/// Rebuilds a graph from its persisted document.
///
/// The nodes are added in document order, so the node at position `i` gets
/// the handle `i`. Each edge is attached to the nodes that its two ids stand
/// for; an id that several nodes share stands for the last of them. The
/// rebuild fails, and yields no graph, as soon as an edge names an id that
/// no node has; the source is looked at before the target.
///
/// A graph addresses at most `u32::MAX` nodes and as many edges, so larger
/// documents are left out.
pub fn rebuild(data: SaveData) -> (result: Result<Graph<Node, i32>, DanglingReference>)
    requires
        data.nodes.len() <= u32::MAX,
        data.edges.len() <= u32::MAX,
    ensures
        result is Ok <==> is_closed(data@),
        match result {
            Ok(graph) => {
                &&& graph_nodes(graph) == data@.nodes
                &&& graph_edges(graph) == resolved_links(data@.nodes, data@.edges)
            },
            Err(found) => is_first_dangling(data@, found),
        },
{
    broadcast use vstd::std_specs::hash::group_hash_axioms;

    let ghost nodes = data@.nodes;
    let ghost edges = data@.edges;
    let SaveData { nodes: node_list, edges: edge_list } = data;
    let mut graph = new_graph();
    let mut handles: HashMap<i32, u32> = HashMap::new();
    for node in it: node_list
        invariant
            nodes.len() <= u32::MAX,
            node_views(it.seq()) == nodes,
            graph_nodes(graph) == nodes.take(it.index() as int),
            graph_edges(graph) == Seq::<(u32, u32, i32)>::empty(),
            records(handles@, nodes.take(it.index() as int)),
    {
        let id = node.id;
        let ghost i = it.index() as int;
        assert(node@ == nodes[i]) by {
            assert(node_views(it.seq())[i] == nodes[i]);
        }
        let handle = add_node(&mut graph, node);
        handles.insert(id, handle);
        proof {
            let grown = nodes.take(i + 1);
            assert(grown.drop_last() =~= nodes.take(i));
            assert(graph_nodes(graph) =~= grown);
            assert forall|other: i32| other != id implies #[trigger] handle_of(grown, other)
                == handle_of(nodes.take(i), other) by {}
        }
    }
    assert(graph_nodes(graph) =~= nodes);
    let mut k: usize = 0;
    while k < edge_list.len()
        invariant
            k <= edge_list.len(),
            edge_list@ == edges,
            nodes == data@.nodes,
            edges == data@.edges,
            edges.len() <= u32::MAX,
            graph_nodes(graph) == nodes,
            graph_edges(graph) == resolved_links(nodes, edges.take(k as int)),
            forall|j: int| 0 <= j < k ==> dangling_end(nodes, #[trigger] edges[j]) is None,
            records(handles@, nodes),
        decreases edge_list.len() - k,
    {
        let edge = edge_list[k];
        proof {
            lemma_handle_of(nodes, edge.src_id);
            lemma_handle_of(nodes, edge.target_id);
        }
        let source = match handles.get(&edge.src_id) {
            Some(handle) => *handle,
            None => {
                return Err(
                    DanglingReference { edge: k, endpoint: Endpoint::Source, id: edge.src_id },
                );
            },
        };
        let target = match handles.get(&edge.target_id) {
            Some(handle) => *handle,
            None => {
                return Err(
                    DanglingReference { edge: k, endpoint: Endpoint::Target, id: edge.target_id },
                );
            },
        };
        add_edge(&mut graph, source, target, edge.weight);
        k += 1;
        assert(graph_edges(graph) =~= resolved_links(nodes, edges.take(k as int)));
    }
    assert(edges.take(k as int) =~= edges);
    Ok(graph)
}

} // verus!
