//! What flattening and rebuilding keep of a graph and of a document.

use crate::models::NodeView;
use crate::store::{
    dangling_end, handle_of, is_closed, lemma_handle_of, persisted_edge, persisted_edges,
    resolved_link, resolved_links, Edge, SaveDataView,
};
use vstd::prelude::*;

verus! {

/// Whether no two nodes share an id.
pub open spec fn ids_are_unique(nodes: Seq<NodeView>) -> bool {
    forall|i: int, j: int|
        0 <= i < j < nodes.len() ==> (#[trigger] nodes[i]).id != (#[trigger] nodes[j]).id
}

/// Whether both ends of a stored edge are nodes of the graph.
pub open spec fn is_attached(nodes: Seq<NodeView>, link: (u32, u32, i32)) -> bool {
    link.0 < nodes.len() && link.1 < nodes.len()
}

/// The stored edges of a graph that are attached at both ends, in stored
/// order.
pub open spec fn attached_links(nodes: Seq<NodeView>, links: Seq<(u32, u32, i32)>) -> Seq<
    (u32, u32, i32),
> {
    links.filter(|link: (u32, u32, i32)| is_attached(nodes, link))
}

/// Where ids are unique, the id of the node at a handle stands for that
/// handle.
pub proof fn lemma_unique_id_names_its_handle(nodes: Seq<NodeView>, handle: int)
    requires
        ids_are_unique(nodes),
        0 <= handle < nodes.len(),
    ensures
        handle_of(nodes, nodes[handle].id) == Some(handle),
{
    lemma_handle_of(nodes, nodes[handle].id);
}

/// An edge that is not attached at both ends adds nothing to the persisted
/// edges; an attached one adds its persisted form at the end.
pub proof fn lemma_persisted_edges_push(
    nodes: Seq<NodeView>,
    links: Seq<(u32, u32, i32)>,
    link: (u32, u32, i32),
)
    ensures
        persisted_edges(nodes, links.push(link)) == match persisted_edge(nodes, link) {
            Some(edge) => persisted_edges(nodes, links).push(edge),
            None => persisted_edges(nodes, links),
        },
{
    let f = |link: (u32, u32, i32)| persisted_edge(nodes, link);
    let longer = links.push(link);
    assert(longer.drop_last() =~= links);
    assert(longer.filter_map(f) =~= match f(link) {
        Some(edge) => links.filter_map(f).push(edge),
        None => links.filter_map(f),
    });
}

/// Flattening a graph whose nodes have pairwise different ids gives a
/// document that can be rebuilt, and rebuilding it gives the same nodes and,
/// handle for handle and in the same order, the edges of the graph that are
/// attached at both ends. Loops and parallel edges are edges like any other.
pub proof fn lemma_rebuild_after_flatten(nodes: Seq<NodeView>, links: Seq<(u32, u32, i32)>)
    requires
        ids_are_unique(nodes),
    ensures
        is_closed(SaveDataView { nodes, edges: persisted_edges(nodes, links) }),
        resolved_links(nodes, persisted_edges(nodes, links)) == attached_links(nodes, links),
    decreases links.len(),
{
    reveal(Seq::filter);
    let f = |link: (u32, u32, i32)| persisted_edge(nodes, link);
    let p = |link: (u32, u32, i32)| is_attached(nodes, link);
    let edges = persisted_edges(nodes, links);
    if links.len() == 0 {
        assert(resolved_links(nodes, edges) =~= attached_links(nodes, links));
    } else {
        let front = links.drop_last();
        let link = links.last();
        lemma_rebuild_after_flatten(nodes, front);
        let front_edges = persisted_edges(nodes, front);
        match persisted_edge(nodes, link) {
            Some(edge) => {
                assert(edges =~= front_edges.push(edge));
                lemma_unique_id_names_its_handle(nodes, link.0 as int);
                lemma_unique_id_names_its_handle(nodes, link.1 as int);
                assert(resolved_link(nodes, edge) == link);
                assert(resolved_links(nodes, edges) =~= resolved_links(nodes, front_edges).push(
                    link,
                ));
                assert forall|k: int| 0 <= k < edges.len() implies dangling_end(
                    nodes,
                    #[trigger] edges[k],
                ) is None by {
                    if k < front_edges.len() {
                        assert(edges[k] == front_edges[k]);
                    }
                }
            },
            None => {
                assert(edges =~= front_edges);
            },
        }
    }
}

/// In a graph with unique ids whose edges are all attached, as they are in
/// every graph that was built by adding nodes and edges, rebuilding the
/// flattened graph gives back exactly its nodes and its edges.
pub proof fn lemma_round_trip(nodes: Seq<NodeView>, links: Seq<(u32, u32, i32)>)
    requires
        ids_are_unique(nodes),
        forall|k: int| 0 <= k < links.len() ==> is_attached(nodes, #[trigger] links[k]),
    ensures
        is_closed(SaveDataView { nodes, edges: persisted_edges(nodes, links) }),
        resolved_links(nodes, persisted_edges(nodes, links)) == links,
{
    lemma_rebuild_after_flatten(nodes, links);
    lemma_all_attached(nodes, links);
}

/// Where every stored edge is attached, the attached edges are all of them.
proof fn lemma_all_attached(nodes: Seq<NodeView>, links: Seq<(u32, u32, i32)>)
    requires
        forall|k: int| 0 <= k < links.len() ==> is_attached(nodes, #[trigger] links[k]),
    ensures
        attached_links(nodes, links) == links,
    decreases links.len(),
{
    reveal(Seq::filter);
    if links.len() > 0 {
        let front = links.drop_last();
        assert forall|k: int| 0 <= k < front.len() implies is_attached(
            nodes,
            #[trigger] front[k],
        ) by {
            assert(front[k] == links[k]);
        }
        lemma_all_attached(nodes, front);
        assert(is_attached(nodes, links[links.len() - 1]));
        assert(front.push(links.last()) =~= links);
    }
}

/// Rebuilding a document whose edges all name nodes, and flattening the
/// graph again, gives back the edges of the document, whether or not nodes
/// share ids.
pub proof fn lemma_flatten_after_rebuild(nodes: Seq<NodeView>, edges: Seq<Edge>)
    requires
        nodes.len() <= u32::MAX,
        is_closed(SaveDataView { nodes, edges }),
    ensures
        persisted_edges(nodes, resolved_links(nodes, edges)) == edges,
    decreases edges.len(),
{
    let links = resolved_links(nodes, edges);
    if edges.len() == 0 {
        assert(persisted_edges(nodes, links) =~= edges);
    } else {
        let front = edges.drop_last();
        let edge = edges.last();
        assert forall|k: int| 0 <= k < front.len() implies dangling_end(
            nodes,
            #[trigger] front[k],
        ) is None by {
            assert(front[k] == edges[k]);
        }
        lemma_flatten_after_rebuild(nodes, front);
        lemma_handle_of(nodes, edge.src_id);
        lemma_handle_of(nodes, edge.target_id);
        let link = resolved_link(nodes, edge);
        assert(persisted_edge(nodes, link) == Some(edge));
        assert(links =~= resolved_links(nodes, front).push(link));
        lemma_persisted_edges_push(nodes, resolved_links(nodes, front), link);
        assert(front.push(edge) =~= edges);
    }
}

} // verus!
