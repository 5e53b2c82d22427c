//! The payload that the graph carries on each node.

use vstd::prelude::*;

verus! {

/// Where a node was last drawn.
///
/// The two coordinates are single-precision numbers, held here as their
/// IEEE 754 bit patterns. Nothing in this crate computes with them: they are
/// carried through unchanged.
#[derive(Clone, Copy, Debug, PartialEq, Eq)]
pub struct Position {
    pub x_bits: u32,
    pub y_bits: u32,
}

/// A vertex of the graph: a stable id chosen by the caller, and what is
/// shown for it.
#[derive(Debug, PartialEq, Eq)]
pub struct Node {
    pub id: i32,
    pub label: String,
    pub image_src: Option<String>,
    pub position: Option<Position>,
}

/// What a [`Node`] holds, with its texts as sequences of characters.
pub ghost struct NodeView {
    pub id: i32,
    pub label: Seq<char>,
    pub image_src: Option<Seq<char>>,
    pub position: Option<Position>,
}

impl View for Node {
    type V = NodeView;

    open spec fn view(&self) -> NodeView {
        NodeView {
            id: self.id,
            label: self.label@,
            image_src: match self.image_src {
                Some(s) => Some(s@),
                None => None,
            },
            position: self.position,
        }
    }
}

impl Clone for Node {
    fn clone(&self) -> (copy: Self)
        ensures
            copy == *self,
    {
        Node {
            id: self.id,
            label: self.label.clone(),
            image_src: match &self.image_src {
                Some(s) => Some(s.clone()),
                None => None,
            },
            position: self.position,
        }
    }
}

impl Default for Node {
    /// The node with id 0, an empty label, no image and no position.
    fn default() -> (node: Self)
        ensures
            node@ == (NodeView {
                id: 0,
                label: Seq::<char>::empty(),
                image_src: None,
                position: None,
            }),
    {
        Node { id: 0, label: String::new(), image_src: None, position: None }
    }
}

/// The views of a sequence of nodes, in the same order.
pub open spec fn node_views(nodes: Seq<Node>) -> Seq<NodeView> {
    Seq::new(nodes.len(), |i: int| nodes[i]@)
}

} // verus!
