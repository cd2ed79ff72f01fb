//! The chain as a mathematical value, and what each operation makes of it.

use crate::action::Action;
use crate::edge::Edge;
use crate::error::MarkovChainError;
use crate::node::NodeView;
use crate::search::{any_where, first_match, first_where};
use crate::transition::selected;
use crate::weight::Weight;
use vstd::prelude::*;

verus! {

/// Holds of the nodes with the given id.
pub open spec fn node_has_id(id: u32) -> spec_fn(NodeView) -> bool {
    |n: NodeView| n.id == id
}

/// Holds of the nodes with another id than the given one.
pub open spec fn node_lacks_id(id: u32) -> spec_fn(NodeView) -> bool {
    |n: NodeView| n.id != id
}

/// Holds of the actions with the given id.
pub open spec fn action_has_id(id: u32) -> spec_fn(Action) -> bool {
    |a: Action| a.id == id
}

/// Holds of the edges that lead from `from` to `to`.
pub open spec fn edge_joins(from: u32, to: u32) -> spec_fn(Edge) -> bool {
    |e: Edge| e.joins(from, to)
}

/// Holds of the edges that do not lead from `from` to `to`.
pub open spec fn edge_joins_not(from: u32, to: u32) -> spec_fn(Edge) -> bool {
    |e: Edge| !e.joins(from, to)
}

/// Holds of the edges that leave the node `id`.
pub open spec fn edge_leaves(id: u32) -> spec_fn(Edge) -> bool {
    |e: Edge| e.from == id
}

/// Holds of the edges that enter the node `id`.
pub open spec fn edge_enters(id: u32) -> spec_fn(Edge) -> bool {
    |e: Edge| e.to == id
}

/// A chain: its nodes and its edges, each in the order of insertion, and
/// the id of the current node, if one is set.
pub struct ChainView {
    pub nodes: Seq<NodeView>,
    pub edges: Seq<Edge>,
    pub current_node: Option<u32>,
}

impl ChainView {
    /// A chain of the given nodes and edges, without a current node.
    pub open spec fn new(nodes: Seq<NodeView>, edges: Seq<Edge>) -> ChainView {
        ChainView { nodes, edges, current_node: None }
    }

    /// The chain with its current node replaced.
    pub open spec fn at(self, current_node: Option<u32>) -> ChainView {
        ChainView { nodes: self.nodes, edges: self.edges, current_node }
    }

    /// The chain with `node` after its nodes.
    pub open spec fn add_node(self, node: NodeView) -> ChainView {
        ChainView {
            nodes: self.nodes.push(node),
            edges: self.edges,
            current_node: self.current_node,
        }
    }

    /// The chain with `nodes` after its nodes.
    pub open spec fn add_nodes(self, nodes: Seq<NodeView>) -> ChainView {
        ChainView {
            nodes: self.nodes + nodes,
            edges: self.edges,
            current_node: self.current_node,
        }
    }

    /// The chain with `edge` after its edges.
    pub open spec fn add_edge(self, edge: Edge) -> ChainView {
        ChainView {
            nodes: self.nodes,
            edges: self.edges.push(edge),
            current_node: self.current_node,
        }
    }

    /// The chain without the nodes that have the id; the others stay in
    /// their order, and the current node stays as it is.
    pub open spec fn remove_node(self, id: u32) -> ChainView {
        ChainView {
            nodes: self.nodes.filter(node_lacks_id(id)),
            edges: self.edges,
            current_node: self.current_node,
        }
    }

    /// The chain without the edges from `from` to `to`; the others stay in
    /// their order.
    pub open spec fn remove_edge(self, from: u32, to: u32) -> ChainView {
        ChainView {
            nodes: self.nodes,
            edges: self.edges.filter(edge_joins_not(from, to)),
            current_node: self.current_node,
        }
    }

    /// The first node with the id.
    pub open spec fn get_node(self, id: u32) -> Option<NodeView> {
        first_match(self.nodes, node_has_id(id))
    }

    /// The first edge from `from` to `to`.
    pub open spec fn get_edge(self, from: u32, to: u32) -> Option<Edge> {
        first_match(self.edges, edge_joins(from, to))
    }

    /// The chain with `actions` after the actions of the first node with the
    /// id; the chain itself where no node has the id.
    pub open spec fn add_node_actions(self, id: u32, actions: Seq<Action>) -> ChainView {
        match first_where(self.nodes, node_has_id(id)) {
            Some(i) => ChainView {
                nodes: self.nodes.update(
                    i,
                    NodeView { id: self.nodes[i].id, actions: self.nodes[i].actions + actions },
                ),
                edges: self.edges,
                current_node: self.current_node,
            },
            None => self,
        }
    }

    /// The actions of the first node with the id.
    pub open spec fn get_node_actions(self, id: u32) -> Option<Seq<Action>> {
        match self.get_node(id) {
            Some(node) => Some(node.actions),
            None => None,
        }
    }

    /// The first action with `action_id` among those of the first node with
    /// `id`.
    pub open spec fn get_node_action(self, id: u32, action_id: u32) -> Option<Action> {
        match self.get_node(id) {
            Some(node) => first_match(node.actions, action_has_id(action_id)),
            None => None,
        }
    }

    /// The id itself, where some edge leaves it.
    pub open spec fn get_edge_from(self, id: u32) -> Option<u32> {
        if any_where(self.edges, edge_leaves(id)) {
            Some(id)
        } else {
            None
        }
    }

    /// The id itself, where some edge enters it.
    pub open spec fn get_edge_to(self, id: u32) -> Option<u32> {
        if any_where(self.edges, edge_enters(id)) {
            Some(id)
        } else {
            None
        }
    }

    /// Whether some node has the id.
    pub open spec fn node_exists(self, id: u32) -> bool {
        any_where(self.nodes, node_has_id(id))
    }

    /// Whether some edge leads from `from` to `to`.
    pub open spec fn edge_exists(self, from: u32, to: u32) -> bool {
        any_where(self.edges, edge_joins(from, to))
    }

    /// The edges that leave `id`, in their order, whether or not a node has
    /// the id.
    pub open spec fn outgoing(self, id: u32) -> Seq<Edge> {
        self.edges.filter(edge_leaves(id))
    }

    /// The edges that leave the node `id`; a failure where no node has the
    /// id.
    pub open spec fn get_node_edges(self, id: u32) -> Result<Seq<Edge>, MarkovChainError> {
        if self.node_exists(id) {
            Ok(self.outgoing(id))
        } else {
            Err(MarkovChainError::NodeDoesNotExistError)
        }
    }

    /// The chain with `id` as its current node; a failure where no node has
    /// the id.
    pub open spec fn set_current_node(self, id: u32) -> Result<ChainView, MarkovChainError> {
        if self.node_exists(id) {
            Ok(self.at(Some(id)))
        } else {
            Err(MarkovChainError::NodeDoesNotExistError)
        }
    }

    /// The edges among which a step chooses: those that leave the current
    /// node. A failure where no current node is set, where no node has its
    /// id any more, or where no edge leaves it.
    pub open spec fn choices(self) -> Result<Seq<Edge>, MarkovChainError> {
        match self.current_node {
            None => Err(MarkovChainError::NodeDoesNotExistError),
            Some(id) => if self.node_exists(id) && self.outgoing(id).len() > 0 {
                Ok(self.outgoing(id))
            } else {
                Err(MarkovChainError::NodeHasNoEdgesError)
            },
        }
    }

    /// The chain after one step, for the given offsets: the current node is
    /// the end of the selected edge. A failure where there is nothing to
    /// choose from, or where no edge is selected.
    pub open spec fn next(self, offsets: Seq<Weight>) -> Result<ChainView, MarkovChainError> {
        match self.choices() {
            Err(e) => Err(e),
            Ok(edges) => match selected(edges, offsets) {
                Some(edge) => Ok(self.at(Some(edge.to))),
                None => Err(MarkovChainError::TransitionFailedError),
            },
        }
    }
}

} // verus!
