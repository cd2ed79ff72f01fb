//! What holds between the operations of a chain.

use crate::action::Action;
use crate::edge::Edge;
use crate::model::{
    edge_joins, edge_joins_not, edge_leaves, node_has_id, node_lacks_id, ChainView,
};
use crate::node::NodeView;
use crate::search::{first_where, is_first_where, lemma_first_where_is_least};
use crate::transition::{trial_hits, trials};
use crate::weight::Weight;
use vstd::prelude::*;

verus! {

/// After a node is added, a lookup finds what it found before; where it
/// found nothing and asks for the new node's id, it finds the new node.
pub proof fn lemma_get_node_after_add_node(chain: ChainView, node: NodeView, id: u32)
    ensures
        chain.add_node(node).get_node(id) == match chain.get_node(id) {
            Some(first) => Some(first),
            None => if node.id == id {
                Some(node)
            } else {
                None
            },
        },
{
    let p = node_has_id(id);
    let after = chain.nodes.push(node);
    lemma_first_where_is_least(chain.nodes, p);
    match first_where(chain.nodes, p) {
        Some(i) => {
            assert(is_first_where(after, p, i));
        },
        None => {
            if node.id == id {
                assert(is_first_where(after, p, chain.nodes.len() as int));
            } else {
                assert(forall|j: int| 0 <= j < after.len() ==> !p(#[trigger] after[j]));
            }
        },
    }
}

/// A node added to a chain in which no node has its id is the node that a
/// lookup of its id finds.
pub proof fn law_add_node_get_node(chain: ChainView, node: NodeView)
    requires
        !chain.node_exists(node.id),
    ensures
        chain.add_node(node).get_node(node.id) == Some(node),
{
    lemma_get_node_after_add_node(chain, node, node.id);
}

/// After the nodes with an id are removed, a lookup of the id finds nothing.
pub proof fn law_remove_node_get_node(chain: ChainView, id: u32)
    ensures
        chain.remove_node(id).get_node(id).is_none(),
        !chain.remove_node(id).node_exists(id),
{
    let kept = chain.nodes.filter(node_lacks_id(id));
    assert forall|j: int| 0 <= j < kept.len() implies !node_has_id(id)(#[trigger] kept[j]) by {
        chain.nodes.lemma_filter_pred(node_lacks_id(id), j);
    }
}

/// After an edge is added, a lookup finds what it found before; where it
/// found nothing and asks for the new edge's ends, it finds the new edge.
pub proof fn lemma_get_edge_after_add_edge(chain: ChainView, edge: Edge, from: u32, to: u32)
    ensures
        chain.add_edge(edge).get_edge(from, to) == match chain.get_edge(from, to) {
            Some(first) => Some(first),
            None => if edge.joins(from, to) {
                Some(edge)
            } else {
                None
            },
        },
{
    let p = edge_joins(from, to);
    let after = chain.edges.push(edge);
    lemma_first_where_is_least(chain.edges, p);
    match first_where(chain.edges, p) {
        Some(i) => {
            assert(is_first_where(after, p, i));
        },
        None => {
            if edge.joins(from, to) {
                assert(is_first_where(after, p, chain.edges.len() as int));
            } else {
                assert(forall|j: int| 0 <= j < after.len() ==> !p(#[trigger] after[j]));
            }
        },
    }
}

/// An edge added to a chain in which no edge joins its ends is the edge
/// that a lookup of its ends finds.
pub proof fn law_add_edge_get_edge(chain: ChainView, edge: Edge)
    requires
        !chain.edge_exists(edge.from, edge.to),
    ensures
        chain.add_edge(edge).get_edge(edge.from, edge.to) == Some(edge),
{
    lemma_get_edge_after_add_edge(chain, edge, edge.from, edge.to);
}

/// After the edges from one id to another are removed, a lookup of the two
/// ids finds nothing.
pub proof fn law_remove_edge_get_edge(chain: ChainView, from: u32, to: u32)
    ensures
        chain.remove_edge(from, to).get_edge(from, to).is_none(),
        !chain.remove_edge(from, to).edge_exists(from, to),
{
    let kept = chain.edges.filter(edge_joins_not(from, to));
    assert forall|j: int| 0 <= j < kept.len() implies !edge_joins(from, to)(#[trigger] kept[j]) by {
        chain.edges.lemma_filter_pred(edge_joins_not(from, to), j);
    }
}

/// After actions are added to the node with an id, the actions of that
/// node are the earlier ones followed by the added ones.
pub proof fn law_add_node_actions_get_node_actions(
    chain: ChainView,
    id: u32,
    actions: Seq<Action>,
)
    ensures
        chain.add_node_actions(id, actions).get_node_actions(id) == match chain.get_node_actions(
            id,
        ) {
            Some(earlier) => Some(earlier + actions),
            None => None,
        },
{
    let p = node_has_id(id);
    lemma_first_where_is_least(chain.nodes, p);
    match first_where(chain.nodes, p) {
        Some(i) => {
            assert(is_first_where(chain.add_node_actions(id, actions).nodes, p, i));
        },
        None => {},
    }
}

/// A step that goes through moves the current node to the far end of an
/// edge that leaves it, and changes nothing else. So a chain with a current
/// node never comes to be without one.
pub proof fn law_next_follows_an_outgoing_edge(chain: ChainView, offsets: Seq<Weight>)
    ensures
        match chain.next(offsets) {
            Ok(after) => match chain.current_node {
                Some(id) => exists|i: int|
                    0 <= i < chain.edges.len() && (#[trigger] chain.edges[i]).from == id && after
                        == chain.at(Some(chain.edges[i].to)),
                None => false,
            },
            Err(_) => true,
        },
{
    if let Ok(after) = chain.next(offsets) {
        let id = chain.current_node.unwrap();
        let outgoing = chain.outgoing(id);
        let all = trials(outgoing, offsets);
        lemma_first_where_is_least(all, trial_hits());
        let k = first_where(all, trial_hits()).unwrap();
        let edge = outgoing[k];
        chain.edges.lemma_filter_pred(edge_leaves(id), k);
        chain.edges.lemma_filter_contains_rev(edge_leaves(id), edge);
        let i = choose|i: int| 0 <= i < chain.edges.len() && chain.edges[i] == edge;
        assert(chain.edges[i].from == id && after == chain.at(Some(chain.edges[i].to)));
    }
}

} // verus!
