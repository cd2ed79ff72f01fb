//! The chain itself: nodes, edges and a current position.

use crate::action::Action;
use crate::edge::Edge;
use crate::error::MarkovChainError;
use crate::model::{
    action_has_id, edge_joins, edge_joins_not, edge_leaves, node_has_id, node_lacks_id,
    ChainView,
};
use crate::node::{Node, NodeView};
use crate::search::{
    first_where, is_first_where, lemma_filter_push, lemma_first_where_absent,
    lemma_first_where_found,
};
use crate::transition::{select, weights, weights_of};
use crate::weight::Weight;
use vstd::prelude::*;

verus! {

/// The nodes of a list as mathematical values.
pub open spec fn node_views(nodes: Seq<Node>) -> Seq<NodeView> {
    Seq::new(nodes.len(), |i: int| nodes[i]@)
}

/// What a lookup of a node found, as a mathematical value.
pub open spec fn found_node(found: Option<&Node>) -> Option<NodeView> {
    match found {
        Some(node) => Some(node@),
        None => None,
    }
}

/// What a lookup of an edge found, as a value.
pub open spec fn found_edge(found: Option<&Edge>) -> Option<Edge> {
    match found {
        Some(edge) => Some(*edge),
        None => None,
    }
}

/// What a lookup of a node's actions found, as a mathematical value.
pub open spec fn found_actions(found: Option<&Vec<Action>>) -> Option<Seq<Action>> {
    match found {
        Some(actions) => Some(actions@),
        None => None,
    }
}

/// What a lookup of an action found, as a value.
pub open spec fn found_action(found: Option<&Action>) -> Option<Action> {
    match found {
        Some(action) => Some(*action),
        None => None,
    }
}

/// What a lookup of an id found, as a value.
pub open spec fn found_id(found: Option<&u32>) -> Option<u32> {
    match found {
        Some(id) => Some(*id),
        None => None,
    }
}

/// What a lookup of a node's edges gave, as a mathematical value.
pub open spec fn found_edges(outgoing: Result<Vec<Edge>, MarkovChainError>) -> Result<
    Seq<Edge>,
    MarkovChainError,
> {
    match outgoing {
        Ok(edges) => Ok(edges@),
        Err(e) => Err(e),
    }
}

/// `done` and `after` are what one step from `before` gives for the given
/// offsets: the chain after the step, or the failure and the chain as it
/// was.
pub open spec fn stepped(
    before: ChainView,
    offsets: Seq<Weight>,
    done: Result<(), MarkovChainError>,
    after: ChainView,
) -> bool {
    match before.next(offsets) {
        Ok(chain) => done == Ok::<(), MarkovChainError>(()) && after == chain,
        Err(e) => done == Err::<(), MarkovChainError>(e) && after == before,
    }
}

/// A step from a chain without a current node fails with
/// `NodeDoesNotExistError`, and a step from a current node that no edge
/// leaves fails with `NodeHasNoEdgesError`.
pub open spec fn refused(before: ChainView, done: Result<(), MarkovChainError>) -> bool {
    match before.current_node {
        None => done == Err::<(), MarkovChainError>(MarkovChainError::NodeDoesNotExistError),
        Some(id) => before.outgoing(id).len() == 0 ==> done == Err::<(), MarkovChainError>(
            MarkovChainError::NodeHasNoEdgesError,
        ),
    }
}

/// Holds of the edges that leave `from`, where one is given, and enter `to`,
/// where one is given.
spec fn edge_fits(from: Option<u32>, to: Option<u32>) -> spec_fn(Edge) -> bool {
    |e: Edge|
        (match from {
            Some(id) => e.from == id,
            None => true,
        }) && (match to {
            Some(id) => e.to == id,
            None => true,
        })
}

/// A weighted directed graph with a current position. Ids need not be
/// unique: a lookup finds the first node, or edge, that fits.
#[derive(Debug)]
pub struct MarkovChain {
    nodes: Vec<Node>,
    edges: Vec<Edge>,
    current_node: Option<u32>,
}

impl View for MarkovChain {
    type V = ChainView;

    closed spec fn view(&self) -> ChainView {
        ChainView {
            nodes: node_views(self.nodes@),
            edges: self.edges@,
            current_node: self.current_node,
        }
    }
}

impl MarkovChain {
    /// A chain of the given nodes and edges, each list empty where none is
    /// given, without a current node.
    pub fn new(nodes: Option<Vec<Node>>, edges: Option<Vec<Edge>>) -> (chain: MarkovChain)
        ensures
            chain@ == ChainView::new(
                match nodes {
                    Some(list) => node_views(list@),
                    None => Seq::empty(),
                },
                match edges {
                    Some(list) => list@,
                    None => Seq::empty(),
                },
            ),
    {
        let nodes = match nodes {
            Some(list) => list,
            None => Vec::new(),
        };
        let edges = match edges {
            Some(list) => list,
            None => Vec::new(),
        };
        proof {
            assert(node_views(Seq::<Node>::empty()) =~= Seq::<NodeView>::empty());
        }
        MarkovChain { nodes, edges, current_node: None }
    }

    /// A chain of the given nodes and edges with the given current node,
    /// which need not be the id of one of the nodes.
    pub fn restore(nodes: Vec<Node>, edges: Vec<Edge>, current_node: Option<u32>) -> (chain:
        MarkovChain)
        ensures
            chain@ == ChainView::new(node_views(nodes@), edges@).at(current_node),
    {
        MarkovChain { nodes, edges, current_node }
    }

    /// The nodes, in the order of insertion.
    pub fn nodes(&self) -> (list: &Vec<Node>)
        ensures
            node_views(list@) == self@.nodes,
    {
        &self.nodes
    }

    /// The edges, in the order of insertion.
    pub fn edges(&self) -> (list: &Vec<Edge>)
        ensures
            list@ == self@.edges,
    {
        &self.edges
    }

    /// Puts `node` after the nodes of the chain.
    pub fn add_node(&mut self, node: Node)
        ensures
            final(self)@ == old(self)@.add_node(node@),
    {
        self.nodes.push(node);
        proof {
            assert(node_views(self.nodes@) =~= node_views(old(self).nodes@).push(node@));
        }
    }

    /// Puts copies of `nodes`, in their order, after the nodes of the chain.
    pub fn add_nodes(&mut self, nodes: &[Node])
        ensures
            final(self)@ == old(self)@.add_nodes(node_views(nodes@)),
    {
        let mut i: usize = 0;
        while i < nodes.len()
            invariant
                i <= nodes.len(),
                self.edges == old(self).edges,
                self.current_node == old(self).current_node,
                node_views(self.nodes@) == node_views(old(self).nodes@) + node_views(
                    nodes@,
                ).take(i as int),
            decreases nodes.len() - i,
        {
            let copy = nodes[i].clone();
            let ghost before = self.nodes@;
            self.nodes.push(copy);
            proof {
                let given = node_views(nodes@);
                assert(node_views(self.nodes@) =~= node_views(before).push(copy@));
            }
            i += 1;
        }
        proof {
            assert(node_views(nodes@).take(i as int) =~= node_views(nodes@));
        }
    }

    /// Puts `edge` after the edges of the chain.
    pub fn add_edge(&mut self, edge: Edge)
        ensures
            final(self)@ == old(self)@.add_edge(edge),
    {
        self.edges.push(edge);
    }

    /// Takes out every node with the id. The other nodes keep their order,
    /// and the current node stays as it is, also where it was taken out.
    pub fn remove_node(&mut self, node_id: u32)
        ensures
            final(self)@ == old(self)@.remove_node(node_id),
    {
        let mut given: Vec<Node> = Vec::new();
        std::mem::swap(&mut self.nodes, &mut given);
        let ghost views = node_views(given@);
        let ghost keep = node_lacks_id(node_id);
        proof {
            reveal(Seq::filter);
        }
        for node in it: given
            invariant
                self.edges == old(self).edges,
                self.current_node == old(self).current_node,
                views == node_views(old(self).nodes@),
                views == node_views(it.seq()),
                keep == node_lacks_id(node_id),
                node_views(self.nodes@) == views.take(it.index() as int).filter(keep),
        {
            let ghost before = self.nodes@;
            let ghost k = it.index() as int;
            proof {
                assert(views.take(k + 1) =~= views.take(k).push(node@));
                lemma_filter_push(views.take(k), node@, keep);
            }
            if node.id != node_id {
                self.nodes.push(node);
            }
        }
        proof {
            assert(views.take(views.len() as int) =~= views);
        }
    }

    /// Takes out every edge from `from_node_id` to `to_node_id`. The other
    /// edges keep their order.
    pub fn remove_edge(&mut self, from_node_id: u32, to_node_id: u32)
        ensures
            final(self)@ == old(self)@.remove_edge(from_node_id, to_node_id),
    {
        let ghost keep = edge_joins_not(from_node_id, to_node_id);
        let mut kept: Vec<Edge> = Vec::new();
        let mut i: usize = 0;
        proof {
            reveal(Seq::filter);
        }
        while i < self.edges.len()
            invariant
                i <= self.edges.len(),
                self.edges == old(self).edges,
                self.nodes == old(self).nodes,
                self.current_node == old(self).current_node,
                keep == edge_joins_not(from_node_id, to_node_id),
                kept@ == self.edges@.take(i as int).filter(keep),
            decreases self.edges.len() - i,
        {
            let edge = self.edges[i];
            proof {
                assert(self.edges@.take(i + 1) =~= self.edges@.take(i as int).push(edge));
                lemma_filter_push(self.edges@.take(i as int), edge, keep);
            }
            if !(edge.from == from_node_id && edge.to == to_node_id) {
                kept.push(edge);
            }
            i += 1;
        }
        proof {
            assert(self.edges@.take(i as int) =~= self.edges@);
        }
        self.edges = kept;
    }

    /// The first node with the id, if there is one.
    pub fn get_node(&self, node_id: u32) -> (found: Option<&Node>)
        ensures
            found_node(found) == self@.get_node(node_id),
    {
        match self.node_position(node_id) {
            Some(i) => Some(&self.nodes[i]),
            None => None,
        }
    }

    /// The first edge from `from_node_id` to `to_node_id`, if there is one.
    pub fn get_edge(&self, from_node_id: u32, to_node_id: u32) -> (found: Option<&Edge>)
        ensures
            found_edge(found) == self@.get_edge(from_node_id, to_node_id),
    {
        proof {
            assert(edge_fits(Some(from_node_id), Some(to_node_id)) =~= edge_joins(
                from_node_id,
                to_node_id,
            ));
        }
        match self.edge_position(Some(from_node_id), Some(to_node_id)) {
            Some(i) => Some(&self.edges[i]),
            None => None,
        }
    }

    /// Puts copies of `actions`, in their order, after the actions of the
    /// first node with the id. Does nothing where no node has the id.
    pub fn add_node_actions(&mut self, node_id: u32, actions: &[Action])
        ensures
            final(self)@ == old(self)@.add_node_actions(node_id, actions@),
    {
        let i = match self.node_position(node_id) {
            Some(i) => i,
            None => {
                return ;
            },
        };
        let mut k: usize = 0;
        while k < actions.len()
            invariant
                k <= actions.len(),
                i < self.nodes.len(),
                self.edges == old(self).edges,
                self.current_node == old(self).current_node,
                self.nodes@.len() == old(self).nodes@.len(),
                forall|j: int| 0 <= j < self.nodes@.len() && j != i ==> self.nodes@[j] == old(
                    self,
                ).nodes@[j],
                self.nodes@[i as int].id == old(self).nodes@[i as int].id,
                self.nodes@[i as int].actions@ == old(self).nodes@[i as int].actions@
                    + actions@.take(k as int),
            decreases actions.len() - k,
        {
            let copy = actions[k].clone();
            self.nodes[i].actions.push(copy);
            k += 1;
        }
        proof {
            assert(actions@.take(k as int) =~= actions@);
            assert(self@.nodes =~= old(self)@.add_node_actions(node_id, actions@).nodes);
        }
    }

    /// The actions of the first node with the id, if there is one.
    pub fn get_node_actions(&self, node_id: u32) -> (found: Option<&Vec<Action>>)
        ensures
            found_actions(found) == self@.get_node_actions(node_id),
    {
        match self.node_position(node_id) {
            Some(i) => Some(&self.nodes[i].actions),
            None => None,
        }
    }

    /// The first action with `action_id` among those of the first node with
    /// `node_id`, if there is one.
    pub fn get_node_action(&self, node_id: u32, action_id: u32) -> (found: Option<&Action>)
        ensures
            found_action(found) == self@.get_node_action(node_id, action_id),
    {
        let i = match self.node_position(node_id) {
            Some(i) => i,
            None => {
                return None;
            },
        };
        let node = &self.nodes[i];
        let mut k: usize = 0;
        while k < node.actions.len()
            invariant
                k <= node.actions.len(),
                self@.get_node(node_id) == Some(node@),
                forall|j: int| 0 <= j < k ==> !action_has_id(action_id)(#[trigger] node.actions@[j]),
            decreases node.actions.len() - k,
        {
            if node.actions[k].id == action_id {
                proof {
                    lemma_first_where_found(node.actions@, action_has_id(action_id), k as int);
                }
                return Some(&node.actions[k]);
            }
            k += 1;
        }
        proof {
            lemma_first_where_absent(node.actions@, action_has_id(action_id));
        }
        None
    }

    /// The id itself, taken from the first edge that leaves it, if there is
    /// one.
    pub fn get_edge_from(&self, node_id: u32) -> (found: Option<&u32>)
        ensures
            found_id(found) == self@.get_edge_from(node_id),
    {
        match self.edge_position(Some(node_id), None) {
            Some(i) => Some(&self.edges[i].from),
            None => None,
        }
    }

    /// The id itself, taken from the first edge that enters it, if there is
    /// one.
    pub fn get_edge_to(&self, node_id: u32) -> (found: Option<&u32>)
        ensures
            found_id(found) == self@.get_edge_to(node_id),
    {
        match self.edge_position(None, Some(node_id)) {
            Some(i) => Some(&self.edges[i].to),
            None => None,
        }
    }

    /// The edges that leave the node, in their order. Fails with
    /// `NodeDoesNotExistError` where no node has the id.
    pub fn get_node_edges(&self, node_id: u32) -> (outgoing: Result<Vec<Edge>, MarkovChainError>)
        ensures
            found_edges(outgoing) == self@.get_node_edges(node_id),
            !self@.node_exists(node_id) ==> outgoing == Err::<Vec<Edge>, MarkovChainError>(
                MarkovChainError::NodeDoesNotExistError,
            ),
    {
        if !self.node_exists(node_id) {
            return Err(MarkovChainError::NodeDoesNotExistError);
        }
        let ghost leaves = edge_leaves(node_id);
        let mut edges: Vec<Edge> = Vec::new();
        let mut i: usize = 0;
        proof {
            reveal(Seq::filter);
        }
        while i < self.edges.len()
            invariant
                i <= self.edges.len(),
                leaves == edge_leaves(node_id),
                edges@ == self.edges@.take(i as int).filter(leaves),
            decreases self.edges.len() - i,
        {
            let edge = self.edges[i];
            proof {
                assert(self.edges@.take(i + 1) =~= self.edges@.take(i as int).push(edge));
                lemma_filter_push(self.edges@.take(i as int), edge, leaves);
            }
            if edge.from == node_id {
                edges.push(edge);
            }
            i += 1;
        }
        proof {
            assert(self.edges@.take(i as int) =~= self.edges@);
        }
        Ok(edges)
    }

    /// Whether some node has the id.
    pub fn node_exists(&self, node_id: u32) -> (present: bool)
        ensures
            present == self@.node_exists(node_id),
    {
        self.node_position(node_id).is_some()
    }

    /// Whether some edge leads from `from_node_id` to `to_node_id`.
    pub fn edge_exists(&self, from_node_id: u32, to_node_id: u32) -> (present: bool)
        ensures
            present == self@.edge_exists(from_node_id, to_node_id),
    {
        self.edge_position(Some(from_node_id), Some(to_node_id)).is_some()
    }

    /// Makes the node the current one. Fails with `NodeDoesNotExistError`,
    /// and changes nothing, where no node has the id.
    pub fn set_current_node(&mut self, node_id: u32) -> (done: Result<(), MarkovChainError>)
        ensures
            match old(self)@.set_current_node(node_id) {
                Ok(chain) => done == Ok::<(), MarkovChainError>(()) && final(self)@ == chain,
                Err(e) => done == Err::<(), MarkovChainError>(e) && final(self)@ == old(self)@,
            },
            !old(self)@.node_exists(node_id) ==> done == Err::<(), MarkovChainError>(
                MarkovChainError::NodeDoesNotExistError,
            ) && final(self)@.current_node == old(self)@.current_node,
    {
        if self.node_exists(node_id) {
            self.current_node = Some(node_id);
            Ok(())
        } else {
            Err(MarkovChainError::NodeDoesNotExistError)
        }
    }

    /// The id of the current node, if one is set.
    pub fn get_current_node(&self) -> (current: Option<u32>)
        ensures
            current == self@.current_node,
    {
        self.current_node
    }

    /// Moves the current node along one of its outgoing edges, chosen by
    /// weight. `spin` is handed the weights of the outgoing edges, in their
    /// order. It draws below their sum and answers with what is left of the
    /// draw on reaching each edge: the draw, less the weights of the edges
    /// before it. The step then goes as `advance` does with that answer.
    ///
    /// `spin` is not called where there is nothing to choose from: the step
    /// then fails with `NodeDoesNotExistError` where no current node is set,
    /// and with `NodeHasNoEdgesError` where no node has the current id or no
    /// edge leaves it.
    pub fn next<S: FnOnce(Vec<Weight>) -> Vec<Weight>>(&mut self, spin: S) -> (done: Result<
        (),
        MarkovChainError,
    >)
        requires
            forall|list: Vec<Weight>|
                (match old(self)@.choices() {
                    Ok(edges) => list@ == weights_of(edges),
                    Err(_) => false,
                }) ==> #[trigger] call_requires(spin, (list,)),
        ensures
            match old(self)@.choices() {
                Err(e) => done == Err::<(), MarkovChainError>(e) && final(self)@ == old(self)@,
                Ok(edges) => exists|list: Vec<Weight>, offsets: Vec<Weight>|
                    {
                        &&& list@ == weights_of(edges)
                        &&& #[trigger] call_ensures(spin, (list,), offsets)
                        &&& stepped(old(self)@, offsets@, done, final(self)@)
                    },
            },
            refused(old(self)@, done),
            done.is_err() ==> final(self)@ == old(self)@,
    {
        let edges = match self.choices() {
            Ok(edges) => edges,
            Err(e) => {
                return Err(e);
            },
        };
        let list = weights(&edges);
        let ghost handed = list;
        let offsets = spin(list);
        let done = self.follow(&edges, &offsets);
        done
    }

    /// Moves the current node along one of its outgoing edges: the one that
    /// a walk takes where `offsets` holds what is left of the draw on
    /// reaching each of them, in their order.
    ///
    /// Fails, and changes nothing, with `NodeDoesNotExistError` where no
    /// current node is set, with `NodeHasNoEdgesError` where no node has
    /// the current id or no edge leaves it, and with `TransitionFailedError`
    /// where the walk takes no edge.
    pub fn advance(&mut self, offsets: &Vec<Weight>) -> (done: Result<(), MarkovChainError>)
        ensures
            stepped(old(self)@, offsets@, done, final(self)@),
            refused(old(self)@, done),
            done.is_err() ==> final(self)@ == old(self)@,
    {
        match self.choices() {
            Ok(edges) => self.follow(&edges, offsets),
            Err(e) => Err(e),
        }
    }

    /// The edges among which a step chooses: those that leave the current
    /// node.
    fn choices(&self) -> (outgoing: Result<Vec<Edge>, MarkovChainError>)
        ensures
            found_edges(outgoing) == self@.choices(),
    {
        let current = match self.current_node {
            Some(id) => id,
            None => {
                return Err(MarkovChainError::NodeDoesNotExistError);
            },
        };
        let edges = match self.get_node_edges(current) {
            Ok(edges) => edges,
            Err(_) => {
                return Err(MarkovChainError::NodeHasNoEdgesError);
            },
        };
        if edges.len() == 0 {
            return Err(MarkovChainError::NodeHasNoEdgesError);
        }
        Ok(edges)
    }

    /// Moves the current node along the edge that a walk over `edges` takes
    /// for the given offsets.
    fn follow(&mut self, edges: &Vec<Edge>, offsets: &Vec<Weight>) -> (done: Result<
        (),
        MarkovChainError,
    >)
        requires
            old(self)@.choices() == Ok::<Seq<Edge>, MarkovChainError>(edges@),
        ensures
            stepped(old(self)@, offsets@, done, final(self)@),
    {
        match select(edges, offsets) {
            Some(edge) => {
                self.current_node = Some(edge.to);
                Ok(())
            },
            None => Err(MarkovChainError::TransitionFailedError),
        }
    }

    /// The index of the first node with the id.
    fn node_position(&self, id: u32) -> (found: Option<usize>)
        ensures
            match found {
                Some(i) => is_first_where(self@.nodes, node_has_id(id), i as int)
                    && first_where(self@.nodes, node_has_id(id)) == Some(i as int),
                None => first_where(self@.nodes, node_has_id(id)).is_none(),
            },
    {
        let mut i: usize = 0;
        while i < self.nodes.len()
            invariant
                i <= self.nodes.len(),
                forall|j: int| 0 <= j < i ==> !node_has_id(id)(#[trigger] self@.nodes[j]),
            decreases self.nodes.len() - i,
        {
            if self.nodes[i].id == id {
                proof {
                    lemma_first_where_found(self@.nodes, node_has_id(id), i as int);
                }
                return Some(i);
            }
            i += 1;
        }
        proof {
            lemma_first_where_absent(self@.nodes, node_has_id(id));
        }
        None
    }

    /// The index of the first edge that leaves `from`, where one is given,
    /// and enters `to`, where one is given.
    fn edge_position(&self, from: Option<u32>, to: Option<u32>) -> (found: Option<usize>)
        ensures
            match found {
                Some(i) => is_first_where(self@.edges, edge_fits(from, to), i as int)
                    && first_where(self@.edges, edge_fits(from, to)) == Some(i as int),
                None => first_where(self@.edges, edge_fits(from, to)).is_none(),
            },
    {
        let mut i: usize = 0;
        while i < self.edges.len()
            invariant
                i <= self.edges.len(),
                forall|j: int| 0 <= j < i ==> !edge_fits(from, to)(#[trigger] self@.edges[j]),
            decreases self.edges.len() - i,
        {
            let edge = &self.edges[i];
            let leaves = match from {
                Some(id) => edge.from == id,
                None => true,
            };
            let enters = match to {
                Some(id) => edge.to == id,
                None => true,
            };
            if leaves && enters {
                proof {
                    lemma_first_where_found(self@.edges, edge_fits(from, to), i as int);
                }
                return Some(i);
            }
            i += 1;
        }
        proof {
            lemma_first_where_absent(self@.edges, edge_fits(from, to));
        }
        None
    }
}

} // verus!
