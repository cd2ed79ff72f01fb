//! Vertices of a chain.

use crate::action::Action;
use vstd::prelude::*;

verus! {

/// What a node is, apart from how its actions are stored.
pub struct NodeView {
    pub id: u32,
    pub actions: Seq<Action>,
}

/// A vertex: an id and the actions attached to it, in the order in which
/// they were attached.
#[derive(Debug, PartialEq)]
pub struct Node {
    pub id: u32,
    pub actions: Vec<Action>,
}

impl View for Node {
    type V = NodeView;

    open spec fn view(&self) -> NodeView {
        NodeView { id: self.id, actions: self.actions@ }
    }
}

impl Node {
    /// A node with the given id; without a list of actions it has none.
    pub fn new(id: u32, actions: Option<Vec<Action>>) -> (node: Node)
        ensures
            node@.id == id,
            node@.actions == match actions {
                Some(list) => list@,
                None => Seq::<Action>::empty(),
            },
    {
        let actions = match actions {
            Some(list) => list,
            None => Vec::new(),
        };
        Node { id, actions }
    }
}

impl Clone for Node {
    fn clone(&self) -> (copy: Node)
        ensures
            copy@ == self@,
    {
        let mut actions: Vec<Action> = Vec::new();
        let mut i: usize = 0;
        while i < self.actions.len()
            invariant
                i <= self.actions.len(),
                actions@ == self.actions@.take(i as int),
            decreases self.actions.len() - i,
        {
            actions.push(self.actions[i].clone());
            i += 1;
        }
        proof {
            assert(self.actions@.take(i as int) =~= self.actions@);
        }
        Node { id: self.id, actions }
    }
}

} // verus!
