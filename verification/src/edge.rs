//! Directed, weighted connections between node ids.

use crate::weight::Weight;
use std::cmp::Ordering;
use vstd::prelude::*;
use vstd::std_specs::cmp::{PartialEqSpecImpl, PartialOrdSpecImpl};

verus! {

/// A connection from one node id to another. Neither id has to belong to a
/// node, and the weight may be any bit pattern.
#[derive(Clone, Copy, Debug)]
pub struct Edge {
    pub from: u32,
    pub to: u32,
    pub weight: Weight,
}

impl Edge {
    /// The edge with exactly these fields.
    pub fn new(from: u32, to: u32, weight: Weight) -> (edge: Edge)
        ensures
            edge.from == from,
            edge.to == to,
            edge.weight == weight,
    {
        Edge { from, to, weight }
    }

    /// Whether the edge leads from `from` to `to`.
    pub open spec fn joins(self, from: u32, to: u32) -> bool {
        self.from == from && self.to == to
    }
}

/// Two edges are `==` when they join the same ids with numerically equal
/// weights.
impl PartialEq for Edge {
    fn eq(&self, other: &Edge) -> (r: bool) {
        self.from == other.from && self.to == other.to && self.weight.equals(other.weight)
    }
}

impl PartialEqSpecImpl for Edge {
    open spec fn obeys_eq_spec() -> bool {
        true
    }

    open spec fn eq_spec(&self, other: &Edge) -> bool {
        self.from == other.from && self.to == other.to && self.weight.matches(other.weight)
    }
}

/// Edges are ordered by `from`, then by `to`, then by weight.
impl PartialOrd for Edge {
    fn partial_cmp(&self, other: &Edge) -> (r: Option<Ordering>) {
        if self.from < other.from {
            Some(Ordering::Less)
        } else if self.from > other.from {
            Some(Ordering::Greater)
        } else if self.to < other.to {
            Some(Ordering::Less)
        } else if self.to > other.to {
            Some(Ordering::Greater)
        } else {
            self.weight.partial_cmp(&other.weight)
        }
    }
}

impl PartialOrdSpecImpl for Edge {
    open spec fn obeys_partial_cmp_spec() -> bool {
        true
    }

    open spec fn partial_cmp_spec(&self, other: &Edge) -> Option<Ordering> {
        if self.from < other.from {
            Some(Ordering::Less)
        } else if self.from > other.from {
            Some(Ordering::Greater)
        } else if self.to < other.to {
            Some(Ordering::Less)
        } else if self.to > other.to {
            Some(Ordering::Greater)
        } else {
            self.weight.compare(other.weight)
        }
    }
}

} // verus!
