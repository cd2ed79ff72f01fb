//! Choosing among weighted edges.
//!
//! A walk over the outgoing edges of a node starts from a draw below the sum
//! of their weights. It takes the first edge whose weight exceeds what is
//! left of the draw, and on passing an edge it takes the edge's weight off
//! what is left. The sums and differences of weights are not computed here:
//! a walk is given what is left of the draw on reaching each edge, and
//! decides from that which edge is taken.

use crate::edge::Edge;
use crate::search::{first_match, lemma_first_where_absent, lemma_first_where_found};
use crate::weight::Weight;
use vstd::prelude::*;

verus! {

/// One outgoing edge together with what is left of the draw when the walk
/// reaches it.
pub struct Trial {
    pub left: Weight,
    pub edge: Edge,
}

/// The weights of the edges, in their order.
pub open spec fn weights_of(edges: Seq<Edge>) -> Seq<Weight> {
    Seq::new(edges.len(), |i: int| edges[i].weight)
}

/// The edges paired with the offsets, as far as both go.
pub open spec fn trials(edges: Seq<Edge>, offsets: Seq<Weight>) -> Seq<Trial> {
    Seq::new(
        if edges.len() <= offsets.len() {
            edges.len()
        } else {
            offsets.len()
        },
        |i: int| Trial { left: offsets[i], edge: edges[i] },
    )
}

/// Holds of a trial whose edge is taken: what is left of the draw is less
/// than the edge's weight.
pub open spec fn trial_hits() -> spec_fn(Trial) -> bool {
    |t: Trial| t.left.precedes(t.edge.weight)
}

/// The edge that a walk takes: the first one whose weight exceeds what is
/// left of the draw on reaching it.
pub open spec fn selected(edges: Seq<Edge>, offsets: Seq<Weight>) -> Option<Edge> {
    match first_match(trials(edges, offsets), trial_hits()) {
        Some(t) => Some(t.edge),
        None => None,
    }
}

/// The weights of the edges, in their order.
pub fn weights(edges: &Vec<Edge>) -> (list: Vec<Weight>)
    ensures
        list@ == weights_of(edges@),
{
    let mut list: Vec<Weight> = Vec::new();
    let mut i: usize = 0;
    while i < edges.len()
        invariant
            i <= edges.len(),
            list@ == weights_of(edges@).take(i as int),
        decreases edges.len() - i,
    {
        list.push(edges[i].weight);
        i += 1;
    }
    list
}

/// The edge that a walk over `edges` takes, where `offsets` holds what is
/// left of the draw on reaching each of them. An edge without an offset is
/// not taken.
pub fn select(edges: &Vec<Edge>, offsets: &Vec<Weight>) -> (taken: Option<Edge>)
    ensures
        taken == selected(edges@, offsets@),
{
    let ghost all = trials(edges@, offsets@);
    let mut i: usize = 0;
    while i < edges.len() && i < offsets.len()
        invariant
            i <= edges.len(),
            i <= offsets.len(),
            all == trials(edges@, offsets@),
            forall|j: int| 0 <= j < i ==> !trial_hits()(#[trigger] all[j]),
        decreases edges.len() - i,
    {
        if offsets[i].less_than(edges[i].weight) {
            proof {
                lemma_first_where_found(all, trial_hits(), i as int);
            }
            return Some(edges[i]);
        }
        i += 1;
    }
    proof {
        lemma_first_where_absent(all, trial_hits());
    }
    None
}

/// The sum of the first `count` weights, in units of 2^-149.
pub open spec fn weight_before(edges: Seq<Edge>, count: int) -> int
    decreases count,
{
    if count <= 0 {
        0
    } else {
        weight_before(edges, count - 1) + edges[count - 1].weight.scaled()
    }
}

/// Every weight is a number, and none is below zero.
pub open spec fn weights_usable(edges: Seq<Edge>) -> bool {
    forall|i: int|
        0 <= i < edges.len() ==> !(#[trigger] edges[i]).weight.is_nan() && edges[i].weight.scaled()
            >= 0
}

/// `offsets` holds, free of rounding, what is left of `draw` on reaching
/// each edge: the draw less the weights of the edges before it. The draw is
/// counted in units of 2^-149.
pub open spec fn offsets_exact(edges: Seq<Edge>, offsets: Seq<Weight>, draw: int) -> bool {
    &&& offsets.len() == edges.len()
    &&& forall|i: int|
        0 <= i < edges.len() ==> !(#[trigger] offsets[i]).is_nan() && offsets[i].scaled() == draw
            - weight_before(edges, i)
}

/// With weights that are not below zero, the sum of more of them is not
/// less.
pub proof fn lemma_weight_before_grows(edges: Seq<Edge>, i: int, j: int)
    requires
        weights_usable(edges),
        0 <= i <= j <= edges.len(),
    ensures
        weight_before(edges, i) <= weight_before(edges, j),
    decreases j - i,
{
    if i < j {
        lemma_weight_before_grows(edges, i, j - 1);
    }
}

/// A draw below the sum of the first `count` weights falls under one of
/// them: it is not below the sum of the weights before that one, and below
/// the sum that includes it.
pub proof fn lemma_draw_falls_under(edges: Seq<Edge>, draw: int, count: int) -> (i: int)
    requires
        0 <= count <= edges.len(),
        0 <= draw < weight_before(edges, count),
    ensures
        0 <= i < count,
        weight_before(edges, i) <= draw < weight_before(edges, i + 1),
    decreases count,
{
    if weight_before(edges, count - 1) <= draw {
        count - 1
    } else {
        lemma_draw_falls_under(edges, draw, count - 1)
    }
}

/// Where the offsets are free of rounding, a walk takes the edge under
/// which the draw falls. So an edge is taken for as many draws as its
/// weight counts units, whatever its place among the edges.
pub proof fn law_walk_takes_the_edge_under_the_draw(
    edges: Seq<Edge>,
    offsets: Seq<Weight>,
    draw: int,
    i: int,
)
    requires
        weights_usable(edges),
        offsets_exact(edges, offsets, draw),
        0 <= i < edges.len(),
        weight_before(edges, i) <= draw < weight_before(edges, i + 1),
    ensures
        selected(edges, offsets) == Some(edges[i]),
{
    let all = trials(edges, offsets);
    assert forall|j: int| 0 <= j < i implies !trial_hits()(#[trigger] all[j]) by {
        lemma_weight_before_grows(edges, j + 1, i);
    }
    assert(trial_hits()(all[i]));
    lemma_first_where_found(all, trial_hits(), i);
}

/// Where the offsets are free of rounding and the draw is not below zero
/// and below the sum of all weights, a walk takes an edge.
pub proof fn law_walk_takes_an_edge(edges: Seq<Edge>, offsets: Seq<Weight>, draw: int)
    requires
        weights_usable(edges),
        offsets_exact(edges, offsets, draw),
        0 <= draw < weight_before(edges, edges.len() as int),
    ensures
        selected(edges, offsets).is_some(),
{
    let i = lemma_draw_falls_under(edges, draw, edges.len() as int);
    law_walk_takes_the_edge_under_the_draw(edges, offsets, draw, i);
}

} // verus!
