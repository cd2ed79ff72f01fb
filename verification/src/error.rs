//! The ways in which an operation on a chain can fail.

use vstd::prelude::*;

verus! {

/// Why an operation on a chain did not go through.
#[derive(Clone, Copy, Debug, PartialEq, Eq, Structural)]
pub enum MarkovChainError {
    /// Kept for callers that tell a chain without any way on from other
    /// failures; no operation of the chain returns it.
    StuckError,
    /// A node id was needed that no node of the chain has.
    NodeDoesNotExistError,
    /// Kept for callers that insist on an edge being there; no operation of
    /// the chain returns it.
    EdgeDoesNotExistError,
    /// Kept for callers that insist on an action being there; no operation
    /// of the chain returns it.
    ActionDoesNotExistError,
    /// The current node has no outgoing edge.
    NodeHasNoEdgesError,
    /// No outgoing edge was selected.
    TransitionFailedError,
}

} // verus!
