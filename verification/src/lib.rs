//! A weighted directed graph whose nodes carry payloads and whose edges carry
//! transition weights, together with the step that moves a current position
//! along one outgoing edge.

pub mod action;
pub mod chain;
pub mod edge;
pub mod error;
pub mod laws;
pub mod model;
pub mod node;
pub mod search;
pub mod transition;
pub mod weight;

pub use crate::action::Action;
pub use crate::chain::MarkovChain;
pub use crate::edge::Edge;
pub use crate::error::MarkovChainError;
pub use crate::node::Node;
pub use crate::weight::Weight;
