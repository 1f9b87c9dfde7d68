//! Hill climbing by mutation and selection.
//!
//! A [`Population`] holds a fixed number of [`Node`]s, each a vector of a
//! fixed number of values. One generation mutates every node once, scores
//! the mutated nodes, elects the first node with the greatest score and
//! resets the whole population to copies of it.
//!
//! The library decides which value of a node a mutation replaces, which
//! node wins, and what the next generation holds, and it proves what it
//! decides. It does no arithmetic on values or scores. A value is an opaque
//! 32-bit pattern, a score is an unsigned 32-bit rank of which the greater
//! is the fitter, and the three things that need arithmetic or chance come
//! in as functions: `draw` (an amount and an index for a node of a given
//! width), `perturb` (the new value from the old one and the amount) and
//! `score` (the rank of a node).

pub mod node;
pub mod population;
pub mod selection;
pub mod store;

pub use crate::node::Node;
pub use crate::population::Population;
pub use crate::selection::find_winner;
