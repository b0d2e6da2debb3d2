//! A feed-forward neural-network library over saturating fixed-point
//! arithmetic: layers, activation/loss/transfer families, and a
//! stochastic-gradient-descent optimizer that trains a network by
//! backpropagation.
//!
//! Every quantity is a signed 64-bit integer holding a real number scaled
//! by `fixed::SCALE`; arithmetic saturates at the integer bounds instead
//! of overflowing. All computations are specified exactly and verified.

pub mod fixed;
pub mod rng;
pub mod linalg;
pub mod transcend;
pub mod activations;
pub mod losses;
pub mod transfers;
pub mod layer;
pub mod network;
pub mod sgd;
pub mod laws;
