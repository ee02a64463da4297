//! A three-layer feedforward network with backpropagation training, written
//! over any number type that offers the operations of [`Scalar`].
//!
//! The network never looks inside a number. Every contract therefore speaks of
//! a result as *an outcome of* the scalar's operations, applied to stated
//! operands in a stated order: `is_sum(a, b, r)` reads "`r` is what `a.plus(b)`
//! may return". Nothing is assumed of an implementation of [`Scalar`].
pub mod layer;
pub mod network;
pub mod scalar;

pub use crate::layer::NetworkLayer;
pub use crate::network::NeuralNetwork;
pub use crate::scalar::Scalar;
