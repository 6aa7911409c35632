//! A neuro-evolutionary decision engine: small feed-forward networks that
//! turn sensed state into actions, a mutation operator that varies them,
//! and a gene pool that breeds and prunes them by fitness.
//!
//! The engine never computes with real numbers itself. Every weight,
//! input and output is carried as the bit pattern of a single-precision
//! number, and the arithmetic on those numbers (the weighted sum of a
//! neuron, the noise added to a weight) is handed in by the caller as a
//! function. What is proved here is everything around that arithmetic:
//! the wiring of the layers, the rules of mutation, and the life cycle of
//! the pool. Fitness is a whole number of milliseconds, so that the mean
//! that decides who survives is compared exactly.
//!
//! - [`scalar`]: real numbers as bit patterns.
//! - [`neuron`]: a row of weights and an activation function.
//! - [`brain`]: two layers of neurons and the forward pass through them.
//! - [`mutation`]: the draws of a mutation and what they do to a brain.
//! - [`pool`]: the gene pool, with spawning and preserving.
//! - [`chance`]: the random draws, which come from the `rand` crate.
pub mod scalar;
pub mod neuron;
pub mod chance;
pub mod brain;
pub mod mutation;
pub mod pool;

pub use brain::{Brain, Inputs, Outputs};
pub use mutation::{Draws, NeuronDraws, Strength, WeightDraw};
pub use neuron::{Function, Neuron};
pub use pool::{GenePool, Genotype};
pub use scalar::Scalar;
