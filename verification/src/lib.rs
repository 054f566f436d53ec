//! A small neural-network training engine: tensors with explicit shapes,
//! a family of layers sharing a uniform forward/backward contract, a
//! sequential container that wires layers into a network, a stochastic
//! gradient descent solver with momentum, weight initialization, and a
//! sliding-window accuracy evaluator.
//!
//! Numeric element operations are abstracted behind the [`scalar::Scalar`]
//! trait and the [`backend::Backend`] capability trait, so the engine's
//! shape inference, index bookkeeping, and update orchestration are verified
//! for every element type and every backend that meets those contracts.

pub mod error;
pub mod scalar;
pub mod solver;
pub mod tensor;
pub mod backend;
pub mod activation;
pub mod common;
pub mod container;
pub mod loss;
pub mod matrix;
pub mod utility;
pub mod weight;

pub use error::LeafError;
pub use scalar::Scalar;
pub use solver::{LRPolicy, Momentum, Solver, SolverConfig};
pub use tensor::Tensor;
pub use activation::{ActivationLayer, ReLU, Sigmoid, TanH};
pub use common::{LogSoftmax, Softmax};
pub use container::{LayerConfig, LayerType, LayerUnit, Sequential, SequentialConfig};
pub use loss::{NegativeLogLikelihood, NegativeLogLikelihoodConfig};
pub use matrix::ConfusionMatrix;
pub use utility::{Flatten, Reshape, ReshapeConfig};
pub use weight::{DimCheckMode, FillerType, SharingError, WeightConfig};
