//! A minimal feedforward neural-network evaluator, verified with Verus.
//!
//! Scalars are IEEE 754 binary32 values carried as their raw bit patterns
//! (`u32`), so that every contract can speak of them as plain integers.
//! Arithmetic on those bit patterns is delegated to the `rustc_apfloat`
//! software float library; everything else — the ReLU activation, the
//! seeded parameter generator, and the propagation of layers and networks —
//! is verified code.

pub mod layer;
pub mod network;
pub mod neuron;
pub mod rng;
pub mod scalar;
