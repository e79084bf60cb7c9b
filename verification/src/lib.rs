//! A tensor algebra façade over an engine of N-dimensional arrays.
//!
//! Host code manipulates `Tensor` handles to arrays owned by an [`Engine`];
//! the façade offers fallible (`try_*`) and convenience forms of every
//! primitive, symmetric scalar arithmetic with explicit reversal for the
//! non-commutative operators, and exact, shape-driven marshaling between
//! arrays and nested host vectors.

pub mod batch;
pub mod engine;
pub mod nn;
pub mod ops;
pub mod render;
pub mod marshal;
pub mod transform;
pub mod fp;
pub mod kind;
pub mod logits;

pub use engine::Device;
pub use engine::Engine;
pub use engine::TchError;
pub use engine::Tensor;
pub use kind::Kind;
pub use kind::BinOp;
