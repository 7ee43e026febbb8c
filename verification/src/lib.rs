//! Proof-and-estimation core of a layer-2 rollup node's query interface.
//!
//! The crate has two verified subsystems:
//! - a Merkle commitment builder over the cross-layer logs of a settled
//!   batch, together with inclusion-proof construction and checking, the
//!   resolution rules that turn a proof request into a leaf index, and a
//!   per-batch commitment cache populated at most once per batch;
//! - a fee estimator that binary-searches the minimal viable gas limit
//!   against an injected execution simulator and derives fee parameters
//!   from gas-price signals.
//!
//! Storage lookups, gas-price polling and RPC transport are collaborators
//! outside this crate; they hand the library plain values.

pub mod cache;
pub mod fee;
pub mod hashing;
pub mod merkle;
pub mod proofs;
pub mod types;
