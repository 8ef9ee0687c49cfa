//! Deterministic digests of filesystem subtrees: the digest abstraction, the
//! metadata record encoder, the per-entry digest composition, the policy model
//! with its canonical flags string, and the progress counters.
pub mod algo;
pub mod artifact;
pub mod config;
pub mod hash;
pub mod names;
pub mod stats;
