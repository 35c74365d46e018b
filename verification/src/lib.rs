//! Vanity v3 onion-address search library: the address encoder, the pattern
//! matcher, the per-worker attempt accounting, and the key-file exporter,
//! each with a verified contract.

pub mod generator;
pub mod onion;
pub mod torkeys;
