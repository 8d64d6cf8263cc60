//! Deterministic, memoized corpora of canonical test values, indexed by
//! logical data type.
//!
//! - `slot`: the write-once memo slot, the cache entry of one logical type.
//! - `primitive`: the canonical integer, boolean and string sets, and the
//!   cache that memoizes them.
//! - `composite`: sets derived from smaller ones (singleton lists, and
//!   single-entry maps over a cross product), memoized by output shape.
//! - `registry`: the bindings from type identifiers to generators.
pub mod composite;
pub mod primitive;
pub mod registry;
pub mod slot;
