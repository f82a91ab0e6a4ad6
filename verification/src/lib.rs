//! A mutation-batching layer for a keyed external tree renderer.
//!
//! Application code records mutation intents (insert, remove, set content,
//! set attributes, relocate, scroll) against nodes identified by stable
//! string keys. Intents for one key coalesce into a single [`record::Mutations`]
//! value: later whole-node intents discard earlier finer-grained ones. A
//! flush drains all pending records in first-mutation order and turns each
//! one into a fixed-precedence sequence of renderer operations.

pub mod apply;
pub mod flush;
pub mod laws;
pub mod record;
pub mod store;
