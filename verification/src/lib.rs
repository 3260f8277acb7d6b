//! A minimal in-process memory arena with mark-and-sweep collection over a
//! forest of singly linked chains: each managed object links to at most one
//! successor, and every chain hangs off an indexed root slot.
//!
//! Callers grow chains through the root set, flag a single node per call for
//! collection, and then run a sweep that reclaims, in every chain, the suffix
//! that starts at the first marked node.

pub mod arena;
pub mod chain;
pub mod laws;
pub mod object;

pub use arena::{GcError, MarkandSweepGC};
pub use chain::NodeInfo;
pub use object::DummyObject;
