//! Merging of two venues' order books into one depth-bounded top-of-book view.
//!
//! The crate holds the aggregation engine only: the ordered merge of two
//! sorted level sequences, the per-venue book state, the stable re-sort of
//! incoming snapshots, and the step function that turns a decoded feed frame
//! into the next state and the action to take. Sockets, the runtime and the
//! RPC surface live with the caller.

pub mod aggregator;
pub mod decimal;
pub mod iter_utils;
pub mod json;
pub mod rank;
pub mod sort;
pub mod venue_protocols;
