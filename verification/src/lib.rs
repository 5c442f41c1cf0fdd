//! The message log of a PBFT consensus node: a deduplicated store of protocol
//! messages bounded by a sliding sequence window, the quorum predicates
//! evaluated over it, stable checkpoints with log compaction, and the two
//! backlog queues for input that cannot be handled yet.

pub mod bytes;
pub mod config;
pub mod error;
pub mod grouping;
pub mod laws;
pub mod message;
pub mod message_log;
pub mod render;
