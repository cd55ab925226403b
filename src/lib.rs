//! Reconstruction of in-progress blocks from a stream of flashblock fragments,
//! with bounded aggregation, throughput reporting and a reconnecting
//! transport state machine.

pub mod aggregator;
pub mod client;
pub mod decode;
pub mod flashblock;
pub mod hex;
pub mod history;
pub mod json;
pub mod pipeline;
pub mod report;
pub mod rpc;
pub mod transport;
