//! Decision logic of a throughput-measuring request/response client.
//!
//! Every turn of the client opens a stream, writes an eight-byte header that
//! names the size of the response it wants, uploads a synthetic payload,
//! half-closes the stream and drains the response. The transport itself is
//! driven by the caller; this crate decides what happens next and accounts
//! for every byte that moves.

pub mod header;
pub mod request;
pub mod payload;
pub mod cancel;
pub mod error;
pub mod sender;
pub mod receiver;
pub mod orchestrator;
pub mod transfer;
pub mod recovery_metrics_logger;
