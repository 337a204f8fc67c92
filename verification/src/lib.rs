//! Synthetic time-series load generation: line-protocol batches, payload
//! encoding, upload requests, retry decisions and the bounded upload pipeline.

pub mod checksum;
pub mod data;
pub mod error;
pub mod logging;
pub mod payload;
pub mod pipeline;
pub mod point;
pub mod random;
pub mod records;
pub mod request;
pub mod retry;
pub mod text;
