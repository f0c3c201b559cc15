//! Forwarding of a text file's lines to an HTTP log-collection endpoint,
//! split into byte-bounded batches.
//!
//! The crate holds the verified core: the batching algorithm and its model
//! ([`batch`]), the resolved endpoint strings, the per-batch diagnostic
//! records, and the sequential delivery driver. File reading and the HTTP
//! transport themselves are left to the surrounding program, which hands
//! lines in and statuses back as plain values.

pub mod batch;
pub mod endpoint;
pub mod report;
pub mod run;
