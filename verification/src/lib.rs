//! Core of a client library for a partitioned event-stream broker.
//!
//! The library consumes newline-delimited JSON batches from a streaming
//! HTTP response, dispatches each batch to a per-partition worker, and
//! commits cursor positions back to the broker under strict stream-affinity
//! rules.  Everything that decides or computes lives here, verified; the
//! HTTP transport, threads and sleeps are supplied by the embedding
//! application through the connector traits and the decision functions.

pub mod committer;
pub mod connector;
pub mod consumer;
pub mod dispatcher;
pub mod handler;
pub mod model;
pub mod wire;
