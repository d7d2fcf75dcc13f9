//! Verified core of an asynchronous chunk-ingestion service.
//!
//! The library models and verifies the decision logic of the service's
//! workers: the queue reserve/ack/retry protocol, the chunk ingestion
//! pipeline with its dual write across a relational store and a vector
//! index, collision detection, the group re-tagging worker, the paged
//! delete pipeline, the queue-depth gauges, and the authorization
//! decisions of the HTTP middleware.  All I/O stays outside: callers
//! perform the store and network operations and feed the outcomes to
//! the functions here.

pub mod auth;
pub mod config;
pub mod delete;
pub mod dup;
pub mod errors;
pub mod events;
pub mod laws;
pub mod metrics;
pub mod models;
pub mod numfmt;
pub mod outside;
pub mod pipeline;
pub mod retry;
pub mod store;
pub mod text;
pub mod vectors;
pub mod worker;
