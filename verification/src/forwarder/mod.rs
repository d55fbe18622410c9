//! The relay itself: retries, connectors and the engine that drives a cycle.

pub mod connector;
pub mod dedup;
pub mod engine;
pub mod fanout;
pub mod retry;
