//! Relay engine for monitoring problems: classification against a tracking
//! store, fan-out planning for downstream connectors and bounded retries.

pub mod cli;
pub mod config;
pub mod dynatrace;
pub mod error;
pub mod forwarder;
pub mod storage;
pub mod text;
pub mod utils;
