//! Helpers around the process that runs the relay.

pub mod process;
