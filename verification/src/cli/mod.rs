//! The commands of the relay's command line.

pub mod commands;
