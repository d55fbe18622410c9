//! Settings of the relay and the rules they must meet.

pub mod settings;
