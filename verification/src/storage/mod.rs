//! The delivery tracking store: one row per problem ever seen, and an
//! append-only ledger of delivery attempts.

pub mod clock;
pub mod database;
pub mod models;
