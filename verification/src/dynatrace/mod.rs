//! The monitoring API as the relay sees it: the records it returns and the
//! bookkeeping of a paged fetch.

pub mod client;
pub mod models;
