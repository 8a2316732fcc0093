//! Identities, times and the records that are kept of accounts and usage.
pub mod identity;
pub mod models;
pub mod time;
