//! The sources of facts.
pub mod app_server;
pub mod ccusage;
pub mod jsonl;
