//! Collectors of usage.
pub mod jsonl;
