//! Codex Meter: token accounting, pricing and quota windows for local Codex sessions.
pub mod calendar;
pub mod collectors;
pub mod config;
pub mod db;
pub mod digest;
pub mod domain;
pub mod double;
pub mod json;
pub mod minimal;
pub mod num;
pub mod ordered;
pub mod path;
pub mod pipelines;
pub mod pricing;
pub mod privacy;
pub mod service;
pub mod text;
