//! What is derived from the stored facts.
pub mod materialize;
