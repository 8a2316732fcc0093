//! From sources to stored facts, and from stored facts to reports.
pub mod result;
pub mod source;
