//! The records that scans produce.
pub mod finding;
