use vstd::prelude::*;

pub mod commands;
pub mod engine;
pub mod error;
pub mod files;
pub mod json;
pub mod models;
pub mod pattern;
pub mod text;

verus! {
} // verus!
