//! Why an analysis could not run.
use vstd::prelude::*;

verus! {

/// Errors of the package and source analyzers.
#[derive(Debug, Clone)]
pub enum ScanError {
    /// A built-in regular expression was refused by the regex crate; it holds
    /// the pattern text.
    InvalidPattern(String),
    /// A file could not be read; it holds the reader's message.
    Unreadable(String),
    /// A file was not valid JSON; it holds the parser's message.
    Malformed(String),
    /// More findings than the `u32` finding counter can number.
    TooManyFindings,
}

} // verus!
