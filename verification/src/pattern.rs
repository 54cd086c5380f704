//! Regular expressions, through the `regex` crate.
//!
//! A `TextPattern` is built only by `TextPattern::compile`, which keeps the
//! pattern text beside the compiled regex; what a match returns is named by
//! `regex_finds` over that text and the haystack.
use vstd::prelude::*;

verus! {

#[verifier::external_type_specification]
#[verifier::external_body]
pub struct ExRegex(regex::Regex);

#[verifier::external_type_specification]
#[verifier::external_body]
pub struct ExRegexError(regex::Error);

/// Whether `regex::Regex::new` accepts `pattern` (it refuses invalid
/// syntax and patterns over its size limit).
pub uninterp spec fn regex_compiles(pattern: Seq<char>) -> bool;

/// Whether the regex compiled from `pattern` matches somewhere in
/// `haystack` (what `regex::Regex::is_match` returns).
pub uninterp spec fn regex_finds(pattern: Seq<char>, haystack: Seq<char>) -> bool;

/// Calls `regex::Regex::new`; it succeeds exactly when the pattern compiles.
#[verifier::external_body]
fn regex_new(pattern: &str) -> (r: Result<regex::Regex, regex::Error>)
    ensures
        r is Ok <==> regex_compiles(pattern@),
{
    regex::Regex::new(pattern)
}

/// A compiled regular expression together with the text it was compiled from.
pub struct TextPattern {
    source: String,
    compiled: regex::Regex,
}

/// Calls `regex::Regex::is_match` on the regex held by `p`. The contract
/// claims that the result is `regex_finds` of the text that `p` was compiled
/// from, which holds because `TextPattern::compile` is the only constructor.
#[verifier::external_body]
fn regex_is_match(p: &TextPattern, haystack: &str) -> (b: bool)
    ensures
        b == regex_finds(p.source(), haystack@),
{
    p.compiled.is_match(haystack)
}

impl TextPattern {
    /// The pattern text.
    pub closed spec fn source(&self) -> Seq<char> {
        self.source@
    }

    /// Compiles `pattern`; `None` exactly when the regex crate refuses it.
    pub fn compile(pattern: &str) -> (r: Option<TextPattern>)
        ensures
            r is Some <==> regex_compiles(pattern@),
            r matches Some(p) ==> p.source() == pattern@,
    {
        match regex_new(pattern) {
            Ok(re) => Some(TextPattern { source: pattern.to_owned(), compiled: re }),
            Err(_) => None,
        }
    }

    /// The pattern text.
    pub fn source_text(&self) -> (s: &str)
        ensures
            s@ == self.source(),
    {
        self.source.as_str()
    }

    /// Whether the pattern matches somewhere in `haystack`.
    pub fn is_match(&self, haystack: &str) -> (b: bool)
        ensures
            b == regex_finds(self.source(), haystack@),
    {
        regex_is_match(self, haystack)
    }
}

} // verus!
