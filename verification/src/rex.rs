//! Regular-expression matching, behind trusted wrappers.
//!
//! Whether a pattern compiles, and whether a haystack matches it, are
//! facts of the two texts alone; the library gives them names and trusts
//! the regex crate to compute them.

use vstd::prelude::*;

verus! {

#[verifier::external_type_specification]
#[verifier::external_body]
pub struct ExRegex(regex::Regex);

/// Whether the pattern is a valid regular expression.
pub uninterp spec fn regex_compiles(pattern: Seq<char>) -> bool;

/// Whether the haystack matches the pattern somewhere.
pub uninterp spec fn regex_accepts(pattern: Seq<char>, text: Seq<char>) -> bool;

/// A compiled pattern, remembering its source text.
pub struct CompiledRegex {
    inner: regex::Regex,
    source: String,
}

impl CompiledRegex {
    /// The pattern this value was compiled from.
    pub closed spec fn pattern(&self) -> Seq<char> {
        self.source@
    }

    /// Relies on regex::Regex::new: compilation succeeds exactly when the
    /// pattern is a valid regular expression, a fact of the pattern text
    /// alone.
    #[verifier::external_body]
    pub(crate) fn new(pattern: &str) -> (r: Option<CompiledRegex>)
        ensures
            r is Some <==> regex_compiles(pattern@),
            r matches Some(c) ==> c.pattern() == pattern@,
    {
        match regex::Regex::new(pattern) {
            Ok(re) => Some(CompiledRegex { inner: re, source: pattern.to_string() }),
            Err(_) => None,
        }
    }

    /// Relies on regex::Regex::is_match: whether the haystack matches is a
    /// fact of the pattern and haystack texts alone.
    #[verifier::external_body]
    pub(crate) fn is_match(&self, text: &str) -> (b: bool)
        ensures
            b == regex_accepts(self.pattern(), text@),
    {
        self.inner.is_match(text)
    }
}

} // verus!
