//! Regular-expression search over command names, done by the `regex`
//! crate.
//!
//! Whether a pattern compiles and what it matches are given names below
//! and are not described further: they are what `regex` computes.

use vstd::prelude::*;

verus! {

#[verifier::external_type_specification]
#[verifier::external_body]
pub struct ExRegex(regex::Regex);

#[verifier::external_type_specification]
#[verifier::external_body]
pub struct ExRegexError(regex::Error);

/// Whether `regex::Regex::new` accepts the pattern.
pub uninterp spec fn regex_compiles(pattern: Seq<char>) -> bool;

/// Whether the regular expression `pattern` matches somewhere in
/// `haystack` (`regex::Regex::is_match`).
pub uninterp spec fn regex_is_match(pattern: Seq<char>, haystack: Seq<char>) -> bool;

/// A compiled pattern together with the text it was compiled from.
/// Only `compile` makes one, so `regex` is always the compiled `source`.
pub(crate) struct SearchPattern {
    source: String,
    regex: regex::Regex,
}

impl SearchPattern {
    /// The text the pattern was compiled from.
    pub(crate) closed spec fn source(&self) -> Seq<char> {
        self.source@
    }

    /// Calls `regex::Regex::new(source)`.  Claims that it succeeds exactly
    /// when `regex_compiles(source)` and that the result keeps `source`.
    #[verifier::external_body]
    pub(crate) fn compile(source: &str) -> (r: Result<SearchPattern, regex::Error>)
        ensures
            r is Ok <==> regex_compiles(source@),
            r matches Ok(p) ==> p.source() == source@,
    {
        match regex::Regex::new(source) {
            Ok(regex) => Ok(SearchPattern { source: source.to_owned(), regex }),
            Err(e) => Err(e),
        }
    }

    /// Calls `regex::Regex::is_match(text)`.  Claims that the answer is
    /// `regex_is_match(source, text)`.
    #[verifier::external_body]
    pub(crate) fn is_match(&self, text: &str) -> (b: bool)
        ensures
            b == regex_is_match(self.source(), text@),
    {
        self.regex.is_match(text)
    }
}

} // verus!
