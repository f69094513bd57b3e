//! A compiled regular expression that remembers its source pattern.
//!
//! Matching is done by the `regex` crate. What a pattern matches is not
//! restated here: it is named [`regex_is_match`], a function of the pattern
//! text and the haystack alone, and the contracts of the library speak of that
//! name.

use vstd::prelude::*;

verus! {

/// `regex::Regex`, opaque here.
#[verifier::external_type_specification]
#[verifier::external_body]
pub struct ExRegex(regex::Regex);

/// `regex::Error`, opaque here.
#[verifier::external_type_specification]
#[verifier::external_body]
pub struct ExRegexError(regex::Error);

/// Whether `regex::Regex::new` accepts `pattern` (it is valid syntax and the
/// compiled program stays under the crate's default size limit).
pub uninterp spec fn regex_compiles(pattern: Seq<char>) -> bool;

/// Whether the regex compiled from `pattern` matches anywhere in `haystack`,
/// as `regex::Regex::is_match` decides it.
pub uninterp spec fn regex_is_match(pattern: Seq<char>, haystack: Seq<char>) -> bool;

/// A regular expression compiled by the `regex` crate, together with the
/// pattern text it was compiled from.
///
/// The two fields are only ever set together, by [`Pattern::compile`], from the
/// same text.
#[derive(Debug)]
pub struct Pattern {
    source: String,
    re: regex::Regex,
}

impl View for Pattern {
    type V = Seq<char>;

    /// The pattern text this regex was compiled from.
    closed spec fn view(&self) -> Seq<char> {
        self.source@
    }
}

impl Pattern {
    /// Compiles `source` with `regex::Regex::new`.
    ///
    /// Trusted wrapper of `regex::Regex::new`. It claims that the call succeeds
    /// exactly when `source` is a pattern the crate accepts (named
    /// [`regex_compiles`]), and that the returned value remembers `source` as its
    /// text; the outside call decides which patterns are accepted.
    #[verifier::external_body]
    pub(crate) fn compile(source: &str) -> (res: Result<Pattern, regex::Error>)
        ensures
            res is Ok <==> regex_compiles(source@),
            res matches Ok(p) ==> p@ == source@,
    {
        match regex::Regex::new(source) {
            Ok(re) => Ok(Pattern { source: source.to_string(), re }),
            Err(e) => Err(e),
        }
    }

    /// Whether this pattern matches anywhere in `haystack`.
    ///
    /// Trusted wrapper of `regex::Regex::is_match`. It claims that the answer is
    /// the named result [`regex_is_match`] of this pattern's text and the
    /// haystack: `is_match` depends on nothing else.
    #[verifier::external_body]
    pub(crate) fn is_match(&self, haystack: &str) -> (res: bool)
        ensures
            res == regex_is_match(self@, haystack@),
    {
        self.re.is_match(haystack)
    }
}

} // verus!
