//! The boundary to the regular-expression engines: pattern validation
//! through the `regex` crate, and compiled matchers through `grep_regex`.
//! Everything an engine decides is named here as a function of the pattern
//! text (and the haystack), never restated.

use grep_matcher::Matcher;
use vstd::prelude::*;

verus! {

/// `grep_regex::RegexMatcher` carries a compiled regular expression; its
/// contents stay opaque here.
#[verifier::external_type_specification]
#[verifier::external_body]
pub struct ExRegexMatcher(grep_regex::RegexMatcher);

/// Whether `regex::Regex::new` accepts the pattern: a function of the
/// pattern text alone.
pub uninterp spec fn regex_accepts(pattern: Seq<char>) -> bool;

/// Whether `grep_regex::RegexMatcher::new` accepts the pattern: a function
/// of the pattern text alone.
pub uninterp spec fn grep_regex_accepts(pattern: Seq<char>) -> bool;

/// What `grep_matcher::Matcher::find` returns for the matcher compiled from
/// `pattern`, on `haystack`: the byte range of the first match, if any.
pub uninterp spec fn grep_regex_find(pattern: Seq<char>, haystack: Seq<u8>) -> Option<
    (usize, usize),
>;

/// Relies on `regex::Regex::new`: it returns `Ok` exactly when the pattern
/// is a valid regular expression under the crate's syntax and limits.
#[verifier::external_body]
pub(crate) fn regex_is_valid(pattern: &str) -> (r: bool)
    ensures
        r == regex_accepts(pattern@),
{
    regex::Regex::new(pattern).is_ok()
}

/// A compiled regular expression, kept together with its pattern text so
/// that contracts can speak of the pattern it was built from.
pub struct CompiledRegex {
    pattern: String,
    inner: grep_regex::RegexMatcher,
}

impl CompiledRegex {
    /// The pattern this matcher was compiled from.
    pub closed spec fn pattern_view(&self) -> Seq<char> {
        self.pattern@
    }

    /// Relies on `grep_regex::RegexMatcher::new`: success depends on the
    /// pattern text alone.
    #[verifier::external_body]
    pub(crate) fn compile(pattern: &str) -> (r: Option<CompiledRegex>)
        ensures
            r matches Some(m) ==> m.pattern_view() == pattern@ && grep_regex_accepts(pattern@),
            r is None ==> !grep_regex_accepts(pattern@),
    {
        match grep_regex::RegexMatcher::new(pattern) {
            Ok(inner) => Some(CompiledRegex { pattern: pattern.to_owned(), inner }),
            Err(_) => None,
        }
    }

    /// Relies on `grep_matcher::Matcher::find`: the start and end byte
    /// offsets of the first match in the haystack, offsets that lie within
    /// it; `None` when nothing matches.
    #[verifier::external_body]
    pub(crate) fn find(&self, haystack: &[u8]) -> (r: Option<(usize, usize)>)
        ensures
            r == grep_regex_find(self.pattern_view(), haystack@),
            r matches Some((s, e)) ==> s <= e <= haystack@.len(),
    {
        match self.inner.find(haystack) {
            Ok(Some(m)) => Some((m.start(), m.end())),
            _ => None,
        }
    }
}

} // verus!
