//! Search patterns: a user's input string plus mode flags, compiled into a
//! matcher.

use vstd::prelude::*;
use vstd::string::*;

use crate::hexcode::decode_hex;
use crate::hexcode::hex_bytes;
use crate::hexcode::is_hex_string;
use crate::hexcode::strip_spaces;
use crate::matching::Matcher;
use crate::matching::MatcherView;
use crate::regexmatch::CompiledRegex;
use crate::regexmatch::grep_regex_accepts;
use crate::regexmatch::regex_accepts;
use crate::regexmatch::regex_is_valid;

verus! {

/// Why a pattern could not be compiled.
#[derive(Clone, Copy, Debug, PartialEq, Eq, Structural)]
pub enum CompileError {
    /// The hex input has odd length or a non-hex character.
    InvalidHex,
    /// The regular expression does not compile.
    InvalidRegex,
}

/// A search pattern, immutable once constructed.
#[derive(Debug, Clone)]
pub enum SearchPattern {
    /// Literal text, matched as-is.
    Text(String),
    /// A decoded hex byte sequence, matched as literal bytes.
    Hex(Vec<u8>),
    /// A regular expression, used verbatim.
    Regex(String),
}

pub enum SearchPatternView {
    Text(Seq<char>),
    Hex(Seq<u8>),
    Regex(Seq<char>),
}

impl View for SearchPattern {
    type V = SearchPatternView;

    open spec fn view(&self) -> SearchPatternView {
        match self {
            SearchPattern::Text(t) => SearchPatternView::Text(t@),
            SearchPattern::Hex(b) => SearchPatternView::Hex(b@),
            SearchPattern::Regex(p) => SearchPatternView::Regex(p@),
        }
    }
}

impl SearchPattern {
    /// Build a pattern from the input string and the mode flags. The regex
    /// flag wins over the hex flag; without either the input is literal
    /// text. Hex input is rejected exactly when, after removing spaces, it
    /// has odd length or a non-hex character; a regex is rejected exactly
    /// when the engine does not accept it.
    pub fn from_input(input: &str, is_regex: bool, is_hex: bool) -> (r: Result<
        SearchPattern,
        CompileError,
    >)
        ensures
            is_regex ==> match r {
                Ok(p) => p@ == SearchPatternView::Regex(input@) && regex_accepts(input@),
                Err(e) => e == CompileError::InvalidRegex && !regex_accepts(input@),
            },
            !is_regex && is_hex ==> match r {
                Ok(p) => p@ == SearchPatternView::Hex(hex_bytes(strip_spaces(input@)))
                    && is_hex_string(strip_spaces(input@)),
                Err(e) => e == CompileError::InvalidHex && !is_hex_string(strip_spaces(input@)),
            },
            !is_regex && !is_hex ==> (r matches Ok(p) && p@ == SearchPatternView::Text(input@)),
    {
        if is_regex {
            if regex_is_valid(input) {
                Ok(SearchPattern::Regex(String::from_str(input)))
            } else {
                Err(CompileError::InvalidRegex)
            }
        } else if is_hex {
            match decode_hex(input) {
                Ok(bytes) => Ok(SearchPattern::Hex(bytes)),
                Err(e) => Err(e),
            }
        } else {
            Ok(SearchPattern::Text(String::from_str(input)))
        }
    }

    /// Compile this pattern into a matcher. Text becomes a literal matcher
    /// over the text's UTF-8 bytes; hex becomes a literal matcher over the
    /// decoded bytes; a regex is handed to the engine and fails exactly
    /// when the engine rejects it.
    pub fn get_matcher(&self) -> (r: Result<Matcher, CompileError>)
        ensures
            match self@ {
                SearchPatternView::Text(t) => r matches Ok(m) && m@ == MatcherView::Literal(
                    vstd::utf8::encode_utf8(t),
                ),
                SearchPatternView::Hex(b) => r matches Ok(m) && m@ == MatcherView::Literal(b),
                SearchPatternView::Regex(p) => match r {
                    Ok(m) => m@ == MatcherView::Pattern(p) && grep_regex_accepts(p),
                    Err(e) => e == CompileError::InvalidRegex && !grep_regex_accepts(p),
                },
            },
    {
        match self {
            SearchPattern::Text(t) => Ok(Matcher::Literal(t.as_str().as_bytes_vec())),
            SearchPattern::Hex(b) => {
                let mut needle: Vec<u8> = Vec::new();
                needle.extend_from_slice(b.as_slice());
                proof {
                    assert(needle@ =~= b@);
                }
                Ok(Matcher::Literal(needle))
            },
            SearchPattern::Regex(p) => match CompiledRegex::compile(p.as_str()) {
                Some(m) => Ok(Matcher::Pattern(m)),
                None => Err(CompileError::InvalidRegex),
            },
        }
    }
}

} // verus!
