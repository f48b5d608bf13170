//! Matchers: locating the first occurrence of a compiled pattern in a line
//! of bytes. Literal patterns (text and hex) are matched here; regular
//! expressions go through the compiled engine.

use vstd::prelude::*;

use crate::regexmatch::CompiledRegex;
use crate::regexmatch::grep_regex_find;

verus! {

/// `needle` occurs in `hay` starting at byte offset `i`.
pub open spec fn occurs_at(needle: Seq<u8>, hay: Seq<u8>, i: int) -> bool {
    0 <= i && i + needle.len() <= hay.len() && hay.subrange(i, i + needle.len()) == needle
}

/// The first offset `>= i` at which `needle` occurs in `hay`, scanning left
/// to right.
pub open spec fn lit_find_from(needle: Seq<u8>, hay: Seq<u8>, i: int) -> Option<int>
    decreases hay.len() - i,
{
    if i < 0 || i > hay.len() {
        None
    } else if i + needle.len() > hay.len() {
        None
    } else if needle.len() == 0 {
        Some(i)
    } else if hay.subrange(i, i + needle.len()) == needle {
        Some(i)
    } else {
        lit_find_from(needle, hay, i + 1)
    }
}

/// The leftmost occurrence of `needle` in `hay`.
pub open spec fn lit_find(needle: Seq<u8>, hay: Seq<u8>) -> Option<int> {
    lit_find_from(needle, hay, 0)
}

/// A compiled matcher: a literal byte sequence, or a regular expression.
pub enum Matcher {
    Literal(Vec<u8>),
    Pattern(CompiledRegex),
}

pub enum MatcherView {
    Literal(Seq<u8>),
    Pattern(Seq<char>),
}

impl View for Matcher {
    type V = MatcherView;

    open spec fn view(&self) -> MatcherView {
        match self {
            Matcher::Literal(needle) => MatcherView::Literal(needle@),
            Matcher::Pattern(m) => MatcherView::Pattern(m.pattern_view()),
        }
    }
}

/// What a matcher finds on a haystack: the byte range of the first match.
pub open spec fn match_of(m: MatcherView, hay: Seq<u8>) -> Option<(int, int)> {
    match m {
        MatcherView::Literal(needle) => match lit_find(needle, hay) {
            Some(i) => Some((i, i + needle.len())),
            None => None,
        },
        MatcherView::Pattern(p) => match grep_regex_find(p, hay) {
            Some((s, e)) => Some((s as int, e as int)),
            None => None,
        },
    }
}

pub open spec fn opt_range_as_ints(r: Option<(usize, usize)>) -> Option<(int, int)> {
    match r {
        Some((s, e)) => Some((s as int, e as int)),
        None => None,
    }
}

impl Matcher {
    /// The half-open byte range of the first match in `hay`, or `None`.
    pub fn find_first(&self, hay: &[u8]) -> (r: Option<(usize, usize)>)
        ensures
            opt_range_as_ints(r) == match_of(self@, hay@),
            r matches Some((s, e)) ==> s <= e <= hay@.len(),
    {
        let hay_len = hay.len();
        match self {
            Matcher::Literal(needle) => {
                match lit_find_exec(needle, hay) {
                    Some(i) => Some((i, i + needle.len())),
                    None => None,
                }
            },
            Matcher::Pattern(m) => m.find(hay),
        }
    }
}

fn bytes_match_at(needle: &Vec<u8>, hay: &[u8], at: usize) -> (r: bool)
    requires
        at + needle@.len() <= hay@.len(),
    ensures
        r == (hay@.subrange(at as int, at + needle@.len()) == needle@),
{
    let hay_len = hay.len();
    let m = needle.len();
    let mut j: usize = 0;
    while j < m
        invariant
            j <= m,
            m == needle@.len(),
            hay_len == hay@.len(),
            at + m <= hay@.len(),
            forall|k: int| 0 <= k < j ==> hay@[at + k] == needle@[k],
        decreases m - j,
    {
        if hay[at + j] != needle[j] {
            proof {
                assert(hay@.subrange(at as int, at + m as int)[j as int] == hay@[at + j]);
            }
            return false;
        }
        j += 1;
    }
    proof {
        assert(hay@.subrange(at as int, at + m as int) =~= needle@);
    }
    true
}

fn lit_find_exec(needle: &Vec<u8>, hay: &[u8]) -> (r: Option<usize>)
    ensures
        match r {
            Some(i) => lit_find(needle@, hay@) == Some(i as int) && i + needle@.len() <= hay@.len(),
            None => lit_find(needle@, hay@) is None,
        },
{
    let n = hay.len();
    let m = needle.len();
    if m > n {
        return None;
    }
    if m == 0 {
        proof {
            assert(hay@.subrange(0, 0) =~= needle@);
        }
        return Some(0);
    }
    let lim = n - m;
    let mut i: usize = 0;
    while i <= lim
        invariant
            1 <= m <= n,
            n == hay@.len(),
            m == needle@.len(),
            lim == n - m,
            i <= lim + 1,
            lit_find(needle@, hay@) == lit_find_from(needle@, hay@, i as int),
        decreases lim + 1 - i,
    {
        if bytes_match_at(needle, hay, i) {
            proof {
                assert(lit_find_from(needle@, hay@, i as int) == Some(i as int));
            }
            return Some(i);
        }
        proof {
            assert(lit_find_from(needle@, hay@, i as int) == lit_find_from(
                needle@,
                hay@,
                i as int + 1,
            ));
        }
        i += 1;
    }
    proof {
        assert(lit_find_from(needle@, hay@, i as int) is None);
    }
    None
}

/// A literal matcher reports the leftmost occurrence of its needle, with
/// the exact end offset, and reports nothing when the needle does not occur.
/// Together with the matcher construction contracts this says: a text
/// pattern matches exactly the literal occurrences of its UTF-8 bytes, so
/// metacharacters in it carry no meaning, and a hex pattern matches the
/// decoded bytes byte-for-byte.
pub proof fn lemma_literal_matcher_exact(needle: Seq<u8>, hay: Seq<u8>)
    ensures
        match match_of(MatcherView::Literal(needle), hay) {
            Some((s, e)) => {
                &&& occurs_at(needle, hay, s)
                &&& e == s + needle.len()
                &&& forall|j: int| 0 <= j < s ==> !occurs_at(needle, hay, j)
            },
            None => forall|j: int| !occurs_at(needle, hay, j),
        },
{
    lemma_lit_find_from_characterization(needle, hay, 0);
    if lit_find(needle, hay) is None {
        assert forall|j: int| !occurs_at(needle, hay, j) by {
            if j < 0 {
            } else if j > hay.len() {
            } else {
                assert(!occurs_at(needle, hay, j));
            }
        }
    }
}

proof fn lemma_lit_find_from_characterization(needle: Seq<u8>, hay: Seq<u8>, start: int)
    requires
        0 <= start <= hay.len(),
    ensures
        match lit_find_from(needle, hay, start) {
            Some(i) => {
                &&& start <= i
                &&& occurs_at(needle, hay, i)
                &&& forall|j: int| start <= j < i ==> !occurs_at(needle, hay, j)
            },
            None => forall|j: int| start <= j <= hay.len() ==> !occurs_at(needle, hay, j),
        },
    decreases hay.len() - start,
{
    if start + needle.len() > hay.len() {
        assert forall|j: int| start <= j <= hay.len() implies !occurs_at(needle, hay, j) by {}
    } else if needle.len() == 0 {
        assert(hay.subrange(start, start) =~= needle);
    } else if hay.subrange(start, start + needle.len()) == needle {
    } else {
        lemma_lit_find_from_characterization(needle, hay, start + 1);
    }
}

} // verus!
