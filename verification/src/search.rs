//! Searching one file's contents: split into lines, find the first match
//! per line, and attach surrounding context lines.

use vstd::prelude::*;
use vstd::string::*;
use vstd::utf8::encode_utf8;

use crate::matching::Matcher;
use crate::matching::MatcherView;
use crate::matching::match_of;
use crate::strutil::bytes_to_text;
use crate::strutil::lossy_decode;
use vstd::slice::slice_subrange;

verus! {

/// A line with one trailing carriage return removed.
pub open spec fn strip_cr(line: Seq<u8>) -> Seq<u8> {
    if line.len() > 0 && line.last() == 13 {
        line.drop_last()
    } else {
        line
    }
}

/// `b` split at every newline byte, keeping all segments (so a trailing
/// newline yields a final empty segment); always at least one segment.
pub open spec fn raw_split(b: Seq<u8>) -> Seq<Seq<u8>>
    decreases b.len(),
{
    if b.len() == 0 {
        seq![Seq::<u8>::empty()]
    } else if b.last() == 10 {
        raw_split(b.drop_last()).push(Seq::empty())
    } else {
        let pre = raw_split(b.drop_last());
        pre.update(pre.len() - 1, pre.last().push(b.last()))
    }
}

/// The lines of `b`: split at newlines, a carriage return before each
/// newline removed, and no final empty line for a trailing newline.
pub open spec fn lines_of(b: Seq<u8>) -> Seq<Seq<u8>> {
    let raw = raw_split(b);
    if raw.last().len() == 0 {
        raw.drop_last().map_values(|l: Seq<u8>| strip_cr(l))
    } else {
        raw.drop_last().map_values(|l: Seq<u8>| strip_cr(l)).push(raw.last())
    }
}

/// One match occurrence: where it was found, the matching line, the matched
/// text and the surrounding context lines.
#[derive(Debug)]
pub struct SearchResult {
    pub path: String,
    pub line_number: u64,
    pub line: String,
    pub matched_text: String,
    pub context_before: Vec<String>,
    pub context_after: Vec<String>,
}

pub struct SearchResultView {
    pub path: Seq<char>,
    pub line_number: int,
    pub line: Seq<char>,
    pub matched_text: Seq<char>,
    pub context_before: Seq<Seq<char>>,
    pub context_after: Seq<Seq<char>>,
}

impl View for SearchResult {
    type V = SearchResultView;

    open spec fn view(&self) -> SearchResultView {
        SearchResultView {
            path: self.path@,
            line_number: self.line_number as int,
            line: self.line@,
            matched_text: self.matched_text@,
            context_before: self.context_before.deep_view(),
            context_after: self.context_after.deep_view(),
        }
    }
}

pub open spec fn result_views(rs: Seq<SearchResult>) -> Seq<SearchResultView> {
    rs.map_values(|x: SearchResult| x@)
}

/// The context lines before line index `i` (at most `c` of them, clamped at
/// the start of the file), as display text.
pub open spec fn before_context(lines: Seq<Seq<u8>>, i: int, c: int) -> Seq<Seq<char>> {
    lines.subrange(if i >= c { i - c } else { 0 }, i).map_values(|l: Seq<u8>| lossy_decode(l))
}

/// The context lines after line index `i` (at most `c`, clamped at the end
/// of the file), as display text.
pub open spec fn after_context(lines: Seq<Seq<u8>>, i: int, c: int) -> Seq<Seq<char>> {
    lines.subrange(
        i + 1,
        if i + 1 + c <= lines.len() {
            i + 1 + c
        } else {
            lines.len() as int
        },
    ).map_values(|l: Seq<u8>| lossy_decode(l))
}

/// The result reported for a match at byte range `[s, e)` of line index `i`.
pub open spec fn result_at(
    path: Seq<char>,
    lines: Seq<Seq<u8>>,
    i: int,
    c: int,
    s: int,
    e: int,
) -> SearchResultView {
    SearchResultView {
        path: path,
        line_number: i + 1,
        line: lossy_decode(lines[i]),
        matched_text: lossy_decode(lines[i].subrange(s, e)),
        context_before: before_context(lines, i, c),
        context_after: after_context(lines, i, c),
    }
}

/// The results for all lines from index `i` on, in ascending line order:
/// one result per line whose first match exists.
pub open spec fn results_from(
    path: Seq<char>,
    lines: Seq<Seq<u8>>,
    m: MatcherView,
    c: int,
    i: int,
) -> Seq<SearchResultView>
    decreases lines.len() - i,
{
    if i < 0 || i >= lines.len() {
        Seq::empty()
    } else {
        let rest = results_from(path, lines, m, c, i + 1);
        match match_of(m, lines[i]) {
            Some((s, e)) => seq![result_at(path, lines, i, c, s, e)] + rest,
            None => rest,
        }
    }
}

/// Everything a search of one file reports.
pub open spec fn search_results(
    path: Seq<char>,
    lines: Seq<Seq<u8>>,
    m: MatcherView,
    c: int,
) -> Seq<SearchResultView> {
    results_from(path, lines, m, c, 0)
}

fn strip_cr_exec(v: Vec<u8>) -> (r: Vec<u8>)
    ensures
        r@ == strip_cr(v@),
{
    let ghost orig = v@;
    let mut v = v;
    let n = v.len();
    if n > 0 && v[n - 1] == 13 {
        v.pop();
        proof {
            assert(orig.last() == 13);
            assert(v@ =~= orig.drop_last());
        }
    }
    v
}

/// Split `bytes` into lines as `lines_of` describes.
pub fn split_lines(bytes: &[u8]) -> (r: Vec<Vec<u8>>)
    ensures
        r@.len() == lines_of(bytes@).len(),
        forall|i: int| 0 <= i < r@.len() ==> r@[i]@ == lines_of(bytes@)[i],
{
    let n = bytes.len();
    let ghost mut raw_done: Seq<Seq<u8>> = Seq::empty();
    let mut out: Vec<Vec<u8>> = Vec::new();
    let mut current: Vec<u8> = Vec::new();
    let mut i: usize = 0;
    while i < n
        invariant
            i <= n,
            n == bytes@.len(),
            raw_split(bytes@.subrange(0, i as int)) =~= raw_done.push(current@),
            out@.len() == raw_done.len(),
            forall|j: int| 0 <= j < out@.len() ==> out@[j]@ == strip_cr(#[trigger] raw_done[j]),
        decreases n - i,
    {
        let b = bytes[i];
        proof {
            assert(bytes@.subrange(0, (i + 1) as int).drop_last() =~= bytes@.subrange(0, i as int));
            assert(bytes@.subrange(0, (i + 1) as int).last() == bytes@[i as int]);
        }
        if b == 10 {
            proof {
                raw_done = raw_done.push(current@);
            }
            let stripped = strip_cr_exec(current);
            out.push(stripped);
            current = Vec::new();
        } else {
            let ghost pre = raw_split(bytes@.subrange(0, i as int));
            current.push(b);
            proof {
                assert(pre.update(pre.len() - 1, pre.last().push(b)) =~= raw_done.push(current@));
            }
        }
        i += 1;
    }
    proof {
        assert(bytes@.subrange(0, n as int) =~= bytes@);
        assert(raw_split(bytes@) == raw_done.push(current@));
        assert(raw_split(bytes@).last() == current@);
        assert(raw_split(bytes@).drop_last() =~= raw_done);
    }
    if current.len() == 0 {
        proof {
            assert forall|j: int| 0 <= j < out@.len() implies out@[j]@ == lines_of(bytes@)[j] by {
                assert(lines_of(bytes@)[j] == strip_cr(raw_done[j]));
            }
        }
        out
    } else {
        let ghost final_line = current@;
        out.push(current);
        proof {
            assert forall|j: int| 0 <= j < out@.len() implies out@[j]@ == lines_of(bytes@)[j] by {
                if j < out@.len() - 1 {
                    assert(out@[j]@ == strip_cr(raw_done[j]));
                    assert(lines_of(bytes@)[j] == raw_done.map_values(
                        |l: Seq<u8>| strip_cr(l),
                    )[j]);
                } else {
                    assert(out@[j]@ == final_line);
                }
            }
        }
        out
    }
}

/// The `count` context lines next to `line_idx`: the ones just before it
/// when `before` is set (clamped at the file start), else the ones just
/// after it (clamped at the file end).
pub fn get_context_lines(lines: &[String], line_idx: usize, count: usize, before: bool) -> (r: Vec<
    String,
>)
    requires
        line_idx < lines@.len(),
    ensures
        before ==> r@ == lines@.subrange(
            if line_idx >= count {
                line_idx - count
            } else {
                0
            },
            line_idx as int,
        ),
        !before ==> r@ == lines@.subrange(
            line_idx + 1,
            if line_idx + count + 1 <= lines@.len() {
                line_idx + count + 1
            } else {
                lines@.len() as int
            },
        ),
{
    let len = lines.len();
    let start: usize;
    let end: usize;
    if before {
        start = if line_idx >= count {
            line_idx - count
        } else {
            0
        };
        end = line_idx;
    } else {
        start = line_idx + 1;
        let rem = len - start;
        let take = if count < rem {
            count
        } else {
            rem
        };
        end = start + take;
    }
    let mut out: Vec<String> = Vec::new();
    let mut j: usize = start;
    while j < end
        invariant
            start <= j <= end,
            end <= len,
            len == lines@.len(),
            out@ =~= lines@.subrange(start as int, j as int),
        decreases end - j,
    {
        out.push(lines[j].clone());
        proof {
            assert(lines@.subrange(start as int, (j + 1) as int) =~= lines@.subrange(
                start as int,
                j as int,
            ).push(lines@[j as int]));
        }
        j += 1;
    }
    out
}

/// Search one file's text for the pattern. `path` only labels the results;
/// `content` is the file's full text, already read and decoded by the
/// caller. Returns one result per matching line, in ascending line order,
/// each carrying the first match of its line and `context_lines` lines of
/// context on both sides.
pub fn search_in_file(path: &str, content: &str, matcher: &Matcher, context_lines: usize) -> (r:
    Vec<SearchResult>)
    ensures
        result_views(r@) == search_results(
            path@,
            lines_of(encode_utf8(content@)),
            matcher@,
            context_lines as int,
        ),
{
    let ghost lines = lines_of(encode_utf8(content@));
    let ghost c = context_lines as int;
    let ghost m = matcher@;
    let bytes = content.as_bytes_vec();
    let byte_lines = split_lines(bytes.as_slice());
    let nlines = byte_lines.len();
    let mut text_lines: Vec<String> = Vec::new();
    let mut t: usize = 0;
    while t < nlines
        invariant
            t <= nlines,
            nlines == byte_lines@.len() == lines.len(),
            forall|j: int| 0 <= j < nlines ==> byte_lines@[j]@ == #[trigger] lines[j],
            text_lines@.len() == t,
            forall|j: int| 0 <= j < t ==> #[trigger] text_lines@[j]@ == lossy_decode(lines[j]),
        decreases nlines - t,
    {
        let text = bytes_to_text(byte_lines[t].as_slice());
        text_lines.push(text);
        t += 1;
    }
    let mut results: Vec<SearchResult> = Vec::new();
    let mut i: usize = 0;
    while i < nlines
        invariant
            i <= nlines,
            nlines == byte_lines@.len() == lines.len(),
            c == context_lines as int,
            m == matcher@,
            forall|j: int| 0 <= j < nlines ==> byte_lines@[j]@ == #[trigger] lines[j],
            text_lines@.len() == nlines,
            forall|j: int| 0 <= j < nlines ==> #[trigger] text_lines@[j]@ == lossy_decode(lines[j]),
            result_views(results@) + results_from(path@, lines, m, c, i as int) =~= search_results(
                path@,
                lines,
                m,
                c,
            ),
        decreases nlines - i,
    {
        let line = &byte_lines[i];
        match matcher.find_first(line.as_slice()) {
            Some((s, e)) => {
                let matched_slice = slice_subrange(line.as_slice(), s, e);
                let matched_text = bytes_to_text(matched_slice);
                let line_text = text_lines[i].clone();
                let context_before = get_context_lines(text_lines.as_slice(), i, context_lines, true);
                let context_after = get_context_lines(text_lines.as_slice(), i, context_lines, false);
                let res = SearchResult {
                    path: String::from_str(path),
                    line_number: (i as u64) + 1,
                    line: line_text,
                    matched_text,
                    context_before,
                    context_after,
                };
                proof {
                    let cb = res.context_before@;
                    let ca = res.context_after@;
                    let lo = if i as int >= c {
                        i as int - c
                    } else {
                        0
                    };
                    let hi = if i as int + c + 1 <= lines.len() {
                        i as int + c + 1
                    } else {
                        lines.len() as int
                    };
                    assert(cb == text_lines@.subrange(lo, i as int));
                    assert forall|j: int|
                        0 <= j < res@.context_before.len() implies res@.context_before[j]
                        == before_context(lines, i as int, c)[j] by {
                        assert(cb[j] == text_lines@[lo + j]);
                        assert(cb[j]@ == lossy_decode(lines[lo + j]));
                    }
                    assert(res@.context_before =~= before_context(lines, i as int, c));
                    assert(ca == text_lines@.subrange(i as int + 1, hi));
                    assert forall|j: int|
                        0 <= j < res@.context_after.len() implies res@.context_after[j]
                        == after_context(lines, i as int, c)[j] by {
                        assert(ca[j] == text_lines@[i as int + 1 + j]);
                        assert(ca[j]@ == lossy_decode(lines[i as int + 1 + j]));
                    }
                    assert(res@.context_after =~= after_context(lines, i as int, c));
                    assert(res@ == result_at(path@, lines, i as int, c, s as int, e as int));
                    assert(results_from(path@, lines, m, c, i as int) == seq![
                        result_at(path@, lines, i as int, c, s as int, e as int),
                    ] + results_from(path@, lines, m, c, i as int + 1));
                    assert(result_views(results@.push(res)) =~= result_views(results@).push(res@));
                    assert(result_views(results@.push(res)) + results_from(
                        path@,
                        lines,
                        m,
                        c,
                        i as int + 1,
                    ) =~= search_results(path@, lines, m, c));
                }
                results.push(res);
            },
            None => {
                proof {
                    assert(results_from(path@, lines, m, c, i as int) == results_from(
                        path@,
                        lines,
                        m,
                        c,
                        i as int + 1,
                    ));
                }
            },
        }
        i += 1;
    }
    proof {
        assert(results_from(path@, lines, m, c, i as int) =~= Seq::<SearchResultView>::empty());
        assert(result_views(results@) =~= search_results(path@, lines, m, c));
    }
    results
}

/// Every result a single-file search reports carries that file's path.
pub proof fn lemma_results_path_constant(
    path: Seq<char>,
    lines: Seq<Seq<u8>>,
    m: MatcherView,
    c: int,
    i: int,
)
    ensures
        forall|k: int|
            0 <= k < results_from(path, lines, m, c, i).len() ==> (#[trigger] results_from(
                path,
                lines,
                m,
                c,
                i,
            )[k]).path == path,
    decreases lines.len() - i,
{
    if i < 0 || i >= lines.len() {
    } else {
        lemma_results_path_constant(path, lines, m, c, i + 1);
        let cur = results_from(path, lines, m, c, i);
        let rest = results_from(path, lines, m, c, i + 1);
        assert forall|k: int| 0 <= k < cur.len() implies (#[trigger] cur[k]).path == path by {
            match match_of(m, lines[i]) {
                Some((s, e)) => {
                    if k == 0 {
                        assert(cur[k] == result_at(path, lines, i, c, s, e));
                    } else {
                        assert(cur[k] == rest[k - 1]);
                    }
                },
                None => {
                    assert(cur[k] == rest[k]);
                },
            }
        }
    }
}

/// For a match on 1-based line `l = i + 1` of a file with `n` lines and
/// `c` context lines: the before-context holds `min(c, l - 1)` lines and
/// ends at line `l - 1`; the after-context holds `min(c, n - l)` lines and
/// starts at line `l + 1`.
pub proof fn lemma_context_extents(lines: Seq<Seq<u8>>, i: int, c: int)
    requires
        0 <= i < lines.len(),
        0 <= c,
    ensures
        before_context(lines, i, c).len() == if c <= i {
            c
        } else {
            i
        },
        forall|j: int|
            0 <= j < before_context(lines, i, c).len() ==> #[trigger] before_context(lines, i, c)[j]
                == lossy_decode(lines[i - before_context(lines, i, c).len() + j]),
        after_context(lines, i, c).len() == if c <= lines.len() - i - 1 {
            c
        } else {
            lines.len() - i - 1
        },
        forall|j: int|
            0 <= j < after_context(lines, i, c).len() ==> #[trigger] after_context(lines, i, c)[j]
                == lossy_decode(lines[i + 1 + j]),
{
}

} // verus!
