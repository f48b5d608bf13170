//! The scan-match-aggregate pipeline: deciding which entries to process,
//! searching each accepted file, and aggregating results into running
//! totals with per-file deduplication.
//!
//! `run_pipeline` is the sequential reference semantics of a whole run over
//! an already-listed set of directory entries; `Aggregator` is the
//! incremental consumer state that a streaming run updates one result at a
//! time.

use vstd::prelude::*;
use vstd::seq_lib::*;
use vstd::utf8::encode_utf8;

use crate::filter::FileFilter;
use crate::filter::FileFilterView;
use crate::filter::spec_should_process;
use crate::matching::Matcher;
use crate::matching::MatcherView;
use crate::search::SearchResult;
use crate::search::SearchResultView;
use crate::search::lemma_results_path_constant;
use crate::search::lines_of;
use crate::search::result_views;
use crate::search::search_in_file;
use crate::search::search_results;
use crate::summary::SearchSummary;

verus! {

broadcast use {vstd::set::group_set_axioms, vstd::seq_lib::seq_to_set_is_finite};

/// One filesystem entry as the walker hands it over: its path, whether it
/// is a regular file, its size when the metadata could be read, and its
/// text when the file could be read and decoded.
pub struct FileEntry {
    pub path: String,
    pub is_file: bool,
    pub size: Option<u64>,
    pub content: Option<String>,
}

pub struct FileEntryView {
    pub path: Seq<char>,
    pub is_file: bool,
    pub size: Option<u64>,
    pub content: Option<Seq<char>>,
}

impl View for FileEntry {
    type V = FileEntryView;

    open spec fn view(&self) -> FileEntryView {
        FileEntryView {
            path: self.path@,
            is_file: self.is_file,
            size: self.size,
            content: match self.content {
                Option::Some(ref s) => Option::Some(s@),
                Option::None => Option::None,
            },
        }
    }
}

pub open spec fn entry_views(s: Seq<FileEntry>) -> Seq<FileEntryView> {
    s.map_values(|e: FileEntry| e@)
}

/// An entry the pipeline hands to the search: a regular file the filter
/// accepts.
pub open spec fn accepted(f: FileFilterView, e: FileEntryView) -> bool {
    e.is_file && spec_should_process(f, e.path, e.size)
}

/// The results one entry contributes: none when its content could not be
/// read.
pub open spec fn file_results(e: FileEntryView, m: MatcherView, c: int) -> Seq<SearchResultView> {
    match e.content {
        Option::Some(text) => search_results(e.path, lines_of(encode_utf8(text)), m, c),
        Option::None => Seq::empty(),
    }
}

/// How many entries the filter accepts.
pub open spec fn seen_count(f: FileFilterView, entries: Seq<FileEntryView>) -> int
    decreases entries.len(),
{
    if entries.len() == 0 {
        0
    } else {
        seen_count(f, entries.drop_last()) + if accepted(f, entries.last()) {
            1int
        } else {
            0int
        }
    }
}

/// How many accepted entries could also be read.
pub open spec fn processed_count(f: FileFilterView, entries: Seq<FileEntryView>) -> int
    decreases entries.len(),
{
    if entries.len() == 0 {
        0
    } else {
        processed_count(f, entries.drop_last()) + if accepted(f, entries.last())
            && entries.last().content is Some {
            1int
        } else {
            0int
        }
    }
}

/// Every result of a whole run, in entry order and, within one file, in
/// ascending line order.
pub open spec fn all_results(
    f: FileFilterView,
    entries: Seq<FileEntryView>,
    m: MatcherView,
    c: int,
) -> Seq<SearchResultView>
    decreases entries.len(),
{
    if entries.len() == 0 {
        Seq::empty()
    } else {
        all_results(f, entries.drop_last(), m, c) + if accepted(f, entries.last()) {
            file_results(entries.last(), m, c)
        } else {
            Seq::empty()
        }
    }
}

/// The set of paths that occur among a run's results.
pub open spec fn matched_path_set(rs: Seq<SearchResultView>) -> Set<Seq<char>>
    decreases rs.len(),
{
    if rs.len() == 0 {
        Set::empty()
    } else {
        matched_path_set(rs.drop_last()).insert(rs.last().path)
    }
}

/// How many accepted, readable entries contain at least one match.
pub open spec fn matched_count(
    f: FileFilterView,
    entries: Seq<FileEntryView>,
    m: MatcherView,
    c: int,
) -> int
    decreases entries.len(),
{
    if entries.len() == 0 {
        0
    } else {
        matched_count(f, entries.drop_last(), m, c) + if accepted(f, entries.last())
            && file_results(entries.last(), m, c).len() > 0 {
            1int
        } else {
            0int
        }
    }
}

proof fn lemma_matched_path_set_finite(rs: Seq<SearchResultView>)
    ensures
        matched_path_set(rs).finite(),
    decreases rs.len(),
{
    if rs.len() > 0 {
        lemma_matched_path_set_finite(rs.drop_last());
    }
}

proof fn lemma_matched_path_set_append(a: Seq<SearchResultView>, b: Seq<SearchResultView>)
    ensures
        matched_path_set(a + b) == matched_path_set(a).union(matched_path_set(b)),
    decreases b.len(),
{
    if b.len() == 0 {
        assert(a + b =~= a);
        assert(matched_path_set(a).union(matched_path_set(b)) =~= matched_path_set(a));
    } else {
        lemma_matched_path_set_append(a, b.drop_last());
        assert((a + b).drop_last() =~= a + b.drop_last());
        assert((a + b).last() == b.last());
        assert(matched_path_set(a + b) =~= matched_path_set(a).union(matched_path_set(b)));
    }
}

proof fn lemma_to_set_push<A>(s: Seq<A>, x: A)
    ensures
        s.push(x).to_set() == s.to_set().insert(x),
{
    assert forall|y: A| s.push(x).to_set().contains(y) == s.to_set().insert(x).contains(y) by {
        if s.push(x).contains(y) {
            let j = choose|j: int| 0 <= j < s.push(x).len() && s.push(x)[j] == y;
            if j < s.len() {
                assert(s[j] == y);
            }
        }
        if s.contains(y) {
            let j = choose|j: int| 0 <= j < s.len() && s[j] == y;
            assert(s.push(x)[j] == y);
        }
        if y == x {
            assert(s.push(x)[s.len() as int] == y);
        }
    }
    assert(s.push(x).to_set() =~= s.to_set().insert(x));
}

proof fn lemma_path_set_of_constant(rs: Seq<SearchResultView>, p: Seq<char>)
    requires
        forall|k: int| 0 <= k < rs.len() ==> (#[trigger] rs[k]).path == p,
    ensures
        rs.len() == 0 ==> matched_path_set(rs) == Set::<Seq<char>>::empty(),
        rs.len() > 0 ==> matched_path_set(rs) == Set::<Seq<char>>::empty().insert(p),
    decreases rs.len(),
{
    if rs.len() > 0 {
        lemma_path_set_of_constant(rs.drop_last(), p);
        if rs.len() == 1 {
            assert(matched_path_set(rs) =~= Set::<Seq<char>>::empty().insert(p));
        } else {
            assert(matched_path_set(rs) =~= Set::<Seq<char>>::empty().insert(p));
        }
    }
}

fn contains_path(seen: &Vec<String>, path: &String) -> (r: bool)
    ensures
        r == seen@.map_values(|s: String| s@).contains(path@),
{
    let n = seen.len();
    let mut i: usize = 0;
    while i < n
        invariant
            i <= n,
            n == seen@.len(),
            forall|j: int| 0 <= j < i ==> (#[trigger] seen@[j])@ != path@,
        decreases n - i,
    {
        if seen[i].eq(path) {
            proof {
                let map = seen@.map_values(|s: String| s@);
                assert(map[i as int] == path@);
                assert(map.contains(path@));
            }
            return true;
        }
        i += 1;
    }
    proof {
        let map = seen@.map_values(|s: String| s@);
        assert forall|k: int| 0 <= k < map.len() implies map[k] != path@ by {
            assert(map[k] == seen@[k]@);
        }
        assert(!map.contains(path@));
    }
    false
}

/// The single consumer's state: the running totals and the set of paths
/// already counted as matched files.
pub struct Aggregator {
    pub summary: SearchSummary,
    seen_paths: Vec<String>,
}

impl Aggregator {
    /// The running totals, as a spec value.
    pub closed spec fn spec_summary(&self) -> SearchSummary {
        self.summary
    }

    /// The paths counted so far.
    pub closed spec fn seen(&self) -> Set<Seq<char>> {
        self.seen_paths@.map_values(|s: String| s@).to_set()
    }

    pub closed spec fn wf(&self) -> bool {
        &&& self.seen_paths@.map_values(|s: String| s@).no_duplicates()
        &&& self.summary.matched_files == self.seen_paths@.len()
        &&& self.summary.matched_files <= self.summary.total_matches
    }

    pub fn new() -> (a: Aggregator)
        ensures
            a.wf(),
            a.seen() == Set::<Seq<char>>::empty(),
            a.spec_summary().total_files == 0,
            a.spec_summary().matched_files == 0,
            a.spec_summary().total_matches == 0,
    {
        let a = Aggregator { summary: SearchSummary::new(), seen_paths: Vec::new() };
        proof {
            assert(a.seen_paths@.map_values(|s: String| s@) =~= Seq::<Seq<char>>::empty());
            assert(a.seen() =~= Set::<Seq<char>>::empty());
        }
        a
    }

    /// Consume one result: the match total grows by one, and the matched
    /// file total grows exactly when this path has not been seen before.
    pub fn record(&mut self, result: &SearchResult)
        requires
            old(self).wf(),
            old(self).spec_summary().total_matches < u64::MAX,
        ensures
            final(self).wf(),
            final(self).spec_summary().total_matches == old(self).spec_summary().total_matches + 1,
            final(self).spec_summary().total_files == old(self).spec_summary().total_files,
            final(self).seen() == old(self).seen().insert(result.path@),
            final(self).spec_summary().matched_files == old(self).spec_summary().matched_files + if old(
                self,
            ).seen().contains(result.path@) {
                0int
            } else {
                1int
            },
    {
        self.summary.total_matches = self.summary.total_matches + 1;
        let ghost old_map = self.seen_paths@.map_values(|s: String| s@);
        if !contains_path(&self.seen_paths, &result.path) {
            self.seen_paths.push(result.path.clone());
            self.summary.matched_files = self.summary.matched_files + 1;
            proof {
                let new_map = self.seen_paths@.map_values(|s: String| s@);
                assert(new_map =~= old_map.push(result.path@));
                assert forall|i: int, j: int|
                    0 <= i < new_map.len() && 0 <= j < new_map.len() && i != j implies new_map[i]
                    != new_map[j] by {
                    if i < old_map.len() && j < old_map.len() {
                    } else if i < old_map.len() {
                        assert(new_map[j] == result.path@);
                        if new_map[i] == result.path@ {
                            assert(old_map.contains(result.path@));
                        }
                    } else {
                        assert(new_map[i] == result.path@);
                        if new_map[j] == result.path@ {
                            assert(old_map.contains(result.path@));
                        }
                    }
                }
                lemma_to_set_push(old_map, result.path@);
                assert(self.seen() =~= old(self).seen().insert(result.path@));
            }
        } else {
            proof {
                assert(self.seen() =~= old(self).seen().insert(result.path@));
            }
        }
    }

    /// Record how many files the walk saw, once the walk is done.
    pub fn set_total_files(&mut self, total_files: u64)
        requires
            old(self).wf(),
        ensures
            final(self).wf(),
            final(self).spec_summary().total_files == total_files,
            final(self).spec_summary().matched_files == old(self).spec_summary().matched_files,
            final(self).spec_summary().total_matches == old(self).spec_summary().total_matches,
            final(self).seen() == old(self).seen(),
    {
        self.summary.total_files = total_files;
    }
}

/// Everything one whole run returns.
pub struct PipelineOutcome {
    pub summary: SearchSummary,
    pub results: Vec<SearchResult>,
    pub processed_files: u64,
}

/// The sequential reference run over an already-listed set of entries:
/// filter every entry, search each accepted readable file, and aggregate.
/// The summary reports exactly the number of accepted entries, the number
/// of distinct matched paths, and the total number of match occurrences;
/// the results come in entry order, ascending line order within a file.
pub fn run_pipeline(
    entries: &Vec<FileEntry>,
    filter: &FileFilter,
    matcher: &Matcher,
    context_lines: usize,
) -> (out: PipelineOutcome)
    ensures
        ({
            let evs = entry_views(entries@);
            let rs = all_results(filter@, evs, matcher@, context_lines as int);
            &&& out.summary.total_files == seen_count(filter@, evs)
            &&& out.processed_files == processed_count(filter@, evs)
            &&& result_views(out.results@) == rs
            &&& out.summary.total_matches == rs.len()
            &&& out.summary.matched_files == matched_path_set(rs).len()
        }),
{
    let ghost evs = entry_views(entries@);
    let ghost f = filter@;
    let ghost m = matcher@;
    let ghost c = context_lines as int;
    let n = entries.len();
    let mut total_files: u64 = 0;
    let mut processed: u64 = 0;
    let mut results: Vec<SearchResult> = Vec::new();
    let mut seen: Vec<String> = Vec::new();
    proof {
        assert(seen@.map_values(|s: String| s@) =~= Seq::<Seq<char>>::empty());
    }
    let mut i: usize = 0;
    while i < n
        invariant
            i <= n,
            n == entries@.len(),
            evs == entry_views(entries@),
            f == filter@,
            m == matcher@,
            c == context_lines as int,
            evs.len() == n,
            total_files == seen_count(f, evs.subrange(0, i as int)),
            total_files <= i,
            processed == processed_count(f, evs.subrange(0, i as int)),
            processed <= i,
            result_views(results@) =~= all_results(f, evs.subrange(0, i as int), m, c),
            seen@.map_values(|s: String| s@).no_duplicates(),
            seen@.map_values(|s: String| s@).to_set() =~= matched_path_set(
                all_results(f, evs.subrange(0, i as int), m, c),
            ),
        decreases n - i,
    {
        let ghost prefix = evs.subrange(0, i as int);
        let ghost prefix2 = evs.subrange(0, (i + 1) as int);
        proof {
            assert(prefix2.drop_last() =~= prefix);
            assert(prefix2.last() == evs[i as int]);
            assert(evs[i as int] == entries@[i as int]@);
        }
        let e = &entries[i];
        let is_accepted = e.is_file && filter.should_process(e.path.as_str(), e.size);
        proof {
            assert(is_accepted == accepted(f, evs[i as int]));
        }
        if is_accepted {
            total_files = total_files + 1;
            match &e.content {
                Option::Some(text) => {
                    let mut file_res = search_in_file(
                        e.path.as_str(),
                        text.as_str(),
                        matcher,
                        context_lines,
                    );
                    let ghost frs = file_results(evs[i as int], m, c);
                    proof {
                        assert(evs[i as int].content == Option::Some(text@));
                        assert(result_views(file_res@) == frs);
                        lemma_results_path_constant(
                            e.path@,
                            lines_of(encode_utf8(text@)),
                            m,
                            c,
                            0,
                        );
                        assert(forall|k: int|
                            0 <= k < frs.len() ==> (#[trigger] frs[k]).path == e.path@);
                        lemma_path_set_of_constant(frs, e.path@);
                        lemma_matched_path_set_append(all_results(f, prefix, m, c), frs);
                    }
                    let had_match = file_res.len() > 0;
                    let ghost old_map = seen@.map_values(|s: String| s@);
                    let ghost old_set = matched_path_set(all_results(f, prefix, m, c));
                    proof {
                        assert(all_results(f, prefix2, m, c) =~= all_results(f, prefix, m, c)
                            + frs);
                    }
                    if had_match {
                        proof {
                            assert(matched_path_set(all_results(f, prefix2, m, c)) =~= old_set.insert(
                                e.path@,
                            ));
                        }
                        let was_seen = contains_path(&seen, &e.path);
                        if !was_seen {
                            seen.push(e.path.clone());
                            proof {
                                let new_map = seen@.map_values(|s: String| s@);
                                assert(new_map =~= old_map.push(e.path@));
                                assert forall|a: int, b: int|
                                    0 <= a < new_map.len() && 0 <= b < new_map.len() && a
                                    != b implies new_map[a] != new_map[b] by {
                                    if a < old_map.len() && b < old_map.len() {
                                    } else if a < old_map.len() {
                                        if new_map[a] == e.path@ {
                                            assert(old_map.contains(e.path@));
                                        }
                                    } else if b < old_map.len() {
                                        if new_map[b] == e.path@ {
                                            assert(old_map.contains(e.path@));
                                        }
                                    }
                                }
                                lemma_to_set_push(old_map, e.path@);
                                assert(new_map.to_set() =~= old_set.insert(e.path@));
                            }
                        } else {
                            proof {
                                assert(old_map.contains(e.path@));
                                assert(old_map.to_set().contains(e.path@));
                                assert(old_set.insert(e.path@) =~= old_set);
                            }
                        }
                    } else {
                        proof {
                            assert(frs.len() == 0);
                            assert(all_results(f, prefix2, m, c) =~= all_results(
                                f,
                                prefix,
                                m,
                                c,
                            ));
                        }
                    }
                    let ghost old_results = results@;
                    let ghost file_seq = file_res@;
                    results.append(&mut file_res);
                    proof {
                        assert(results@ == old_results + file_seq);
                        assert forall|k: int|
                            0 <= k < results@.len() implies result_views(results@)[k]
                            == (result_views(old_results) + result_views(file_seq))[k] by {
                            if k < old_results.len() {
                                assert(results@[k] == old_results[k]);
                            } else {
                                assert(results@[k] == file_seq[k - old_results.len()]);
                            }
                        }
                        assert(result_views(results@) =~= result_views(old_results) + result_views(
                            file_seq,
                        ));
                        assert(result_views(results@) =~= all_results(f, prefix2, m, c));
                    }
                    processed = processed + 1;
                },
                Option::None => {
                    proof {
                        assert(evs[i as int].content is None);
                        assert(file_results(evs[i as int], m, c) =~= Seq::<
                            SearchResultView,
                        >::empty());
                        assert(all_results(f, prefix2, m, c) =~= all_results(f, prefix, m, c));
                    }
                },
            }
        } else {
            proof {
                assert(all_results(f, prefix2, m, c) =~= all_results(f, prefix, m, c));
            }
        }
        i += 1;
    }
    proof {
        assert(evs.subrange(0, n as int) =~= evs);
    }
    let total_matches_usize = results.len();
    let matched_usize = seen.len();
    proof {
        let map = seen@.map_values(|s: String| s@);
        map.unique_seq_to_set();
        assert(map.to_set().len() == matched_usize);
        assert(result_views(results@).len() == results@.len());
    }
    PipelineOutcome {
        summary: SearchSummary {
            total_files,
            matched_files: matched_usize as u64,
            total_matches: total_matches_usize as u64,
        },
        results,
        processed_files: processed,
    }
}

/// When every entry is accepted and readable, the walk's counters report
/// every entry: together with `run_pipeline`'s contract, `total_files` is
/// then the number of entries.
pub proof fn lemma_counts_when_all_accepted(f: FileFilterView, entries: Seq<FileEntryView>)
    requires
        forall|i: int| 0 <= i < entries.len() ==> accepted(f, #[trigger] entries[i]),
        forall|i: int| 0 <= i < entries.len() ==> (#[trigger] entries[i]).content is Some,
    ensures
        seen_count(f, entries) == entries.len(),
        processed_count(f, entries) == entries.len(),
    decreases entries.len(),
{
    if entries.len() > 0 {
        lemma_counts_when_all_accepted(f, entries.drop_last());
    }
}

/// When every entry is a distinct regular file the filter accepts and whose
/// content could be read, a run reports: `total_files` equal to the number
/// of entries, `matched_files` equal to the number of entries with at least
/// one match, and `total_matches` equal to the sum of per-file match
/// counts — the deduplicated aggregation loses nothing.
pub proof fn lemma_pipeline_counts(
    f: FileFilterView,
    entries: Seq<FileEntryView>,
    m: MatcherView,
    c: int,
)
    requires
        forall|a: int, b: int|
            0 <= a < b < entries.len() ==> (#[trigger] entries[a]).path != (#[trigger] entries[b]).path,
    ensures
        matched_path_set(all_results(f, entries, m, c)).len() == matched_count(f, entries, m, c),
        forall|p: Seq<char>|
            matched_path_set(all_results(f, entries, m, c)).contains(p) ==> exists|k: int|
                0 <= k < entries.len() && (#[trigger] entries[k]).path == p,
    decreases entries.len(),
{
    if entries.len() == 0 {
    } else {
        let front = entries.drop_last();
        let last = entries.last();
        lemma_pipeline_counts(f, front, m, c);
        let old_set = matched_path_set(all_results(f, front, m, c));
        lemma_matched_path_set_finite(all_results(f, front, m, c));
        if accepted(f, last) {
            let frs = file_results(last, m, c);
            match last.content {
                Option::Some(text) => {
                    lemma_results_path_constant(last.path, lines_of(encode_utf8(text)), m, c, 0);
                },
                Option::None => {},
            }
            assert(forall|k: int| 0 <= k < frs.len() ==> (#[trigger] frs[k]).path == last.path);
            lemma_path_set_of_constant(frs, last.path);
            lemma_matched_path_set_append(all_results(f, front, m, c), frs);
            if frs.len() > 0 {
                if old_set.contains(last.path) {
                    let k = choose|k: int|
                        0 <= k < front.len() && (#[trigger] front[k]).path == last.path;
                    assert(entries[k].path == entries[entries.len() - 1].path);
                    assert(false);
                }
                assert(matched_path_set(all_results(f, entries, m, c)) =~= old_set.insert(
                    last.path,
                ));
            } else {
                assert(matched_path_set(all_results(f, entries, m, c)) =~= old_set);
            }
        } else {
            assert(all_results(f, entries, m, c) =~= all_results(f, front, m, c));
        }
        assert forall|p: Seq<char>|
            matched_path_set(all_results(f, entries, m, c)).contains(p) implies exists|k: int|
            0 <= k < entries.len() && (#[trigger] entries[k]).path == p by {
            if old_set.contains(p) {
                let k = choose|k: int| 0 <= k < front.len() && (#[trigger] front[k]).path == p;
                assert(entries[k].path == p);
            } else {
                assert(entries[entries.len() - 1].path == p);
            }
        }
    }
}

} // verus!
