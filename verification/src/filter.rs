//! File filtering: size bounds, excluded directory names, excluded paths.
//!
//! Path separators are normalized (`\` becomes `/`) before any path
//! comparison, so exclusion rules behave the same whichever separator a
//! caller used.

use vstd::prelude::*;
use vstd::string::*;

use crate::strutil::chars_of;

verus! {

/// One character after separator normalization.
pub open spec fn norm_char(c: char) -> char {
    if c == '\\' {
        '/'
    } else {
        c
    }
}

/// A path with every backslash separator replaced by a forward slash.
pub open spec fn normalize(s: Seq<char>) -> Seq<char> {
    s.map_values(|c: char| norm_char(c))
}

/// The suffix of `s` after its last `'/'`; all of `s` when it has none.
pub open spec fn after_last_slash(s: Seq<char>) -> Seq<char>
    decreases s.len(),
{
    if s.len() == 0 {
        s
    } else if s.last() == '/' {
        Seq::empty()
    } else {
        after_last_slash(s.drop_last()).push(s.last())
    }
}

/// `s` split at every `'/'`; always holds at least one (possibly empty)
/// segment.
pub open spec fn segments(s: Seq<char>) -> Seq<Seq<char>>
    decreases s.len(),
{
    if s.len() == 0 {
        seq![Seq::<char>::empty()]
    } else if s.last() == '/' {
        segments(s.drop_last()).push(Seq::empty())
    } else {
        let pre = segments(s.drop_last());
        pre.update(pre.len() - 1, pre.last().push(s.last()))
    }
}

pub open spec fn is_suffix_of(suffix: Seq<char>, s: Seq<char>) -> bool {
    suffix.len() <= s.len() && s.subrange(s.len() - suffix.len(), s.len() as int) == suffix
}

/// How one configured exclusion string `e` can reject a path `p`: by exact
/// (normalized) equality, by equality with the path's final component, or as
/// a (normalized) path suffix.
pub open spec fn path_matches_exclusion(p: Seq<char>, e: Seq<char>) -> bool {
    ||| normalize(p) == normalize(e)
    ||| after_last_slash(normalize(p)) == e
    ||| is_suffix_of(normalize(e), normalize(p))
}

pub open spec fn spec_path_excluded(
    excluded_paths: Seq<Seq<char>>,
    excluded_dirs: Seq<Seq<char>>,
    p: Seq<char>,
) -> bool {
    ||| (exists|i: int|
        0 <= i < excluded_paths.len() && path_matches_exclusion(p, #[trigger] excluded_paths[i]))
    ||| (exists|i: int|
        0 <= i < excluded_dirs.len() && segments(normalize(p)).contains(
            #[trigger] excluded_dirs[i],
        ))
}

/// Size bounds, each side optional (absent means unbounded).
pub open spec fn size_ok(min_size: Option<u64>, max_size: Option<u64>, size: u64) -> bool {
    &&& match min_size {
        Option::Some(m) => size >= m,
        Option::None => true,
    }
    &&& match max_size {
        Option::Some(m) => size <= m,
        Option::None => true,
    }
}

/// The whole acceptance predicate: the path is not excluded and, when the
/// file's size is known, it lies within the bounds.
pub open spec fn spec_should_process(f: FileFilterView, path: Seq<char>, size: Option<u64>) -> bool {
    &&& !spec_path_excluded(f.excluded_paths, f.excluded_dirs, path)
    &&& match size {
        Option::Some(s) => size_ok(f.min_size, f.max_size, s),
        Option::None => true,
    }
}

/// Filter conditions applied to every file before it is searched.
#[derive(Clone)]
pub struct FileFilter {
    pub min_size: Option<u64>,
    pub max_size: Option<u64>,
    pub excluded_dirs: Vec<String>,
    pub excluded_paths: Vec<String>,
}

pub struct FileFilterView {
    pub min_size: Option<u64>,
    pub max_size: Option<u64>,
    pub excluded_dirs: Seq<Seq<char>>,
    pub excluded_paths: Seq<Seq<char>>,
}

impl View for FileFilter {
    type V = FileFilterView;

    open spec fn view(&self) -> FileFilterView {
        FileFilterView {
            min_size: self.min_size,
            max_size: self.max_size,
            excluded_dirs: self.excluded_dirs.deep_view(),
            excluded_paths: self.excluded_paths.deep_view(),
        }
    }
}

impl FileFilter {
    pub fn new(
        min_size: Option<u64>,
        max_size: Option<u64>,
        excluded_dirs: Vec<String>,
        excluded_paths: Vec<String>,
    ) -> (f: FileFilter)
        ensures
            f.min_size == min_size,
            f.max_size == max_size,
            f@.excluded_dirs == excluded_dirs.deep_view(),
            f@.excluded_paths == excluded_paths.deep_view(),
    {
        FileFilter { min_size, max_size, excluded_dirs, excluded_paths }
    }

    /// Whether `size` lies within the configured bounds.
    pub fn matches_size(&self, size: u64) -> (r: bool)
        ensures
            r == size_ok(self.min_size, self.max_size, size),
    {
        let min_ok = match self.min_size {
            Option::Some(m) => size >= m,
            Option::None => true,
        };
        let max_ok = match self.max_size {
            Option::Some(m) => size <= m,
            Option::None => true,
        };
        min_ok && max_ok
    }

    /// Whether any exclusion rule rejects `path`.
    pub fn is_path_excluded(&self, path: &str) -> (r: bool)
        ensures
            r == spec_path_excluded(self@.excluded_paths, self@.excluded_dirs, path@),
    {
        let p = chars_of(path);
        let p_norm = normalize_chars(&p);
        let p_last = last_component_chars(&p_norm);
        proof {
            assert(p_last@ == after_last_slash(normalize(path@)));
        }
        let n_paths = self.excluded_paths.len();
        let mut i: usize = 0;
        while i < n_paths
            invariant
                n_paths == self.excluded_paths.len(),
                i <= n_paths,
                p_norm@ == normalize(path@),
                p_last@ == after_last_slash(normalize(path@)),
                forall|j: int|
                    0 <= j < i ==> !path_matches_exclusion(path@, #[trigger] self@.excluded_paths[j]),
            decreases n_paths - i,
        {
            let e = chars_of(self.excluded_paths[i].as_str());
            let e_norm = normalize_chars(&e);
            proof {
                assert(self@.excluded_paths[i as int] == self.excluded_paths@[i as int]@);
            }
            if chars_eq(&p_norm, &e_norm) {
                return true;
            }
            if chars_eq(&p_last, &e) {
                return true;
            }
            if chars_ends_with(&p_norm, &e_norm) {
                return true;
            }
            i += 1;
        }
        let n_dirs = self.excluded_dirs.len();
        let mut k: usize = 0;
        while k < n_dirs
            invariant
                n_dirs == self.excluded_dirs.len(),
                k <= n_dirs,
                p_norm@ == normalize(path@),
                forall|j: int|
                    0 <= j < self@.excluded_paths.len() ==> !path_matches_exclusion(
                        path@,
                        #[trigger] self@.excluded_paths[j],
                    ),
                forall|j: int|
                    0 <= j < k ==> !segments(normalize(path@)).contains(
                        #[trigger] self@.excluded_dirs[j],
                    ),
            decreases n_dirs - k,
        {
            let d = chars_of(self.excluded_dirs[k].as_str());
            proof {
                assert(self@.excluded_dirs[k as int] == self.excluded_dirs@[k as int]@);
            }
            if has_segment(&p_norm, &d) {
                return true;
            }
            k += 1;
        }
        false
    }

    /// Whether `size` lies within the bounds, under the plain size
    /// filter's older method name.
    pub fn matches(&self, size: u64) -> (r: bool)
        ensures
            r == size_ok(self.min_size, self.max_size, size),
    {
        self.matches_size(size)
    }

    /// The full acceptance check; `size` is the file's size when its
    /// metadata could be read.
    pub fn should_process(&self, path: &str, size: Option<u64>) -> (r: bool)
        ensures
            r == spec_should_process(self@, path@, size),
    {
        if self.is_path_excluded(path) {
            return false;
        }
        match size {
            Option::Some(s) => self.matches_size(s),
            Option::None => true,
        }
    }
}

/// The plain size-bounds filter is the same type under its older name.
pub type FileSizeFilter = FileFilter;

/// Widening the size bounds never turns an accepted file into a rejected
/// one: a filter with a lower (or absent) minimum and a higher (or absent)
/// maximum, and the same exclusion lists, accepts everything the narrower
/// filter accepts.
pub proof fn lemma_size_widening_monotonic(
    f1: FileFilterView,
    f2: FileFilterView,
    path: Seq<char>,
    size: Option<u64>,
)
    requires
        f1.excluded_dirs == f2.excluded_dirs,
        f1.excluded_paths == f2.excluded_paths,
        match (f2.min_size, f1.min_size) {
            (Option::Some(m2), Option::Some(m1)) => m2 <= m1,
            (Option::None, _) => true,
            (Option::Some(_), Option::None) => false,
        },
        match (f2.max_size, f1.max_size) {
            (Option::Some(m2), Option::Some(m1)) => m2 >= m1,
            (Option::None, _) => true,
            (Option::Some(_), Option::None) => false,
        },
    ensures
        spec_should_process(f1, path, size) ==> spec_should_process(f2, path, size),
{
}

/// Exclusion only reads the normalized path: two spellings of a path that
/// normalize alike are rejected (or kept) together.
pub proof fn lemma_exclusion_separator_insensitive(f: FileFilterView, p1: Seq<char>, p2: Seq<char>)
    requires
        normalize(p1) == normalize(p2),
    ensures
        spec_path_excluded(f.excluded_paths, f.excluded_dirs, p1) == spec_path_excluded(
            f.excluded_paths,
            f.excluded_dirs,
            p2,
        ),
{
    assert forall|i: int|
        0 <= i < f.excluded_paths.len() implies path_matches_exclusion(
        p1,
        #[trigger] f.excluded_paths[i],
    ) == path_matches_exclusion(p2, f.excluded_paths[i]) by {}
}

/// Normalization is idempotent: applying it twice changes nothing.
pub proof fn lemma_normalize_idempotent(p: Seq<char>)
    ensures
        normalize(normalize(p)) == normalize(p),
{
    assert(normalize(normalize(p)) =~= normalize(p));
}

fn normalize_chars(v: &Vec<char>) -> (r: Vec<char>)
    ensures
        r@ == normalize(v@),
{
    let n = v.len();
    let mut out: Vec<char> = Vec::new();
    let mut i: usize = 0;
    while i < n
        invariant
            i <= n,
            n == v@.len(),
            out@ =~= normalize(v@).subrange(0, i as int),
        decreases n - i,
    {
        let c = v[i];
        if c == '\\' {
            out.push('/');
        } else {
            out.push(c);
        }
        proof {
            assert(normalize(v@).subrange(0, (i + 1) as int) =~= normalize(v@).subrange(0, i as int)
                + seq![norm_char(v@[i as int])]);
        }
        i += 1;
    }
    proof {
        assert(normalize(v@).subrange(0, n as int) =~= normalize(v@));
    }
    out
}

fn chars_eq(a: &Vec<char>, b: &Vec<char>) -> (r: bool)
    ensures
        r == (a@ == b@),
{
    if a.len() != b.len() {
        return false;
    }
    let n = a.len();
    let mut i: usize = 0;
    while i < n
        invariant
            i <= n,
            n == a@.len() == b@.len(),
            forall|j: int| 0 <= j < i ==> a@[j] == b@[j],
        decreases n - i,
    {
        if a[i] != b[i] {
            return false;
        }
        i += 1;
    }
    proof {
        assert(a@ =~= b@);
    }
    true
}

fn chars_ends_with(s: &Vec<char>, suffix: &Vec<char>) -> (r: bool)
    ensures
        r == is_suffix_of(suffix@, s@),
{
    let n = s.len();
    let m = suffix.len();
    if m > n {
        return false;
    }
    let off = n - m;
    let mut i: usize = 0;
    while i < m
        invariant
            i <= m,
            m == suffix@.len(),
            n == s@.len(),
            m <= n,
            off == n - m,
            forall|j: int| 0 <= j < i ==> s@[off + j] == suffix@[j],
        decreases m - i,
    {
        if s[off + i] != suffix[i] {
            proof {
                assert(s@.subrange(n - m, n as int)[i as int] == s@[off + i]);
            }
            return false;
        }
        i += 1;
    }
    proof {
        assert(s@.subrange(n - m, n as int) =~= suffix@);
    }
    true
}

/// The final path component of `s` (after its last separator).
fn last_component_chars(s: &Vec<char>) -> (r: Vec<char>)
    ensures
        r@ == after_last_slash(s@),
{
    let n = s.len();
    let mut comp: Vec<char> = Vec::new();
    let mut i: usize = 0;
    while i < n
        invariant
            i <= n,
            n == s@.len(),
            comp@ == after_last_slash(s@.subrange(0, i as int)),
        decreases n - i,
    {
        let c = s[i];
        proof {
            assert(s@.subrange(0, (i + 1) as int).drop_last() =~= s@.subrange(0, i as int));
            assert(s@.subrange(0, (i + 1) as int).last() == s@[i as int]);
        }
        if c == '/' {
            comp = Vec::new();
        } else {
            comp.push(c);
        }
        i += 1;
    }
    proof {
        assert(s@.subrange(0, n as int) =~= s@);
    }
    comp
}

/// Whether some `'/'`-separated segment of `s` equals `seg`.
fn has_segment(s: &Vec<char>, seg: &Vec<char>) -> (r: bool)
    ensures
        r == segments(s@).contains(seg@),
{
    let n = s.len();
    let ghost mut done: Seq<Seq<char>> = Seq::empty();
    let mut current: Vec<char> = Vec::new();
    let mut found = false;
    let mut i: usize = 0;
    while i < n
        invariant
            i <= n,
            n == s@.len(),
            segments(s@.subrange(0, i as int)) =~= done.push(current@),
            found == (exists|j: int| 0 <= j < done.len() && done[j] == seg@),
        decreases n - i,
    {
        let c = s[i];
        proof {
            assert(s@.subrange(0, (i + 1) as int).drop_last() =~= s@.subrange(0, i as int));
            assert(s@.subrange(0, (i + 1) as int).last() == s@[i as int]);
        }
        if c == '/' {
            let matched_here = chars_eq(&current, seg);
            proof {
                let old_done = done;
                done = done.push(current@);
                if matched_here {
                    assert(done[old_done.len() as int] == seg@);
                } else if found {
                    let j = choose|j: int| 0 <= j < old_done.len() && old_done[j] == seg@;
                    assert(done[j] == seg@);
                } else {
                    assert forall|j: int| 0 <= j < done.len() implies done[j] != seg@ by {
                        if j < old_done.len() {
                            assert(done[j] == old_done[j]);
                        } else {
                            assert(done[j] == current@);
                        }
                    }
                }
            }
            if matched_here {
                found = true;
            }
            current = Vec::new();
        } else {
            let ghost pre = segments(s@.subrange(0, i as int));
            current.push(c);
            proof {
                assert(pre.update(pre.len() - 1, pre.last().push(c)) =~= done.push(current@));
            }
        }
        i += 1;
    }
    let last_match = chars_eq(&current, seg);
    proof {
        assert(s@.subrange(0, n as int) =~= s@);
        let segs = segments(s@);
        assert(segs =~= done.push(current@));
        if found {
            let j = choose|j: int| 0 <= j < done.len() && done[j] == seg@;
            assert(segs[j] == seg@);
            assert(segs.contains(seg@));
        } else if last_match {
            assert(segs[done.len() as int] == seg@);
            assert(segs.contains(seg@));
        } else {
            assert forall|j: int| 0 <= j < segs.len() implies segs[j] != seg@ by {
                if j < done.len() {
                    assert(segs[j] == done[j]);
                } else {
                    assert(segs[j] == current@);
                }
            }
            assert(!segs.contains(seg@));
        }
    }
    if last_match {
        found = true;
    }
    found
}

} // verus!
