//! Running totals of one search run, and the textual rendering of its
//! duration.

use vstd::prelude::*;
use vstd::string::*;

use crate::strutil::dec3_digits;
use crate::strutil::dec_digits;
use crate::strutil::u64_to_string;
use crate::strutil::u64_to_string_pad3;

verus! {

/// Totals accumulated while a search runs: every counter starts at zero and
/// is only ever incremented. The wall-clock start time of a run is kept by
/// the caller, next to the I/O, not here.
pub struct SearchSummary {
    /// Files that passed the filter and were handed to the search.
    pub total_files: u64,
    /// Distinct files with at least one match.
    pub matched_files: u64,
    /// Match occurrences over all files.
    pub total_matches: u64,
}

impl SearchSummary {
    pub fn new() -> (s: SearchSummary)
        ensures
            s.total_files == 0,
            s.matched_files == 0,
            s.total_matches == 0,
    {
        SearchSummary { total_files: 0, matched_files: 0, total_matches: 0 }
    }
}

/// A duration written as `NhMm Ss`, `Mm Ss`, or `S.mmms`, the largest
/// nonzero unit first and milliseconds only under a minute.
pub open spec fn spec_format_duration(secs: u64, subsec_millis: u32) -> Seq<char> {
    let hours = secs / 3600;
    let mins = (secs % 3600) / 60;
    let s = secs % 60;
    if hours > 0 {
        dec_digits(hours as nat) + "h "@ + dec_digits(mins as nat) + "m "@ + dec_digits(s as nat)
            + "s"@
    } else if mins > 0 {
        dec_digits(mins as nat) + "m "@ + dec_digits(s as nat) + "s"@
    } else {
        dec_digits(s as nat) + "."@ + dec3_digits(subsec_millis as nat) + "s"@
    }
}

/// Render a duration given as whole seconds plus sub-second milliseconds.
pub fn format_duration(secs: u64, subsec_millis: u32) -> (r: String)
    requires
        subsec_millis < 1000,
    ensures
        r@ == spec_format_duration(secs, subsec_millis),
{
    proof {
        reveal_strlit("h ");
        reveal_strlit("m ");
        reveal_strlit("s");
        reveal_strlit(".");
    }
    let hours = secs / 3600;
    let mins = (secs % 3600) / 60;
    let s = secs % 60;
    if hours > 0 {
        let mut out = u64_to_string(hours);
        out.append("h ");
        let mins_text = u64_to_string(mins);
        out.append(mins_text.as_str());
        out.append("m ");
        let secs_text = u64_to_string(s);
        out.append(secs_text.as_str());
        out.append("s");
        out
    } else if mins > 0 {
        let mut out = u64_to_string(mins);
        out.append("m ");
        let secs_text = u64_to_string(s);
        out.append(secs_text.as_str());
        out.append("s");
        out
    } else {
        let mut out = u64_to_string(s);
        out.append(".");
        let millis_text = u64_to_string_pad3(subsec_millis as u64);
        out.append(millis_text.as_str());
        out.append("s");
        out
    }
}

} // verus!
