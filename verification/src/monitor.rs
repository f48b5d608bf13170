//! CPU-load monitoring state: the throttle decision computed from the
//! samples a background sampler feeds in. The sampling itself and the
//! sleeping are the caller's concern; every percentage here is in
//! hundredths of a percent.

use vstd::prelude::*;
use vstd::string::*;

use crate::config::Config;
use crate::strutil::dec_digits;
use crate::strutil::digit_char;
use crate::strutil::u64_to_string;

verus! {

/// Throttling is indicated exactly when the sampled usage lies strictly
/// above the threshold.
pub open spec fn spec_should_throttle(usage_centi: u64, threshold_centi: u64) -> bool {
    usage_centi > threshold_centi
}

/// The pause a worker should take: the configured delay while throttling
/// is indicated, none otherwise.
pub open spec fn spec_throttle_delay(throttled: bool, delay_ms: u64) -> Option<u64> {
    if throttled {
        Some(delay_ms)
    } else {
        None
    }
}

/// The monitor's state: its configuration, the latest sample, the current
/// throttle decision, and whether the sampling loop should be running.
pub struct CpuMonitor {
    pub cpu_threshold_centi: u64,
    pub search_delay_ms: u64,
    pub current_cpu_centi: u64,
    pub throttled: bool,
    pub running: bool,
}

impl CpuMonitor {
    pub fn new(config: &Config) -> (m: CpuMonitor)
        ensures
            m.cpu_threshold_centi == config.performance.cpu_threshold_centi,
            m.search_delay_ms == config.performance.search_delay_ms,
            m.current_cpu_centi == 0,
            !m.throttled,
            !m.running,
    {
        CpuMonitor {
            cpu_threshold_centi: config.performance.cpu_threshold_centi,
            search_delay_ms: config.performance.search_delay_ms,
            current_cpu_centi: 0,
            throttled: false,
            running: false,
        }
    }

    /// Mark the sampling loop as running; already running is fine.
    pub fn start(&mut self)
        ensures
            final(self).running,
            final(self).cpu_threshold_centi == old(self).cpu_threshold_centi,
            final(self).search_delay_ms == old(self).search_delay_ms,
            final(self).current_cpu_centi == old(self).current_cpu_centi,
            final(self).throttled == old(self).throttled,
    {
        self.running = true;
    }

    /// Signal the sampling loop to exit.
    pub fn stop(&mut self)
        ensures
            !final(self).running,
            final(self).cpu_threshold_centi == old(self).cpu_threshold_centi,
            final(self).search_delay_ms == old(self).search_delay_ms,
            final(self).current_cpu_centi == old(self).current_cpu_centi,
            final(self).throttled == old(self).throttled,
    {
        self.running = false;
    }

    /// Store one CPU sample and recompute the throttle decision.
    pub fn record_sample(&mut self, usage_centi: u64)
        ensures
            final(self).current_cpu_centi == usage_centi,
            final(self).throttled == spec_should_throttle(
                usage_centi,
                old(self).cpu_threshold_centi,
            ),
            final(self).cpu_threshold_centi == old(self).cpu_threshold_centi,
            final(self).search_delay_ms == old(self).search_delay_ms,
            final(self).running == old(self).running,
    {
        self.current_cpu_centi = usage_centi;
        self.throttled = usage_centi > self.cpu_threshold_centi;
    }

    /// The latest sampled CPU usage, in hundredths of a percent.
    pub fn get_cpu_usage(&self) -> (r: u64)
        ensures
            r == self.current_cpu_centi,
    {
        self.current_cpu_centi
    }

    pub fn should_throttle(&self) -> (r: bool)
        ensures
            r == self.throttled,
    {
        self.throttled
    }

    /// How long a worker should sleep right now, if at all. The caller
    /// blocks for exactly the returned milliseconds.
    pub fn throttle_delay(&self) -> (r: Option<u64>)
        ensures
            r == spec_throttle_delay(self.throttled, self.search_delay_ms),
    {
        if self.throttled {
            Some(self.search_delay_ms)
        } else {
            None
        }
    }

    pub fn get_status(&self) -> (st: MonitorStatus)
        ensures
            st.cpu_usage_centi == self.current_cpu_centi,
            st.cpu_threshold_centi == self.cpu_threshold_centi,
            st.is_throttling == self.throttled,
            st.is_running == self.running,
    {
        MonitorStatus {
            cpu_usage_centi: self.current_cpu_centi,
            cpu_threshold_centi: self.cpu_threshold_centi,
            is_throttling: self.throttled,
            is_running: self.running,
        }
    }
}

/// A point-in-time snapshot of the monitor.
#[derive(Debug, Clone, Copy)]
pub struct MonitorStatus {
    pub cpu_usage_centi: u64,
    pub cpu_threshold_centi: u64,
    pub is_throttling: bool,
    pub is_running: bool,
}

/// A centi-percent value rendered with one decimal place (truncated).
pub open spec fn centi_text(v: u64) -> Seq<char> {
    dec_digits((v / 100) as nat) + seq!['.', digit_char(((v % 100) / 10) as nat)]
}

/// The status line: usage and threshold percentages, the throttle state,
/// and a stopped marker when the loop is not running.
pub open spec fn spec_status_text(st: MonitorStatus) -> Seq<char> {
    "CPU: "@ + centi_text(st.cpu_usage_centi) + "%/"@ + centi_text(st.cpu_threshold_centi) + "% "@
        + (if st.is_throttling {
        "(限流)"@
    } else {
        "(正常)"@
    }) + (if st.is_running {
        Seq::<char>::empty()
    } else {
        " [已停止]"@
    })
}

impl MonitorStatus {
    /// Render the snapshot as one line of text.
    pub fn format(&self) -> (r: String)
        ensures
            r@ == spec_status_text(*self),
    {
        proof {
            reveal_strlit("CPU: ");
            reveal_strlit("%/");
            reveal_strlit("% ");
            reveal_strlit("(限流)");
            reveal_strlit("(正常)");
            reveal_strlit(" [已停止]");
        }
        let mut s = String::from_str("CPU: ");
        let usage = centi_string(self.cpu_usage_centi);
        s.append(usage.as_str());
        s.append("%/");
        let threshold = centi_string(self.cpu_threshold_centi);
        s.append(threshold.as_str());
        s.append("% ");
        if self.is_throttling {
            s.append("(限流)");
        } else {
            s.append("(正常)");
        }
        if !self.is_running {
            s.append(" [已停止]");
        }
        s
    }
}

fn centi_string(v: u64) -> (r: String)
    ensures
        r@ == centi_text(v),
{
    let mut s = u64_to_string(v / 100);
    let frac = (v % 100) / 10;
    s.append(digit_fragment(frac));
    s
}

fn digit_fragment(d: u64) -> (r: &'static str)
    requires
        d < 10,
    ensures
        r@ =~= seq!['.', digit_char(d as nat)],
{
    proof {
        reveal_strlit(".0");
        reveal_strlit(".1");
        reveal_strlit(".2");
        reveal_strlit(".3");
        reveal_strlit(".4");
        reveal_strlit(".5");
        reveal_strlit(".6");
        reveal_strlit(".7");
        reveal_strlit(".8");
        reveal_strlit(".9");
    }
    match d {
        0 => ".0",
        1 => ".1",
        2 => ".2",
        3 => ".3",
        4 => ".4",
        5 => ".5",
        6 => ".6",
        7 => ".7",
        8 => ".8",
        _ => ".9",
    }
}

/// A sample strictly above the threshold makes the monitor throttle, and
/// the requested pause is then exactly the configured delay; a sample at
/// or below the threshold clears the throttle and no pause is requested.
/// The caller's pause is the returned delay, so above the threshold every
/// worker blocks for at least that delay and below it none blocks.
pub proof fn lemma_throttle_behavior(threshold_centi: u64, delay_ms: u64, usage_centi: u64)
    ensures
        usage_centi > threshold_centi ==> spec_throttle_delay(
            spec_should_throttle(usage_centi, threshold_centi),
            delay_ms,
        ) == Some(delay_ms),
        usage_centi <= threshold_centi ==> spec_throttle_delay(
            spec_should_throttle(usage_centi, threshold_centi),
            delay_ms,
        ) is None,
{
}

} // verus!
