//! The logging capability the pipeline calls. Concrete sinks (a log file,
//! a terminal) are supplied by the caller; a disabled logger does nothing
//! and never fails.

use vstd::prelude::*;

verus! {

/// A logging sink's failure. The pipeline ignores it: logging never stops
/// a scan.
#[derive(Clone, Copy, Debug, PartialEq, Eq, Structural)]
pub struct LogError;

/// What a logging sink offers: an enabled flag, free-form messages,
/// per-file status lines, and a closing summary.
pub trait LoggerTrait {
    fn is_enabled(&self) -> bool;

    fn log_message(&self, message: &str) -> Result<(), LogError>;

    fn log_file(&self, path: &str, size: u64, status: &str) -> Result<(), LogError>;

    fn finalize(
        &self,
        total_files: u64,
        matched_files: u64,
        total_matches: u64,
        duration_ms: u64,
    ) -> Result<(), LogError>;
}

/// The sink used when logging is disabled: reports itself disabled and
/// accepts everything.
pub struct NullLogger;

impl LoggerTrait for NullLogger {
    fn is_enabled(&self) -> (r: bool)
        ensures
            !r,
    {
        false
    }

    fn log_message(&self, message: &str) -> (r: Result<(), LogError>)
        ensures
            r is Ok,
    {
        Ok(())
    }

    fn log_file(&self, path: &str, size: u64, status: &str) -> (r: Result<(), LogError>)
        ensures
            r is Ok,
    {
        Ok(())
    }

    fn finalize(
        &self,
        total_files: u64,
        matched_files: u64,
        total_matches: u64,
        duration_ms: u64,
    ) -> (r: Result<(), LogError>)
        ensures
            r is Ok,
    {
        Ok(())
    }
}

} // verus!
