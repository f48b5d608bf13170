//! Error accounting for a run: how many errors of each kind occurred.
//! Writing error reports to disk is the caller's concern; the counts and
//! the summary computed from them live here.

use vstd::prelude::*;

use crate::logging::LogError;

verus! {

/// The kinds of recoverable error a run can accumulate.
#[derive(Debug, Clone, PartialEq, Eq, Hash)]
pub enum ErrorType {
    /// A file could not be read or decoded.
    FileRead,
}

impl ErrorType {
    pub fn as_str(&self) -> (r: &'static str)
        ensures
            r@ == "文件读取"@,
    {
        match self {
            ErrorType::FileRead => "文件读取",
        }
    }
}

/// Per-kind error counts. Counting is active only when enabled, matching
/// a logger that was never opened.
pub struct ErrorLogger {
    pub enabled: bool,
    pub file_read_errors: u64,
}

impl ErrorLogger {
    pub fn new(enabled: bool) -> (l: ErrorLogger)
        ensures
            l.enabled == enabled,
            l.file_read_errors == 0,
    {
        ErrorLogger { enabled, file_read_errors: 0 }
    }

    /// Count one error. The path, message and detail only matter to a
    /// sink that writes reports; the count never fails.
    pub fn log_error(
        &mut self,
        error_type: ErrorType,
        file_path: Option<&str>,
        message: &str,
        details: Option<&str>,
    ) -> (r: Result<(), LogError>)
        requires
            old(self).file_read_errors < u64::MAX,
        ensures
            r is Ok,
            final(self).enabled == old(self).enabled,
            old(self).enabled ==> final(self).file_read_errors == old(self).file_read_errors + 1,
            !old(self).enabled ==> final(self).file_read_errors == old(self).file_read_errors,
    {
        if !self.enabled {
            return Ok(());
        }
        match error_type {
            ErrorType::FileRead => {
                self.file_read_errors = self.file_read_errors + 1;
            },
        }
        Ok(())
    }

    /// The nonzero counts, one entry per error kind.
    pub fn get_error_summary(&self) -> (r: Vec<(ErrorType, u64)>)
        ensures
            self.file_read_errors == 0 ==> r@ == Seq::<(ErrorType, u64)>::empty(),
            self.file_read_errors > 0 ==> r@ == seq![
                (ErrorType::FileRead, self.file_read_errors),
            ],
    {
        let mut out: Vec<(ErrorType, u64)> = Vec::new();
        if self.file_read_errors > 0 {
            out.push((ErrorType::FileRead, self.file_read_errors));
            proof {
                assert(out@ =~= seq![(ErrorType::FileRead, self.file_read_errors)]);
            }
        } else {
            proof {
                assert(out@ =~= Seq::<(ErrorType, u64)>::empty());
            }
        }
        out
    }

    pub fn get_total_errors(&self) -> (r: u64)
        ensures
            r == self.file_read_errors,
    {
        self.file_read_errors
    }

    pub fn has_errors(&self) -> (r: bool)
        ensures
            r == (self.file_read_errors > 0),
    {
        self.file_read_errors > 0
    }
}

} // verus!
