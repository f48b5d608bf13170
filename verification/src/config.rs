//! Application configuration: the tunables the pipeline consumes, with
//! their defaults and validity rules. Loading and saving the on-disk
//! configuration file is the caller's concern; the values validated here
//! are plain.
//!
//! CPU percentages are held in hundredths of a percent, so a threshold of
//! 80% is 8000.

use vstd::prelude::*;
use vstd::string::StringExecFns;

verus! {

/// Search behaviour.
#[derive(Debug, Clone)]
pub struct SearchConfig {
    /// Where to search when no path is given.
    pub default_search_path: String,
    /// Context lines shown around each match.
    pub context_lines: usize,
    /// Whether to honor ignore-file rules during the walk.
    pub respect_gitignore: bool,
}

/// Performance behaviour.
#[derive(Debug, Clone)]
pub struct PerformanceConfig {
    /// CPU usage threshold, in hundredths of a percent.
    pub cpu_threshold_centi: u64,
    /// Sleep inserted per file while the CPU is above the threshold.
    pub search_delay_ms: u64,
}

/// Default exclusion rules.
#[derive(Debug, Clone)]
pub struct ExcludeConfig {
    pub default_dirs: Vec<String>,
    pub default_files: Vec<String>,
}

/// Display behaviour.
#[derive(Debug, Clone)]
pub struct DisplayConfig {
    pub max_line_length: usize,
    pub highlight_matches: bool,
}

/// The whole configuration.
#[derive(Debug, Clone)]
pub struct Config {
    pub search: SearchConfig,
    pub performance: PerformanceConfig,
    pub exclude: ExcludeConfig,
    pub display: DisplayConfig,
}

/// Why a configuration is invalid.
#[derive(Clone, Copy, Debug, PartialEq, Eq, Structural)]
pub enum ConfigError {
    ContextLinesTooLarge,
    CpuThresholdOutOfRange,
    SearchDelayTooLarge,
    MaxLineLengthTooSmall,
}

impl ConfigError {
    pub fn message(&self) -> (r: &'static str)
        ensures
            *self == ConfigError::ContextLinesTooLarge ==> r@ == "context_lines 不能超过 50"@,
            *self == ConfigError::CpuThresholdOutOfRange ==> r@ == "cpu_threshold 必须在 10-100 之间"@,
            *self == ConfigError::SearchDelayTooLarge ==> r@ == "search_delay_ms 不能超过 10000"@,
            *self == ConfigError::MaxLineLengthTooSmall ==> r@ == "max_line_length 不能小于 50"@,
    {
        match self {
            ConfigError::ContextLinesTooLarge => "context_lines 不能超过 50",
            ConfigError::CpuThresholdOutOfRange => "cpu_threshold 必须在 10-100 之间",
            ConfigError::SearchDelayTooLarge => "search_delay_ms 不能超过 10000",
            ConfigError::MaxLineLengthTooSmall => "max_line_length 不能小于 50",
        }
    }
}

/// The validity rule, with the first failing check reported: context lines
/// at most 50, threshold between 10% and 100%, delay at most ten seconds,
/// line length at least 50.
pub open spec fn spec_validate(c: &Config) -> Result<(), ConfigError> {
    if c.search.context_lines > 50 {
        Err(ConfigError::ContextLinesTooLarge)
    } else if c.performance.cpu_threshold_centi < 1000 || c.performance.cpu_threshold_centi
        > 10000 {
        Err(ConfigError::CpuThresholdOutOfRange)
    } else if c.performance.search_delay_ms > 10000 {
        Err(ConfigError::SearchDelayTooLarge)
    } else if c.display.max_line_length < 50 {
        Err(ConfigError::MaxLineLengthTooSmall)
    } else {
        Ok(())
    }
}

impl Config {
    /// Check the configuration's validity.
    pub fn validate(&self) -> (r: Result<(), ConfigError>)
        ensures
            r == spec_validate(self),
    {
        if self.search.context_lines > 50 {
            Err(ConfigError::ContextLinesTooLarge)
        } else if self.performance.cpu_threshold_centi < 1000 || self.performance.cpu_threshold_centi
            > 10000 {
            Err(ConfigError::CpuThresholdOutOfRange)
        } else if self.performance.search_delay_ms > 10000 {
            Err(ConfigError::SearchDelayTooLarge)
        } else if self.display.max_line_length < 50 {
            Err(ConfigError::MaxLineLengthTooSmall)
        } else {
            Ok(())
        }
    }
}

impl Default for Config {
    /// The built-in defaults: search the current directory with 5 context
    /// lines, an 80% CPU threshold, a 100 ms throttle delay, the usual
    /// tool directories excluded, and a 200-column display limit.
    fn default() -> (c: Config)
        ensures
            c.search.default_search_path@ == "."@,
            c.search.context_lines == 5,
            !c.search.respect_gitignore,
            c.performance.cpu_threshold_centi == 8000,
            c.performance.search_delay_ms == 100,
            c.exclude.default_dirs@.len() == 5,
            c.exclude.default_dirs@[0]@ == ".git"@,
            c.exclude.default_dirs@[1]@ == "node_modules"@,
            c.exclude.default_dirs@[2]@ == "target"@,
            c.exclude.default_dirs@[3]@ == ".vscode"@,
            c.exclude.default_dirs@[4]@ == ".idea"@,
            c.exclude.default_files@.len() == 0,
            c.display.max_line_length == 200,
            c.display.highlight_matches,
    {
        let mut default_dirs: Vec<String> = Vec::new();
        default_dirs.push(String::from_str(".git"));
        default_dirs.push(String::from_str("node_modules"));
        default_dirs.push(String::from_str("target"));
        default_dirs.push(String::from_str(".vscode"));
        default_dirs.push(String::from_str(".idea"));
        Config {
            search: SearchConfig {
                default_search_path: String::from_str("."),
                context_lines: 5,
                respect_gitignore: false,
            },
            performance: PerformanceConfig { cpu_threshold_centi: 8000, search_delay_ms: 100 },
            exclude: ExcludeConfig { default_dirs, default_files: Vec::new() },
            display: DisplayConfig { max_line_length: 200, highlight_matches: true },
        }
    }
}

} // verus!
