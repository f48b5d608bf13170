//! Verified core of a concurrent file-content search tool.
//!
//! The library holds the logic of the scan-match-aggregate pipeline: pattern
//! compilation (literal text, hex byte sequences, regular expressions), file
//! filtering by size and path exclusion rules, per-file searching with context
//! extraction, result aggregation and deduplication, CPU-load throttle
//! decisions, and configuration validation. Filesystem traversal, file
//! reading, logging to disk and terminal output live outside the library and
//! hand it plain values.

pub mod config;
pub mod errorlog;
pub mod filter;
pub mod hexcode;
pub mod logging;
pub mod matching;
pub mod monitor;
pub mod pattern;
pub mod pipeline;
pub mod regexmatch;
pub mod search;
pub mod strutil;
pub mod summary;

pub use config::Config;
pub use errorlog::ErrorLogger;
pub use errorlog::ErrorType;
pub use filter::FileFilter;
pub use filter::FileSizeFilter;
pub use logging::LoggerTrait;
pub use matching::Matcher;
pub use monitor::CpuMonitor;
pub use monitor::MonitorStatus;
pub use pattern::CompileError;
pub use pattern::SearchPattern;
pub use search::SearchResult;
pub use summary::SearchSummary;
