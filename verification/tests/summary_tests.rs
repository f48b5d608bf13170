use findeverything::SearchSummary;
use findeverything::summary::format_duration;
use findeverything::strutil::u64_to_string;

#[test]
fn test_summary_starts_at_zero() {
    let summary = SearchSummary::new();
    assert_eq!(summary.total_files, 0);
    assert_eq!(summary.matched_files, 0);
    assert_eq!(summary.total_matches, 0);
}

#[test]
fn test_format_duration_subsecond() {
    assert_eq!(format_duration(0, 123), "0.123s");
    assert_eq!(format_duration(0, 0), "0.000s");
    assert_eq!(format_duration(59, 5), "59.005s");
}

#[test]
fn test_format_duration_minutes() {
    assert_eq!(format_duration(65, 0), "1m 5s");
    assert_eq!(format_duration(60, 999), "1m 0s");
    assert_eq!(format_duration(3599, 0), "59m 59s");
}

#[test]
fn test_format_duration_hours() {
    assert_eq!(format_duration(3661, 0), "1h 1m 1s");
    assert_eq!(format_duration(3725, 250), "1h 2m 5s");
    assert_eq!(format_duration(7200, 0), "2h 0m 0s");
}

#[test]
fn test_decimal_rendering() {
    assert_eq!(u64_to_string(0), "0");
    assert_eq!(u64_to_string(7), "7");
    assert_eq!(u64_to_string(1234567890), "1234567890");
    assert_eq!(u64_to_string(u64::MAX), "18446744073709551615");
}
