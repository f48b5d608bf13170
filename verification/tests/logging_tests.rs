use findeverything::LoggerTrait;
use findeverything::logging::NullLogger;

#[test]
fn test_null_logger_accepts_everything() {
    let logger = NullLogger;
    let as_trait: &dyn LoggerTrait = &logger;

    assert!(!as_trait.is_enabled());
    assert!(as_trait.log_message("test message").is_ok());
    assert!(as_trait.log_file("some/path", 42, "scanned").is_ok());
    assert!(as_trait.finalize(3, 1, 2, 1500).is_ok());
}
