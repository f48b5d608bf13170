use findeverything::ErrorLogger;
use findeverything::ErrorType;

#[test]
fn test_error_logger_creation() {
    let logger = ErrorLogger::new(false);
    assert_eq!(logger.get_total_errors(), 0);
}

#[test]
fn test_error_logging() {
    let mut logger = ErrorLogger::new(true);

    logger
        .log_error(
            ErrorType::FileRead,
            Some("/test/path"),
            "测试错误",
            Some("详细信息"),
        )
        .unwrap();

    assert_eq!(logger.get_total_errors(), 1);
    assert!(logger.has_errors());

    let summary = logger.get_error_summary();
    assert_eq!(summary, vec![(ErrorType::FileRead, 1)]);
}

#[test]
fn test_error_types() {
    assert_eq!(ErrorType::FileRead.as_str(), "文件读取");
}

#[test]
fn test_disabled_logger_counts_nothing() {
    let mut logger = ErrorLogger::new(false);
    logger
        .log_error(ErrorType::FileRead, None, "ignored", None)
        .unwrap();
    assert_eq!(logger.get_total_errors(), 0);
    assert!(!logger.has_errors());
    assert_eq!(logger.get_error_summary(), vec![]);
}
