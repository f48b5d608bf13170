use findeverything::Config;
use findeverything::config::ConfigError;

#[test]
fn test_default_config() {
    let config = Config::default();
    assert_eq!(config.search.default_search_path, ".");
    assert_eq!(config.search.context_lines, 5);
    assert_eq!(config.performance.cpu_threshold_centi, 8000);
    assert!(config.exclude.default_dirs.contains(&".git".to_string()));
}

#[test]
fn test_config_validation() {
    let mut config = Config::default();

    assert!(config.validate().is_ok());

    config.search.context_lines = 100;
    assert!(config.validate().is_err());

    config = Config::default();
    config.performance.cpu_threshold_centi = 15000;
    assert!(config.validate().is_err());
}

#[test]
fn test_config_validation_error_kinds() {
    let mut config = Config::default();
    config.search.context_lines = 51;
    assert_eq!(config.validate().unwrap_err(), ConfigError::ContextLinesTooLarge);

    config = Config::default();
    config.performance.cpu_threshold_centi = 500;
    assert_eq!(config.validate().unwrap_err(), ConfigError::CpuThresholdOutOfRange);

    config = Config::default();
    config.performance.search_delay_ms = 20000;
    assert_eq!(config.validate().unwrap_err(), ConfigError::SearchDelayTooLarge);

    config = Config::default();
    config.display.max_line_length = 10;
    assert_eq!(config.validate().unwrap_err(), ConfigError::MaxLineLengthTooSmall);
}

#[test]
fn test_config_validation_boundaries() {
    let mut config = Config::default();
    config.search.context_lines = 50;
    config.performance.cpu_threshold_centi = 1000;
    config.performance.search_delay_ms = 10000;
    config.display.max_line_length = 50;
    assert!(config.validate().is_ok());

    config.performance.cpu_threshold_centi = 10000;
    assert!(config.validate().is_ok());
}

#[test]
fn test_config_error_messages() {
    assert_eq!(
        ConfigError::ContextLinesTooLarge.message(),
        "context_lines 不能超过 50"
    );
    assert_eq!(
        ConfigError::CpuThresholdOutOfRange.message(),
        "cpu_threshold 必须在 10-100 之间"
    );
}
