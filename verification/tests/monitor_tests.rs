use findeverything::Config;
use findeverything::CpuMonitor;

#[test]
fn test_cpu_monitor_creation() {
    let config = Config::default();
    let monitor = CpuMonitor::new(&config);

    assert_eq!(monitor.cpu_threshold_centi, 8000);
    assert_eq!(monitor.search_delay_ms, 100);
    assert!(!monitor.should_throttle());
}

#[test]
fn test_monitor_status() {
    let config = Config::default();
    let monitor = CpuMonitor::new(&config);

    let status = monitor.get_status();
    assert_eq!(status.cpu_threshold_centi, 8000);
    assert!(!status.is_throttling);

    let formatted = status.format();
    assert!(formatted.contains("CPU:"));
    assert!(formatted.contains("(正常)"));
}

#[test]
fn test_monitor_start_stop() {
    let config = Config::default();
    let mut monitor = CpuMonitor::new(&config);
    assert!(!monitor.get_status().is_running);

    monitor.start();
    assert!(monitor.get_status().is_running);
    monitor.start();
    assert!(monitor.get_status().is_running);

    monitor.stop();
    assert!(!monitor.get_status().is_running);
}

#[test]
fn test_throttle_follows_samples() {
    let config = Config::default();
    let mut monitor = CpuMonitor::new(&config);
    monitor.start();

    // A sample above the 80% threshold turns throttling on, and the
    // requested pause is the configured delay.
    monitor.record_sample(9000);
    assert!(monitor.should_throttle());
    assert_eq!(monitor.throttle_delay(), Some(100));
    assert_eq!(monitor.get_cpu_usage(), 9000);

    // Once usage drops back under the threshold, no pause is requested.
    monitor.record_sample(5000);
    assert!(!monitor.should_throttle());
    assert_eq!(monitor.throttle_delay(), None);

    // The threshold itself is not above the threshold.
    monitor.record_sample(8000);
    assert!(!monitor.should_throttle());
}

#[test]
fn test_monitor_status_formatting() {
    let config = Config::default();
    let mut monitor = CpuMonitor::new(&config);
    monitor.start();
    monitor.record_sample(9050);

    let formatted = monitor.get_status().format();
    assert_eq!(formatted, "CPU: 90.5%/80.0% (限流)");

    monitor.stop();
    monitor.record_sample(1234);
    let formatted = monitor.get_status().format();
    assert_eq!(formatted, "CPU: 12.3%/80.0% (正常) [已停止]");
}
