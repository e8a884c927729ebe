use northcloud_oculus::health::{analyze_logs, classify_log_lines, LogAnalysisConfig, LogMetrics, NodeHealth};

#[test]
fn analyze_logs_healthy_when_no_patterns() {
    let patterns = LogAnalysisConfig {
        critical_patterns: vec!["error".to_string(), "fatal".to_string()],
        warning_patterns: vec!["warn".to_string()],
    };
    let logs = vec![
        ("1".to_string(), "all systems normal".to_string()),
        ("2".to_string(), "request completed".to_string()),
    ];
    let (health, metrics) = analyze_logs(&logs, &patterns);
    assert_eq!(health, NodeHealth::Healthy);
    assert_eq!(metrics.get("log_count").unwrap() as f64, 2.0);
    assert_eq!(metrics.get("error_count").unwrap() as f64, 0.0);
    assert_eq!(metrics.get("warning_count").unwrap() as f64, 0.0);
}

#[test]
fn analyze_logs_critical_when_error_found() {
    let patterns = LogAnalysisConfig {
        critical_patterns: vec!["error".to_string(), "fatal".to_string()],
        warning_patterns: vec!["warn".to_string()],
    };
    let logs = vec![("1".to_string(), "fatal crash detected".to_string())];
    let (health, metrics) = analyze_logs(&logs, &patterns);
    assert_eq!(health, NodeHealth::Critical);
    assert_eq!(metrics.get("error_count").unwrap() as f64, 1.0);
}

#[test]
fn analyze_logs_warning_when_warn_found() {
    let patterns = LogAnalysisConfig {
        critical_patterns: vec!["error".to_string()],
        warning_patterns: vec!["warn".to_string()],
    };
    let logs = vec![("1".to_string(), "disk usage warning threshold".to_string())];
    let (health, metrics) = analyze_logs(&logs, &patterns);
    assert_eq!(health, NodeHealth::Warning);
    assert_eq!(metrics.get("warning_count").unwrap() as f64, 1.0);
}

#[test]
fn analyze_logs_empty_input() {
    let patterns = LogAnalysisConfig::default();
    let logs: Vec<(String, String)> = vec![];
    let (health, _metrics) = analyze_logs(&logs, &patterns);
    assert_eq!(health, NodeHealth::Healthy);
}

#[test]
fn analyze_logs_lowercases_messages() {
    let patterns = LogAnalysisConfig::default();
    let logs = vec![
        ("1".to_string(), "FATAL: Disk gone".to_string()),
        ("2".to_string(), "Warning: slow".to_string()),
        ("3".to_string(), "ok".to_string()),
    ];
    let (health, metrics) = analyze_logs(&logs, &patterns);
    assert_eq!(health, NodeHealth::Critical);
    assert_eq!(metrics, LogMetrics { log_count: 3, error_count: 1, warning_count: 1 });
}

#[test]
fn analyze_logs_counts_error_before_warning() {
    let patterns = LogAnalysisConfig::default();
    let logs = vec![
        ("1".to_string(), "warn: then error".to_string()),
        ("2".to_string(), "warn only".to_string()),
        ("3".to_string(), "panic!".to_string()),
    ];
    let (health, metrics) = analyze_logs(&logs, &patterns);
    assert_eq!(health, NodeHealth::Critical);
    assert_eq!(metrics.error_count, 2);
    assert_eq!(metrics.warning_count, 1);
    assert!(metrics.error_count + metrics.warning_count <= metrics.log_count);
}

#[test]
fn classify_lines_is_case_sensitive() {
    let lines = vec!["ERROR".to_string(), "warn".to_string()];
    let (health, metrics) = classify_log_lines(
        &lines,
        &vec!["error".to_string()],
        &vec!["warn".to_string()],
    );
    assert_eq!(health, NodeHealth::Warning);
    assert_eq!(metrics.error_count, 0);
    assert_eq!(metrics.warning_count, 1);
}

#[test]
fn log_analysis_defaults() {
    let c = LogAnalysisConfig::default();
    assert_eq!(c.critical_patterns, vec!["error", "fatal", "panic"]);
    assert_eq!(c.warning_patterns, vec!["warn", "warning"]);
}

#[test]
fn log_metrics_lookup() {
    let m = LogMetrics { log_count: 7, error_count: 2, warning_count: 3 };
    assert_eq!(m.get("log_count"), Some(7));
    assert_eq!(m.get("error_count"), Some(2));
    assert_eq!(m.get("warning_count"), Some(3));
    assert_eq!(m.get("value"), None);
    let e = m.entries();
    assert_eq!(e, vec![("log_count".to_string(), 7), ("error_count".to_string(), 2), ("warning_count".to_string(), 3)]);
}

#[test]
fn node_health_default_is_healthy() {
    assert_eq!(NodeHealth::default(), NodeHealth::Healthy);
}
