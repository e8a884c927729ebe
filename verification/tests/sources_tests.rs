use northcloud_oculus::errors::DataError;
use northcloud_oculus::health::NodeHealth;
use northcloud_oculus::loki::{loki_http_error, query_status_error, LokiConfig};
use northcloud_oculus::prometheus::{
    metric_extra_labels, metric_node_id, prometheus_http_error, prometheus_query_url,
};

fn pairs(v: &[(&str, &str)]) -> Vec<(String, String)> {
    v.iter().map(|(a, b)| (a.to_string(), b.to_string())).collect()
}

#[test]
fn loki_config_defaults() {
    let c = LokiConfig::default();
    assert_eq!(c.base_url, "http://localhost:3100");
    assert_eq!(c.query, "{job=\"varlogs\"}");
    assert_eq!(c.id_label, "instance");
    assert_eq!(c.range_seconds, 300);
    assert_eq!(c.critical_patterns, vec!["error", "fatal", "panic"]);
    assert_eq!(c.warning_patterns, vec!["warn", "warning"]);
}

#[test]
fn loki_query_url_encodes_query() {
    let c = LokiConfig::default();
    let url = c.query_url(1_000_000_000_000);
    assert_eq!(
        url,
        format!(
            "http://localhost:3100/loki/api/v1/query_range?query={}&start=700000000000&end=1000000000000",
            "%7Bjob%3D%22varlogs%22%7D"
        )
    );
    let mut c2 = LokiConfig::default();
    c2.query = "a b~é".to_string();
    c2.range_seconds = 0;
    assert_eq!(c2.query_url(5), "http://localhost:3100/loki/api/v1/query_range?query=a%20b~%C3%A9&start=5&end=5");
}

#[test]
fn loki_stream_nodes() {
    let c = LokiConfig::default();
    let node = c.stream_node(
        &pairs(&[("instance", "web-1"), ("lat", "45.0")]),
        &pairs(&[("1", "Request OK"), ("2", "WARNING: slow")]),
    );
    assert_eq!(node.id, "web-1");
    assert_eq!(node.health, NodeHealth::Warning);
    assert_eq!(node.metrics.log_count, 2);
    assert_eq!(node.metrics.warning_count, 1);
    assert_eq!(node.labels.len(), 2);
    let node = c.stream_node(&pairs(&[]), &pairs(&[]));
    assert_eq!(node.id, "unknown");
    assert_eq!(node.health, NodeHealth::Healthy);
}

#[test]
fn status_checks() {
    assert!(loki_http_error(200, "200 OK").is_none());
    match loki_http_error(500, "500 Internal Server Error") {
        Some(DataError::NetworkError(m)) => assert_eq!(m, "HTTP 500 Internal Server Error"),
        _ => panic!(),
    }
    match prometheus_http_error(404, "404 Not Found") {
        Some(DataError::NetworkError(m)) => assert_eq!(m, "Prometheus query failed: HTTP 404 Not Found"),
        _ => panic!(),
    }
    assert!(query_status_error("Loki", "success").is_none());
    match query_status_error("Prometheus", "error") {
        Some(DataError::ParseError(m)) => assert_eq!(m, "Prometheus status: error"),
        _ => panic!(),
    }
}

#[test]
fn prometheus_pieces() {
    assert_eq!(
        prometheus_query_url("http://localhost:9090", "up{job=\"x\"}"),
        "http://localhost:9090/api/v1/query?query=up%7Bjob%3D%22x%22%7D"
    );
    let m = pairs(&[("instance", "h:9100"), ("lat", "1.0"), ("job", "node")]);
    assert_eq!(metric_node_id(&m, "instance"), "h:9100");
    assert_eq!(metric_node_id(&m, "host"), "unknown");
    assert_eq!(metric_extra_labels(&m, "instance"), pairs(&[("lat", "1.0"), ("job", "node")]));
}
