use northcloud_oculus::errors::{grafana_status_error, DataError};
use northcloud_oculus::grafana::{
    group_log_lines, loki_nodes, value_fields_of_frame, FrameValue, GrafanaConfig, GrafanaField,
    GrafanaFrame, GrafanaFrameData, GrafanaLokiQuery, GrafanaQueryResponse, GrafanaQueryResult,
    GrafanaSchema, find_field, log_node_with_labels,
};
use northcloud_oculus::health::{LogAnalysisConfig, NodeHealth};
use serde_json::Value;

#[test]
fn grafana_config_defaults() {
    let config = GrafanaConfig::default();
    assert_eq!(config.base_url, "http://localhost:3000");
    assert!(config.api_key.is_none());
}

#[test]
fn loki_query_defaults() {
    let q = GrafanaLokiQuery::default();
    assert_eq!(q.datasource_uid, "loki");
    assert_eq!(q.id_label, "service");
    assert_eq!(q.range_seconds, 300);
    assert!(!q.log_analysis.critical_patterns.is_empty());
}

fn text(s: &str) -> FrameValue {
    FrameValue::Text(s.to_string())
}

fn field(name: &str, labels: Option<Vec<(&str, &str)>>) -> GrafanaField {
    GrafanaField {
        name: name.to_string(),
        labels: labels.map(|l| l.into_iter().map(|(a, b)| (a.to_string(), b.to_string())).collect()),
    }
}

fn loki_frame() -> GrafanaFrame {
    GrafanaFrame {
        schema: GrafanaSchema { fields: vec![field("labels", None), field("Time", None), field("Line", None)] },
        data: GrafanaFrameData {
            values: vec![
                vec![text("{\"service\":\"crawler\"}")],
                vec![FrameValue::Other],
                vec![text("error: connection refused")],
            ],
        },
    }
}

#[test]
fn grafana_loki_response_gives_one_critical_node() {
    let response = GrafanaQueryResponse {
        results: vec![("A".to_string(), GrafanaQueryResult { frames: vec![loki_frame()] })],
    };
    let result = response.result_a().unwrap();
    assert_eq!(result.frames.len(), 1);
    let nodes = loki_nodes(result, &GrafanaLokiQuery::default());
    assert_eq!(nodes.len(), 1);
    assert_eq!(nodes[0].id, "crawler");
    assert_eq!(nodes[0].labels, vec![("service".to_string(), "crawler".to_string())]);
    assert_eq!(nodes[0].health, NodeHealth::Critical);
    assert_eq!(nodes[0].metrics.log_count, 1);
    assert_eq!(nodes[0].metrics.error_count, 1);
}

#[test]
fn missing_result_a_is_a_parse_error() {
    let response = GrafanaQueryResponse { results: vec![("B".to_string(), GrafanaQueryResult { frames: vec![] })] };
    match response.result_a() {
        Err(DataError::ParseError(m)) => assert_eq!(m, "Grafana response missing expected result 'A'"),
        _ => panic!("expected a parse error"),
    }
}

#[test]
fn log_lines_are_grouped_by_label_set() {
    let labels = vec![text("{\"service\":\"a\"}"), text("{\"service\":\"b\"}"), text("{\"service\":\"a\"}"), FrameValue::Other];
    let lines = vec![text("one"), text("two"), FrameValue::Other];
    let groups = group_log_lines(&labels, &lines);
    assert_eq!(groups.len(), 3);
    assert_eq!(groups[0].0, "{\"service\":\"a\"}");
    assert_eq!(groups[0].1, vec![("0".to_string(), "one".to_string()), ("2".to_string(), String::new())]);
    assert_eq!(groups[1].1, vec![("1".to_string(), "two".to_string())]);
    assert_eq!(groups[2].0, "{}");
    assert_eq!(groups[2].1, vec![("3".to_string(), String::new())]);
}

#[test]
fn unparsable_labels_give_unknown_node() {
    let mut frame = loki_frame();
    frame.data.values[0] = vec![text("not json")];
    let result = GrafanaQueryResult { frames: vec![frame] };
    let nodes = loki_nodes(&result, &GrafanaLokiQuery::default());
    assert_eq!(nodes.len(), 1);
    assert_eq!(nodes[0].id, "unknown");
    assert!(nodes[0].labels.is_empty());
}

#[test]
fn frame_without_line_column_is_skipped() {
    let frame = GrafanaFrame {
        schema: GrafanaSchema { fields: vec![field("labels", None)] },
        data: GrafanaFrameData { values: vec![vec![text("{}")]] },
    };
    let nodes = loki_nodes(&GrafanaQueryResult { frames: vec![frame] }, &GrafanaLokiQuery::default());
    assert!(nodes.is_empty());
}

#[test]
fn value_fields_with_fallback_ids() {
    let frame = GrafanaFrame {
        schema: GrafanaSchema {
            fields: vec![
                field("Time", None),
                field("Value", Some(vec![("instance", "host:9100"), ("lat", "1.5")])),
                field("Value", None),
                field("Value", Some(vec![("job", "x")])),
            ],
        },
        data: GrafanaFrameData { values: vec![] },
    };
    let vf = value_fields_of_frame(&frame, "instance");
    assert_eq!(vf.len(), 2);
    assert_eq!(vf[0].index, 1);
    assert_eq!(vf[0].id, "host:9100");
    assert_eq!(vf[1].index, 3);
    assert_eq!(vf[1].id, "node-3");
}

#[test]
fn request_pieces() {
    let c = GrafanaConfig { base_url: "https://northcloud.one/grafana".to_string(), api_key: Some("tok".to_string()) };
    assert_eq!(c.query_url(), "https://northcloud.one/grafana/api/ds/query");
    assert_eq!(c.authorization().as_deref(), Some("Bearer tok"));
    assert_eq!(GrafanaConfig::default().authorization(), None);
}

#[test]
fn grafana_status_errors() {
    match grafana_status_error(401, "401 Unauthorized", "Grafana query failed: HTTP ") {
        Some(DataError::AuthError(m)) => assert_eq!(m, "Grafana authentication failed (HTTP 401)"),
        _ => panic!(),
    }
    match grafana_status_error(403, "403 Forbidden", "x") {
        Some(DataError::AuthError(m)) => assert_eq!(m, "Grafana authentication failed (HTTP 403)"),
        _ => panic!(),
    }
    match grafana_status_error(502, "502 Bad Gateway", "Grafana/Loki query failed: HTTP ") {
        Some(DataError::NetworkError(m)) => assert_eq!(m, "Grafana/Loki query failed: HTTP 502 Bad Gateway"),
        _ => panic!(),
    }
    assert!(grafana_status_error(200, "200 OK", "x").is_none());
    assert!(grafana_status_error(204, "204 No Content", "x").is_none());
}

#[test]
fn data_error_messages() {
    assert_eq!(DataError::NetworkError("down".to_string()).message(), "Network error: down");
    assert_eq!(DataError::ParseError("bad".to_string()).message(), "Parse error: bad");
    assert_eq!(DataError::AuthError("no".to_string()).message(), "Auth error: no");
    assert_eq!(DataError::NotFound("x".to_string()).message(), "Not found: x");
}

fn frame_value(v: &Value) -> FrameValue {
    match v.as_str() {
        Some(s) => FrameValue::Text(s.to_string()),
        None => FrameValue::Other,
    }
}

fn response_from_json(v: &Value) -> GrafanaQueryResponse {
    let mut results = Vec::new();
    for (key, result) in v["results"].as_object().unwrap() {
        let mut frames = Vec::new();
        for frame in result["frames"].as_array().unwrap() {
            let fields = frame["schema"]["fields"]
                .as_array()
                .unwrap()
                .iter()
                .map(|f| GrafanaField { name: f["name"].as_str().unwrap().to_string(), labels: None })
                .collect();
            let values = frame["data"]["values"]
                .as_array()
                .unwrap()
                .iter()
                .map(|col| col.as_array().unwrap().iter().map(frame_value).collect())
                .collect();
            frames.push(GrafanaFrame { schema: GrafanaSchema { fields }, data: GrafanaFrameData { values } });
        }
        results.push((key.clone(), GrafanaQueryResult { frames }));
    }
    GrafanaQueryResponse { results }
}

#[test]
fn parse_grafana_loki_response() {
    let json = r#"{
        "results": {
            "A": {
                "frames": [
                    {
                        "schema": {
                            "fields": [
                                {"name": "labels", "type": "string"},
                                {"name": "Time", "type": "time"},
                                {"name": "Line", "type": "string"}
                            ]
                        },
                        "data": {
                            "values": [
                                ["{\"service\":\"crawler\"}"],
                                [1709000000000],
                                ["error: connection refused"]
                            ]
                        }
                    }
                ]
            }
        }
    }"#;
    let value: Value = serde_json::from_str(json).unwrap();
    let response = response_from_json(&value);
    let result = response.result_a().unwrap();
    assert_eq!(result.frames.len(), 1);

    let frame = &result.frames[0];
    let line_idx = find_field(&frame.schema.fields, "Line");
    assert!(line_idx.is_some());
}

#[test]
fn log_node_from_parsed_labels() {
    let labels = vec![("lat".to_string(), "45.0".to_string()), ("service".to_string(), "crawler".to_string())];
    let entries = vec![
        ("0".to_string(), "Disk WARNING".to_string()),
        ("1".to_string(), "all good".to_string()),
    ];
    let node = log_node_with_labels(labels.clone(), &entries, "service", &LogAnalysisConfig::default());
    assert_eq!(node.id, "crawler");
    assert_eq!(node.labels, labels);
    assert_eq!(node.health, NodeHealth::Warning);
    assert_eq!(node.metrics.log_count, 2);
    assert_eq!(node.metrics.warning_count, 1);
    assert_eq!(node.metrics.error_count, 0);

    let other = log_node_with_labels(vec![], &vec![], "service", &LogAnalysisConfig::default());
    assert_eq!(other.id, "unknown");
    assert_eq!(other.health, NodeHealth::Healthy);
    assert_eq!(other.metrics.log_count, 0);
}
