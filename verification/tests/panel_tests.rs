use northcloud_oculus::health::NodeHealth;
use northcloud_oculus::panels::{
    age_label, entries_label, error_label, health_status_label, updated_label, StatusColor,
};

#[test]
fn health_status_labels() {
    assert_eq!(health_status_label(NodeHealth::Healthy), ("Healthy".to_string(), StatusColor::Green));
    assert_eq!(health_status_label(NodeHealth::Warning), ("Warning".to_string(), StatusColor::Yellow));
    assert_eq!(health_status_label(NodeHealth::Critical), ("Critical".to_string(), StatusColor::Red));
}

#[test]
fn freshness_labels() {
    assert_eq!(updated_label(None), "Waiting for data...");
    assert_eq!(updated_label(Some(0)), "Updated: 0s ago");
    assert_eq!(updated_label(Some(42)), "Updated: 42s ago");
    assert_eq!(updated_label(Some(u64::MAX)), format!("Updated: {}s ago", u64::MAX));
}

#[test]
fn classifier_labels() {
    assert_eq!(entries_label(0), "Entries: 0");
    assert_eq!(entries_label(100), "Entries: 100");
    assert_eq!(age_label(7), "[7s]");
    assert_eq!(age_label(3600), "[3600s]");
    assert_eq!(error_label("connection refused"), "Error: connection refused");
    assert_eq!(error_label(""), "Error: ");
}
