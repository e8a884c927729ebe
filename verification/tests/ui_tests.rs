use std::time::Instant;

use northcloud_oculus::health::NodeHealth;
use northcloud_oculus::interaction::{
    orphaned_ui_cameras, plan_detail_panels, HoverState, SelectionState, TriggerInput,
};
use northcloud_oculus::markers::{apply_health_updates, marker_material, marker_pulse, MarkerMaterial, PulseKind};
use northcloud_oculus::panels::{LogBuffer, LogEntry, LogLevel};
use northcloud_oculus::publisher::{chrono_iso, dev_title, publish_interval_secs};

#[test]
fn trigger_edges() {
    let mut t = TriggerInput::default();
    t.update(true);
    assert!(t.right_trigger_pressed && t.right_trigger_just_pressed);
    t.update(true);
    assert!(t.right_trigger_pressed && !t.right_trigger_just_pressed);
    t.update(false);
    assert!(!t.right_trigger_pressed && !t.right_trigger_just_pressed);
    t.update(true);
    assert!(t.right_trigger_just_pressed);
    assert!(t.is_pressed() && t.is_just_pressed());
    t.update(true);
    assert!(t.is_pressed() && !t.is_just_pressed());
    let n = TriggerInput::new();
    assert!(!n.is_pressed() && !n.is_just_pressed());
}

#[test]
fn hover_follows_markers() {
    let mut h = HoverState::default();
    let c = h.update(Some(5), true);
    assert_eq!((c.unhover, c.hover), (None, Some(5)));
    let c = h.update(Some(5), true);
    assert_eq!((c.unhover, c.hover), (None, None));
    let c = h.update(Some(6), true);
    assert_eq!((c.unhover, c.hover), (Some(5), Some(6)));
    let c = h.update(Some(7), false);
    assert_eq!((c.unhover, c.hover), (Some(6), None));
    assert_eq!(h.hovered_entity, None);
    assert_eq!(h.previous_hovered, Some(6));
    let c = h.update(None, false);
    assert_eq!((c.unhover, c.hover), (None, None));
}

#[test]
fn selection_needs_press_and_hover() {
    let mut s = SelectionState::default();
    let c = s.update(false, Some(1));
    assert_eq!((c.deselect, c.select), (None, None));
    let c = s.update(true, Some(1));
    assert_eq!((c.deselect, c.select), (None, Some(1)));
    let c = s.update(true, Some(1));
    assert_eq!((c.deselect, c.select), (None, Some(1)));
    let c = s.update(true, Some(2));
    assert_eq!((c.deselect, c.select), (Some(1), Some(2)));
    let c = s.update(true, None);
    assert_eq!((c.deselect, c.select), (None, None));
    assert_eq!(s.selected_entity, Some(2));
}

#[test]
fn detail_panels_follow_selection() {
    let panels = vec![(10, 1), (11, 2), (12, 3)];
    let plan = plan_detail_panels(&panels, Some(2));
    assert_eq!(plan.despawn, vec![10, 12]);
    assert_eq!(plan.spawn_for, None);
    let plan = plan_detail_panels(&panels, Some(4));
    assert_eq!(plan.despawn, vec![10, 11, 12]);
    assert_eq!(plan.spawn_for, Some(4));
    let plan = plan_detail_panels(&panels, None);
    assert_eq!(plan.despawn, vec![10, 11, 12]);
    assert_eq!(plan.spawn_for, None);
}

#[test]
fn orphaned_cameras() {
    assert_eq!(orphaned_ui_cameras(&vec![(1, 100), (2, 200), (3, 300)], &vec![200]), vec![1, 3]);
    assert_eq!(orphaned_ui_cameras(&vec![], &vec![200]), Vec::<u64>::new());
}

#[test]
fn marker_styles() {
    assert_eq!(marker_material(NodeHealth::Healthy), MarkerMaterial::Healthy);
    assert_eq!(marker_material(NodeHealth::Critical), MarkerMaterial::Critical);
    assert_eq!(marker_pulse(NodeHealth::Healthy), None);
    assert_eq!(marker_pulse(NodeHealth::Warning), Some(PulseKind::Warning));
    assert_eq!(marker_pulse(NodeHealth::Critical), Some(PulseKind::Critical));
}

#[test]
fn health_updates_reach_first_matching_marker() {
    let ids = vec!["a".to_string(), "b".to_string(), "a".to_string()];
    let mut healths = vec![NodeHealth::Healthy; 3];
    let updates = vec![
        ("a".to_string(), NodeHealth::Warning),
        ("z".to_string(), NodeHealth::Critical),
        ("b".to_string(), NodeHealth::Critical),
        ("a".to_string(), NodeHealth::Critical),
    ];
    apply_health_updates(&ids, &mut healths, &updates);
    assert_eq!(healths, vec![NodeHealth::Critical, NodeHealth::Critical, NodeHealth::Healthy]);
}

fn entry(m: &str) -> LogEntry {
    LogEntry { timestamp: Instant::now(), source: "s".to_string(), message: m.to_string(), level: LogLevel::Info }
}

#[test]
fn log_buffer_newest_first() {
    let mut b = LogBuffer::default();
    assert_eq!(b.max_entries, 100);
    b.max_entries = 2;
    b.push(entry("1"));
    b.push(entry("2"));
    b.push(entry("3"));
    let msgs: Vec<&str> = b.entries.iter().map(|e| e.message.as_str()).collect();
    assert_eq!(msgs, vec!["3", "2"]);
    b.clear();
    assert!(b.entries.is_empty());
    assert_eq!(LogLevel::Warning.rgb(), (255, 200, 50));
    assert_eq!(LogLevel::Error.rgb(), (255, 80, 80));
    assert_eq!(LogLevel::Info.rgb(), (180, 180, 180));
}

#[test]
fn publisher_pieces() {
    assert_eq!(chrono_iso(0), "1970-01-01T00:00:00Z");
    assert_eq!(chrono_iso(1709000000), "2024-03-01T02:13:20Z");
    assert_eq!(dev_title("Simulated article #", 4), "Simulated article # 4");
    assert_eq!(dev_title("VR feed demo message", 4), "VR feed demo message");
    assert_eq!(publish_interval_secs(None), 3);
    assert_eq!(publish_interval_secs(Some("0".to_string())), 1);
    assert_eq!(publish_interval_secs(Some("10".to_string())), 10);
    assert_eq!(publish_interval_secs(Some("ten".to_string())), 3);
}
