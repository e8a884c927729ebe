use northcloud_oculus::status::NodeStatusBuffer;

#[test]
fn status_read_after_update() {
    let mut b: NodeStatusBuffer<u32> = NodeStatusBuffer::new();
    assert_eq!(b.get("crawler"), None);
    b.update("crawler".to_string(), 1);
    b.update("indexer".to_string(), 2);
    assert_eq!(b.get("crawler"), Some(&1));
    assert_eq!(b.get("indexer"), Some(&2));
    b.update("crawler".to_string(), 3);
    assert_eq!(b.get("crawler"), Some(&3));
    assert_eq!(b.get("indexer"), Some(&2));
    assert_eq!(b.get("publisher"), None);
}

#[test]
fn statuses_once_per_node() {
    let mut b: NodeStatusBuffer<&str> = NodeStatusBuffer::default();
    assert!(b.statuses().is_empty());
    b.update("a".to_string(), "healthy");
    b.update("b".to_string(), "warning");
    b.update("a".to_string(), "critical");
    let mut all: Vec<&str> = b.statuses().into_iter().copied().collect();
    all.sort();
    assert_eq!(all, vec!["critical", "warning"]);
}
