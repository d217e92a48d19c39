use yral_multi_service::view_counts::ViewCounts;

#[test]
fn recorded_count_reads_back() {
    let mut c = ViewCounts::new();
    assert!(c.is_empty());
    c.insert("a".to_string(), 3);
    c.insert("b".to_string(), 4);
    assert_eq!(c.get("a"), Some(3));
    assert_eq!(c.get("b"), Some(4));
    assert_eq!(c.get("c"), None);
    assert_eq!(c.len(), 2);
    assert!(!c.is_empty());
}

#[test]
fn later_count_wins_and_order_is_first_recording() {
    let mut c = ViewCounts::new();
    c.insert("a".to_string(), 3);
    c.insert("b".to_string(), 4);
    c.insert("a".to_string(), 9);
    assert_eq!(c.len(), 2);
    assert_eq!(c.get("a"), Some(9));
    assert_eq!(c.entry(0), ("a", 9));
    assert_eq!(c.entry(1), ("b", 4));
}

#[test]
fn overwriting_keeps_positions() {
    let mut c = ViewCounts::new();
    c.insert("a".to_string(), 1);
    c.insert("b".to_string(), 2);
    c.insert("c".to_string(), 3);
    c.insert("b".to_string(), 9);
    assert_eq!(c.entry(0), ("a", 1));
    assert_eq!(c.entry(1), ("b", 9));
    assert_eq!(c.entry(2), ("c", 3));
}
