use rssd::engine::{merge_feed_lists, partition_resolved, FeedTable};

fn s(v: &[&str]) -> Vec<String> {
    v.iter().map(|x| x.to_string()).collect()
}

#[test]
fn adding_twice_keeps_one_entry() {
    let mut t: FeedTable<u8> = FeedTable::new();
    assert_eq!(t.insert("u".to_string(), 1), None);
    assert_eq!(t.insert("u".to_string(), 2), Some(2));
    assert_eq!(t.len(), 1);
    assert_eq!(t.list(), s(&["u"]));
}

#[test]
fn remove_hands_back_handle() {
    let mut t: FeedTable<u8> = FeedTable::new();
    t.insert("a".to_string(), 1);
    t.insert("b".to_string(), 2);
    assert_eq!(t.remove("a"), Some(1));
    assert_eq!(t.remove("a"), None);
    assert_eq!(t.list(), s(&["b"]));
    assert_eq!(t.len(), 1);
}

#[test]
fn merge_is_a_union_in_order() {
    let r = merge_feed_lists(&s(&["a", "b"]), &s(&["b", "c", "a", "c"]));
    assert_eq!(r, s(&["a", "b", "c"]));
    assert!(merge_feed_lists(&vec![], &vec![]).is_empty());
}

#[test]
fn partition_keeps_order() {
    let results = vec![
        ("a".to_string(), Some(1)),
        ("b".to_string(), None),
        ("c".to_string(), Some(3)),
        ("d".to_string(), None),
    ];
    let (ok, failed) = partition_resolved(results);
    assert_eq!(ok, vec![1, 3]);
    assert_eq!(failed, s(&["b", "d"]));
}
