use rssd::cache::RecentCache;

#[test]
fn fifo_eviction_forgets_oldest() {
    let mut c = RecentCache::new(3);
    for id in ["f1", "f2", "f3", "f4"] {
        c.remember(id.to_string());
    }
    assert!(!c.contains("f1"));
    assert!(c.contains("f2"));
    assert!(c.contains("f3"));
    assert!(c.contains("f4"));
    assert_eq!(c.len(), 3);
}

#[test]
fn repeat_does_not_move_to_back() {
    let mut c = RecentCache::new(2);
    c.remember("a".to_string());
    c.remember("b".to_string());
    c.remember("a".to_string());
    c.remember("c".to_string());
    assert!(!c.contains("a"));
    assert!(c.contains("b"));
    assert!(c.contains("c"));
}

#[test]
fn empty_cache_holds_nothing() {
    let c = RecentCache::new(300);
    assert_eq!(c.len(), 0);
    assert_eq!(c.capacity(), 300);
    assert!(!c.contains(""));
}

#[test]
fn zero_capacity_keeps_only_latest() {
    let mut c = RecentCache::new(0);
    c.remember("a".to_string());
    c.remember("b".to_string());
    assert_eq!(c.len(), 1);
    assert!(c.contains("b"));
}
