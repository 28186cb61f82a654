use rssd::item::FeedItem;
use rssd::ledger::{archive_row, count_changed, discovered};

fn sample(categories: Vec<&str>, pub_date: Option<&str>) -> FeedItem {
    FeedItem {
        title: Some("T".to_string()),
        link: Some("L".to_string()),
        description: None,
        author: Some("A".to_string()),
        categories: categories.into_iter().map(|s| s.to_string()).collect(),
        guid: Some("G".to_string()),
        pub_date: pub_date.map(|s| s.to_string()),
        source_title: None,
        source_url: Some("S".to_string()),
        content: None,
    }
}

#[test]
fn archive_row_copies_fields() {
    let row = archive_row(&sample(vec!["x", "y\""], Some("Mon")), "G", "http://f", "NOW");
    assert_eq!(row.id, "G");
    assert_eq!(row.title.as_deref(), Some("T"));
    assert_eq!(row.link.as_deref(), Some("L"));
    assert_eq!(row.description, None);
    assert_eq!(row.author.as_deref(), Some("A"));
    assert_eq!(row.categories.as_deref(), Some("[\"x\",\"y\\\"\"]"));
    assert_eq!(row.guid.as_deref(), Some("G"));
    assert_eq!(row.pub_date, "Mon");
    assert_eq!(row.source_url.as_deref(), Some("S"));
    assert_eq!(row.feed_source, "http://f");
    assert_eq!(row.archived_at, "NOW");
}

#[test]
fn archive_row_defaults() {
    let row = archive_row(&sample(vec![], None), "id", "src", "2024-01-01T00:00:00Z");
    assert_eq!(row.categories, None);
    assert_eq!(row.pub_date, "2024-01-01T00:00:00Z");
}

#[test]
fn discovery_needs_one_new_row_and_commit() {
    assert!(discovered(Some(1), true, true));
    assert!(!discovered(Some(0), true, true));
    assert!(!discovered(None, true, true));
    assert!(!discovered(Some(1), false, true));
    assert!(!discovered(Some(1), true, false));
}

#[test]
fn at_most_one_discovery_in_sequence() {
    // A store that runs the inserts one after the other: only the first adds a row.
    let mut seen: Vec<String> = Vec::new();
    let mut found = 0;
    for _ in 0..5 {
        let rows = if seen.contains(&"fp".to_string()) { 0 } else { seen.push("fp".to_string()); 1 };
        if discovered(Some(rows), true, true) {
            found += 1;
        }
    }
    assert_eq!(found, 1);
    assert_eq!(seen.len(), 1);
}

#[test]
fn count_changed_skips_failures_and_noops() {
    assert_eq!(count_changed(&vec![Some(1), Some(0), None, Some(1)]), 2);
    assert_eq!(count_changed(&vec![]), 0);
}

#[test]
fn archive_row_always_stores_category_json() {
    let row = archive_row(&sample(vec!["only"], None), "id", "src", "t");
    assert_eq!(row.categories.as_deref(), Some("[\"only\"]"));
}
