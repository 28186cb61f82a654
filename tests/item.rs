use rssd::item::FeedItem;

fn item(guid: Option<&str>, link: Option<&str>, title: Option<&str>, desc: Option<&str>) -> FeedItem {
    FeedItem {
        title: title.map(|s| s.to_string()),
        link: link.map(|s| s.to_string()),
        description: desc.map(|s| s.to_string()),
        author: None,
        categories: Vec::new(),
        guid: guid.map(|s| s.to_string()),
        pub_date: None,
        source_title: None,
        source_url: None,
        content: None,
    }
}

#[test]
fn guid_is_the_fingerprint() {
    let a = item(Some("urn:1"), Some("l"), Some("t"), Some("d"));
    let b = item(Some("urn:1"), Some("other"), None, None);
    assert_eq!(a.fingerprint(), "urn:1");
    assert_eq!(b.fingerprint(), "urn:1");
}

#[test]
fn hash_over_link_title_description() {
    let a = item(None, Some("a"), Some("b"), Some("c"));
    assert_eq!(a.digest_input(), "abc");
    assert_eq!(
        a.fingerprint(),
        "ba7816bf8f01cfea414140de5dae2223b00361a396177a9cb410ff61f20015ad"
    );
}

#[test]
fn hash_of_empty_item() {
    let a = item(None, None, None, None);
    assert_eq!(a.digest_input(), "");
    assert_eq!(
        a.fingerprint(),
        "e3b0c44298fc1c149afbf4c8996fb92427ae41e4649b934ca495991b7852b855"
    );
}

#[test]
fn changing_a_field_changes_the_hash() {
    let a = item(None, Some("l"), Some("t"), Some("d")).fingerprint();
    let b = item(None, Some("l2"), Some("t"), Some("d")).fingerprint();
    let c = item(None, Some("l"), Some("t2"), Some("d")).fingerprint();
    let d = item(None, Some("l"), Some("t"), Some("d2")).fingerprint();
    assert_ne!(a, b);
    assert_ne!(a, c);
    assert_ne!(a, d);
    assert_eq!(a, item(None, Some("l"), Some("t"), Some("d")).fingerprint());
    assert_eq!(a.len(), 64);
}

#[test]
fn digest_is_written_in_lowercase_hex() {
    let a = item(None, Some("l"), None, None);
    assert_eq!(a.fingerprint_with_digest(&[0x00, 0xab, 0x7f, 0xff]), "00ab7fff");
    let b = item(Some("g"), None, None, None);
    assert_eq!(b.fingerprint_with_digest(&[0x01]), "g");
}

#[test]
fn parse_feed_reads_items_in_order() {
    let doc = br#"<?xml version="1.0"?>
<rss version="2.0"><channel><title>C</title><link>http://c</link><description>d</description>
<item><title>One</title><link>http://c/1</link><guid>g1</guid><category>x</category></item>
<item><title>Two</title><description>second</description><source url="http://s">S</source></item>
</channel></rss>"#;
    let items = rssd::source::parse_feed(doc).unwrap();
    assert_eq!(items.len(), 2);
    assert_eq!(items[0].title.as_deref(), Some("One"));
    assert_eq!(items[0].guid.as_deref(), Some("g1"));
    assert_eq!(items[0].categories, vec!["x".to_string()]);
    assert_eq!(items[0].fingerprint(), "g1");
    assert_eq!(items[1].description.as_deref(), Some("second"));
    assert_eq!(items[1].source_url.as_deref(), Some("http://s"));
    assert_eq!(items[1].source_title.as_deref(), Some("S"));
}

#[test]
fn parse_feed_rejects_garbage() {
    assert_eq!(
        rssd::source::parse_feed(b"not a feed").unwrap_err(),
        rssd::source::FetchError::ParseError
    );
    assert_eq!(rssd::source::FetchError::Network.to_string(), "network error");
}

#[test]
fn parse_feed_of_empty_channel() {
    let doc = br#"<rss version="2.0"><channel><title>C</title><link>http://c</link><description>d</description></channel></rss>"#;
    assert!(rssd::source::parse_feed(doc).unwrap().is_empty());
}
