use rssd::config::{has_text, Feeds};

#[test]
fn feed_list_appends_file_lines() {
    let f = Feeds {
        list: vec!["a".to_string()],
        file_path: Some("feeds.txt".to_string()),
        queue: 10,
        refresh_interval: 60,
    };
    let lines = vec![
        "b".to_string(),
        "   ".to_string(),
        "".to_string(),
        "\u{85}".to_string(),
        "\u{a0}\u{3000}".to_string(),
        " c ".to_string(),
    ];
    assert_eq!(f.get(&lines), vec!["a".to_string(), "b".to_string(), " c ".to_string()]);
}

#[test]
fn blank_detection() {
    assert!(!has_text(" \t\r\n"));
    assert!(has_text(" x "));
    assert!(!has_text(""));
    assert!(!has_text("\u{85}\u{a0}\u{1680}\u{2000}\u{200a}\u{202f}\u{205f}\u{3000}"));
    assert!(has_text("\u{200b}"));
}
