use rssd::commands::{
    add_feed_reply, direct_reply_line, parse_error_reply, remove_feed_reply, reply_line, route,
    split_tokens, Route, CommandParseError, ServerCommand, VERSION,
};
use rssd::engine::FeedTable;

#[test]
fn tokens_split_on_any_whitespace() {
    let t = split_tokens("  feed\tadd   http://a.b/rss \n");
    assert_eq!(t, vec!["feed".to_string(), "add".to_string(), "http://a.b/rss".to_string()]);
    assert!(split_tokens("").is_empty());
    assert!(split_tokens("   ").is_empty());
    assert_eq!(split_tokens("ping\u{3000}x\u{a0}y"), vec!["ping".to_string(), "x".to_string(), "y".to_string()]);
    assert!(split_tokens("\u{85}\u{2028}").is_empty());
}

#[test]
fn parse_add_and_remove() {
    match ServerCommand::parse("feed add https://example.com/rss") {
        Ok(ServerCommand::AddFeed(u)) => assert_eq!(u, "https://example.com/rss"),
        other => panic!("unexpected {:?}", other),
    }
    match ServerCommand::parse("feed remove https://example.com/rss") {
        Ok(ServerCommand::RemoveFeed(u)) => assert_eq!(u, "https://example.com/rss"),
        other => panic!("unexpected {:?}", other),
    }
}

#[test]
fn parse_ping_and_version() {
    assert!(matches!(ServerCommand::parse("ping"), Ok(ServerCommand::Ping)));
    assert!(matches!(ServerCommand::parse("version"), Ok(ServerCommand::Version)));
    assert!(matches!(ServerCommand::parse("ping extra"), Ok(ServerCommand::Ping)));
}

#[test]
fn parse_error_kinds() {
    assert_eq!(ServerCommand::parse("bogus").unwrap_err(), CommandParseError::MissingKeyword);
    assert_eq!(ServerCommand::parse("feed list").unwrap_err(), CommandParseError::UnknownKeyword);
    assert_eq!(ServerCommand::parse("feed").unwrap_err(), CommandParseError::NotLongEnough);
    assert_eq!(ServerCommand::parse("").unwrap_err(), CommandParseError::MissingKeyword);
    assert_eq!(ServerCommand::parse("  \t ").unwrap_err(), CommandParseError::MissingKeyword);
    assert_eq!(ServerCommand::parse("feed add").unwrap_err(), CommandParseError::MissingLink);
    assert_eq!(ServerCommand::parse("feed remove  ").unwrap_err(), CommandParseError::MissingLink);
    assert_eq!(ServerCommand::parse("PING").unwrap_err(), CommandParseError::MissingKeyword);
}

#[test]
fn command_lines_render_and_parse_back() {
    let line = ServerCommand::AddFeed("http://x/feed".to_string()).to_string();
    assert_eq!(line, "feed add http://x/feed");
    assert!(matches!(ServerCommand::parse(&line), Ok(ServerCommand::AddFeed(u)) if u == "http://x/feed"));
    let line = ServerCommand::RemoveFeed("http://x/feed".to_string()).to_string();
    assert_eq!(line, "feed remove http://x/feed");
    assert_eq!(ServerCommand::Ping.to_string(), "ping");
    assert_eq!(ServerCommand::Version.to_string(), "version");
}

#[test]
fn format_reply_texts() {
    assert_eq!(ServerCommand::Ping.format_reply(), Some("Pong".to_string()));
    assert_eq!(ServerCommand::Version.format_reply(), Some(VERSION.to_string()));
    assert_eq!(ServerCommand::AddFeed("u".to_string()).format_reply(), None);
    assert_eq!(ServerCommand::RemoveFeed("u".to_string()).format_reply(), None);
}

#[test]
fn error_texts() {
    assert_eq!(CommandParseError::MissingKeyword.to_string(), "Missing keyword");
    assert_eq!(CommandParseError::UnknownKeyword.to_string(), "Unknown keyword");
    assert_eq!(CommandParseError::NotLongEnough.to_string(), "Command not long enough");
    assert_eq!(CommandParseError::MissingLink.to_string(), "Missing link");
}

#[test]
fn reply_framing() {
    assert_eq!(reply_line(true, "Pong"), "ACK Pong\n");
    assert_eq!(reply_line(false, "x y"), "ERR x y\n");
    assert_eq!(
        add_feed_reply("u", &Err("timeout".to_string())),
        "ERR Could not add feed: timeout\n"
    );
    assert_eq!(remove_feed_reply("u", false), "ACK Feed is not being followed: u\n");
}

#[test]
fn protocol_round_trip() {
    let mut table: FeedTable<u32> = FeedTable::new();
    let url = "https://example.com/rss";

    let cmd = ServerCommand::parse(&format!("feed add {}", url)).unwrap();
    let added = match cmd {
        ServerCommand::AddFeed(u) => table.insert(u, 1).is_none(),
        _ => panic!("not an add"),
    };
    assert!(table.contains(url));
    assert_eq!(add_feed_reply(url, &Ok(added)), "ACK Added feed: https://example.com/rss\n");

    let again = table.insert(url.to_string(), 2).is_none();
    assert_eq!(
        add_feed_reply(url, &Ok(again)),
        "ACK Already tracked feed: https://example.com/rss\n"
    );

    let cmd = ServerCommand::parse(&format!("feed remove {}", url)).unwrap();
    let found = match cmd {
        ServerCommand::RemoveFeed(u) => table.remove(&u).is_some(),
        _ => panic!("not a remove"),
    };
    assert!(!table.contains(url));
    assert_eq!(remove_feed_reply(url, found), "ACK Removed https://example.com/rss feed\n");

    let ping = ServerCommand::parse("ping").unwrap();
    assert_eq!(direct_reply_line(&ping), Some("ACK Pong\n".to_string()));
    let version = ServerCommand::parse("version").unwrap();
    assert_eq!(direct_reply_line(&version), Some(format!("ACK {}\n", VERSION)));

    let err = ServerCommand::parse("bogus").unwrap_err();
    assert_eq!(parse_error_reply(err), "ERR Missing keyword\n");
}

#[test]
fn routing_of_lines() {
    assert!(matches!(route("ping\n"), Route::Reply(l) if l == "ACK Pong\n"));
    assert!(matches!(route("bogus"), Route::Reply(l) if l == "ERR Missing keyword\n"));
    assert!(matches!(route("feed"), Route::Reply(l) if l == "ERR Command not long enough\n"));
    assert!(matches!(route("feed add u\n"), Route::Forward(ServerCommand::AddFeed(u)) if u == "u"));
    assert!(matches!(route("feed remove u"), Route::Forward(ServerCommand::RemoveFeed(u)) if u == "u"));
}
