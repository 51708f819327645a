use feedcruncher::config::{
    effective_webhook_urls, feed_from_config, validate_config, Config, ConfigError, FeedConfig,
};
use feedcruncher::feed::{decode_atom, decode_rss, FeedDescriptor, FeedError, FeedKind};

const RSS_DOC: &str = r#"<?xml version="1.0" encoding="UTF-8"?>
<rss version="2.0">
  <channel>
    <title>sample</title>
    <link>https://example.com</link>
    <description>sample feed</description>
    <item>
      <title>first post</title>
      <link>https://example.com/first</link>
      <guid>guid-first</guid>
      <pubDate>Mon, 01 Jan 2024 00:00:00 GMT</pubDate>
    </item>
    <item>
      <title>no guid, dropped</title>
      <link>https://example.com/second</link>
    </item>
  </channel>
</rss>"#;

const ATOM_DOC: &str = r#"<?xml version="1.0" encoding="utf-8"?>
<feed xmlns="http://www.w3.org/2005/Atom">
  <title>sample</title>
  <id>urn:feed</id>
  <updated>2024-01-01T00:00:00Z</updated>
  <entry>
    <title>first entry</title>
    <id>urn:entry-1</id>
    <link href="https://example.com/e1"/>
    <updated>2024-01-01T00:00:00Z</updated>
  </entry>
  <entry>
    <title>no link, dropped</title>
    <id>urn:entry-2</id>
    <updated>2024-01-01T00:00:00Z</updated>
  </entry>
</feed>"#;

#[test]
fn rss_decode_keeps_well_formed_items() {
    let items = decode_rss(RSS_DOC.as_bytes()).unwrap();
    assert_eq!(items.len(), 1);
    assert_eq!(items[0].guid, "guid-first");
    assert_eq!(items[0].link, "https://example.com/first");
    assert_eq!(items[0].title.as_deref(), Some("first post"));
    assert!(items[0].published_at.is_some());
}

#[test]
fn atom_decode_keeps_well_formed_entries() {
    let items = decode_atom(ATOM_DOC.as_bytes()).unwrap();
    assert_eq!(items.len(), 1);
    assert_eq!(items[0].guid, "urn:entry-1");
    assert_eq!(items[0].link, "https://example.com/e1");
    assert_eq!(items[0].title.as_deref(), Some("first entry"));
}

#[test]
fn garbage_bytes_are_a_parse_error() {
    assert_eq!(decode_rss(b"not a feed").unwrap_err(), FeedError::Parse);
    assert_eq!(decode_atom(b"not a feed").unwrap_err(), FeedError::Parse);
}

#[test]
fn descriptor_decodes_by_kind() {
    let rss = FeedDescriptor {
        kind: FeedKind::Rss,
        url: "https://example.com/feed.xml".to_string(),
        webhook_urls: None,
    };
    assert_eq!(rss.decode(RSS_DOC.as_bytes()).unwrap().len(), 1);
    assert!(rss.decode(ATOM_DOC.as_bytes()).is_err());

    let atom = FeedDescriptor {
        kind: FeedKind::Atom,
        url: "https://example.com/atom.xml".to_string(),
        webhook_urls: None,
    };
    assert_eq!(atom.decode(ATOM_DOC.as_bytes()).unwrap().len(), 1);
}

#[test]
fn feed_from_config_accepts_known_kinds() {
    let d = feed_from_config(
        &"rss".to_string(),
        &"https://example.com/f".to_string(),
        None,
    )
    .unwrap();
    assert_eq!(d.kind, FeedKind::Rss);
    assert_eq!(d.url, "https://example.com/f");

    let d = feed_from_config(
        &"atom".to_string(),
        &"https://example.com/a".to_string(),
        None,
    )
    .unwrap();
    assert_eq!(d.kind, FeedKind::Atom);
}

#[test]
fn feed_from_config_rejects_unknown_kind() {
    let err = feed_from_config(
        &"json".to_string(),
        &"https://example.com/f".to_string(),
        None,
    )
    .unwrap_err();
    assert_eq!(
        err.message(),
        "unknown feed kind 'json' for feed 'https://example.com/f'"
    );
}

#[test]
fn feed_targets_override_the_default() {
    let with_own = FeedConfig {
        kind: "rss".to_string(),
        url: "https://example.com/f".to_string(),
        webhook_urls: Some(vec!["-".to_string()]),
    };
    let without = FeedConfig {
        kind: "rss".to_string(),
        url: "https://example.com/g".to_string(),
        webhook_urls: None,
    };
    let default = Some(vec!["https://hooks.slack.com/services/T/B/x".to_string()]);
    assert_eq!(
        effective_webhook_urls(&with_own, &default),
        Some(vec!["-".to_string()])
    );
    assert_eq!(effective_webhook_urls(&without, &default), default);
    assert_eq!(effective_webhook_urls(&without, &None), None);
}

#[test]
fn validate_config_resolves_every_feed() {
    let config = Config {
        feeds: vec![
            FeedConfig {
                kind: "rss".to_string(),
                url: "https://example.com/f".to_string(),
                webhook_urls: None,
            },
            FeedConfig {
                kind: "atom".to_string(),
                url: "https://example.com/a".to_string(),
                webhook_urls: Some(vec!["-".to_string()]),
            },
        ],
        poll: None,
        poll_sleep_dur: None,
        webhook_urls: Some(vec!["https://discord.com/api/webhooks/1/a".to_string()]),
    };
    let resolved = validate_config(&config).unwrap();
    assert_eq!(resolved.len(), 2);
    assert_eq!(resolved[0].descriptor.kind, FeedKind::Rss);
    assert_eq!(resolved[0].hooks.len(), 1);
    assert_eq!(
        resolved[0].hooks[0].url(),
        "https://discord.com/api/webhooks/1/a"
    );
    assert_eq!(resolved[1].hooks.len(), 1);
    assert_eq!(resolved[1].hooks[0].url(), "-");
}

#[test]
fn validate_config_fails_at_startup_on_bad_kind() {
    let config = Config {
        feeds: vec![FeedConfig {
            kind: "jsonfeed".to_string(),
            url: "https://example.com/f".to_string(),
            webhook_urls: Some(vec!["-".to_string()]),
        }],
        poll: None,
        poll_sleep_dur: None,
        webhook_urls: None,
    };
    assert!(matches!(
        validate_config(&config),
        Err(ConfigError::UnknownFeedKind { .. })
    ));
}

#[test]
fn validate_config_fails_at_startup_on_bad_target() {
    let config = Config {
        feeds: vec![FeedConfig {
            kind: "rss".to_string(),
            url: "https://example.com/f".to_string(),
            webhook_urls: Some(vec!["https://nobody.example.org/hook".to_string()]),
        }],
        poll: None,
        poll_sleep_dur: None,
        webhook_urls: None,
    };
    assert!(matches!(
        validate_config(&config),
        Err(ConfigError::UnknownTarget { .. })
    ));
}

#[test]
fn poll_defaults() {
    let config = Config {
        feeds: vec![],
        poll: None,
        poll_sleep_dur: None,
        webhook_urls: None,
    };
    assert!(config.poll_enabled());
    assert_eq!(config.poll_sleep_secs(), 600);
    let config = Config {
        feeds: vec![],
        poll: Some(false),
        poll_sleep_dur: Some(5),
        webhook_urls: None,
    };
    assert!(!config.poll_enabled());
    assert_eq!(config.poll_sleep_secs(), 5);
}
