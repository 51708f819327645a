use feedcruncher::config::{validate_config, Config, FeedConfig, ResolvedFeed};
use feedcruncher::cycle::{clear_new_flags, ingest_feed, register_feeds, run_ingest_phase};
use feedcruncher::feed::{FeedDescriptor, FeedError, FeedItem, FeedItems, FeedKind};
use feedcruncher::notification::{Notification, Notifications};
use feedcruncher::store::Store;
use feedcruncher::webhook::{webhook_from_url, PushPlan};

fn item(guid: &str) -> FeedItem {
    FeedItem {
        guid: guid.to_string(),
        link: format!("https://example.com/{}", guid),
        title: Some(format!("title of {}", guid)),
        published_at: None,
    }
}

fn resolved(url: &str, targets: &[&str]) -> ResolvedFeed {
    let config = Config {
        feeds: vec![FeedConfig {
            kind: "rss".to_string(),
            url: url.to_string(),
            webhook_urls: Some(targets.iter().map(|s| s.to_string()).collect()),
        }],
        poll: None,
        poll_sleep_dur: None,
        webhook_urls: None,
    };
    validate_config(&config).unwrap().remove(0)
}

const DISCORD: &str = "https://discord.com/api/webhooks/1/a";

#[test]
fn feed_registration_is_idempotent() {
    let mut store = Store::new();
    let feeds = vec![resolved("https://example.com/f", &["-"])];
    register_feeds(&mut store, &feeds);
    register_feeds(&mut store, &feeds);
    assert_eq!(store.feeds.len(), 1);
    assert_eq!(store.feeds[0].url, "https://example.com/f");
    assert!(store.feeds[0].is_new);
}

#[test]
fn idempotent_ingestion() {
    let mut store = Store::new();
    let feeds = vec![resolved("https://example.com/f", &[DISCORD])];
    register_feeds(&mut store, &feeds);
    let fid = feeds[0].descriptor.id(&store).unwrap();
    let batch = vec![item("a"), item("b")];

    ingest_feed(&mut store, fid, &batch, &feeds[0].hooks);
    clear_new_flags(&mut store);
    let items_after_first = store.items.len();
    let notes_after_first = store.notifications.len();

    ingest_feed(&mut store, fid, &batch, &feeds[0].hooks);
    assert_eq!(store.items.len(), items_after_first);
    assert_eq!(store.notifications.len(), notes_after_first);
}

#[test]
fn at_most_one_notification_per_pair() {
    let mut store = Store::new();
    let feeds = vec![resolved("https://example.com/f", &[DISCORD])];
    register_feeds(&mut store, &feeds);
    let fid = feeds[0].descriptor.id(&store).unwrap();
    ingest_feed(&mut store, fid, &vec![item("a")], &feeds[0].hooks);
    let note = Notification {
        feed_item_id: store.notifications[0].feed_item_id,
        webhook_id: store.notifications[0].webhook_id,
    };
    for _ in 0..5 {
        note.save(&mut store, false);
    }
    assert_eq!(store.notifications.len(), 1);
}

#[test]
fn backlog_suppression() {
    let mut store = Store::new();
    let feeds = vec![resolved("https://example.com/f", &[DISCORD])];
    register_feeds(&mut store, &feeds);
    let fid = feeds[0].descriptor.id(&store).unwrap();
    assert_eq!(feeds[0].descriptor.is_new(&store), Some(true));

    let backlog = vec![item("a"), item("b"), item("c"), item("d"), item("e")];
    ingest_feed(&mut store, fid, &backlog, &feeds[0].hooks);
    assert_eq!(store.notifications.len(), 5);
    assert!(store.notifications.iter().all(|n| n.sent));
    assert!(Notifications::get_unsent(&store).is_empty());

    clear_new_flags(&mut store);
    assert_eq!(feeds[0].descriptor.is_new(&store), Some(false));

    let mut next = backlog.clone();
    next.push(item("f"));
    ingest_feed(&mut store, fid, &next, &feeds[0].hooks);
    assert_eq!(store.notifications.len(), 6);
    let unsent = Notifications::get_unsent(&store);
    assert_eq!(unsent.len(), 1);
    let fresh = FeedItems::get(&store, unsent[0].feed_item_id).unwrap();
    assert_eq!(fresh.guid, "f");
    assert!(!store.notifications[5].sent);
}

#[test]
fn partial_failure_isolation() {
    let mut store = Store::new();
    let feeds = vec![
        resolved("https://example.com/one", &[DISCORD]),
        resolved("https://example.com/two", &[DISCORD]),
        resolved("https://example.com/three", &[DISCORD]),
    ];
    register_feeds(&mut store, &feeds);
    let results: Vec<Result<Vec<FeedItem>, FeedError>> = vec![
        Ok(vec![item("one-1")]),
        Err(FeedError::Network),
        Ok(vec![item("three-1"), item("three-2")]),
    ];
    run_ingest_phase(&mut store, &feeds, &results);
    let guids: Vec<&str> = store.items.iter().map(|r| r.item.guid.as_str()).collect();
    assert_eq!(guids, vec!["one-1", "three-1", "three-2"]);
    assert_eq!(store.notifications.len(), 3);
}

#[test]
fn durable_retry() {
    let mut store = Store::new();
    let feeds = vec![resolved("https://example.com/f", &[DISCORD])];
    register_feeds(&mut store, &feeds);
    clear_new_flags(&mut store);
    let fid = feeds[0].descriptor.id(&store).unwrap();
    let batch = vec![item("a")];
    ingest_feed(&mut store, fid, &batch, &feeds[0].hooks);

    let unsent = Notifications::get_unsent(&store);
    assert_eq!(unsent.len(), 1);
    let note = unsent[0];
    assert!(note.plan_send(&store).is_some());

    // The delivery fails: the row stays unsent.
    note.record_delivery(&mut store, false, 1000);
    assert_eq!(Notifications::get_unsent(&store).len(), 1);
    assert!(store.notifications[0].sent_at.is_none());

    // The process restarts with the same durable state.
    let mut store = store.clone();
    ingest_feed(&mut store, fid, &batch, &feeds[0].hooks);
    assert_eq!(store.notifications.len(), 1);
    let unsent = Notifications::get_unsent(&store);
    assert_eq!(unsent.len(), 1);

    // This time the delivery succeeds.
    unsent[0].record_delivery(&mut store, true, 2000);
    assert!(Notifications::get_unsent(&store).is_empty());
    assert!(store.notifications[0].sent);
    assert_eq!(store.notifications[0].sent_at, Some(2000));
}

#[test]
fn dispatcher_resolves_item_and_target() {
    let mut store = Store::new();
    let feeds = vec![resolved("https://example.com/f", &[DISCORD])];
    register_feeds(&mut store, &feeds);
    clear_new_flags(&mut store);
    let fid = feeds[0].descriptor.id(&store).unwrap();
    ingest_feed(&mut store, fid, &vec![item("a")], &feeds[0].hooks);
    let unsent = Notifications::get_unsent(&store);
    match unsent[0].plan_send(&store).unwrap() {
        PushPlan::Post { url, body } => {
            assert_eq!(url, DISCORD);
            assert_eq!(
                body,
                "{\"content\":\"title of a\\n\\nhttps://example.com/a\"}"
            );
        }
        PushPlan::Log => panic!("a chat target must plan a request"),
    }
}

#[test]
fn discard_sink_rows_plan_no_request() {
    let mut store = Store::new();
    let feeds = vec![resolved("https://example.com/f", &["-"])];
    register_feeds(&mut store, &feeds);
    clear_new_flags(&mut store);
    let fid = feeds[0].descriptor.id(&store).unwrap();
    ingest_feed(&mut store, fid, &vec![item("a")], &feeds[0].hooks);
    let unsent = Notifications::get_unsent(&store);
    assert_eq!(unsent.len(), 1);
    assert!(matches!(unsent[0].plan_send(&store), Some(PushPlan::Log)));
}

#[test]
fn items_keep_their_first_owner_and_fields() {
    let mut store = Store::new();
    let feeds = vec![resolved("https://example.com/f", &[DISCORD])];
    register_feeds(&mut store, &feeds);
    let fid = feeds[0].descriptor.id(&store).unwrap();
    let it = item("a");
    it.save(&mut store, fid);
    let id = it.id(&store).unwrap();
    let back = FeedItems::get(&store, id).unwrap();
    assert_eq!(back.guid, it.guid);
    assert_eq!(back.link, it.link);
    assert_eq!(back.title, it.title);

    // Re-saving the same guid is a no-op, whatever the caller passes.
    let changed = FeedItem {
        guid: "a".to_string(),
        link: "https://example.com/other".to_string(),
        title: None,
        published_at: None,
    };
    changed.save(&mut store, fid);
    assert_eq!(store.items.len(), 1);
    assert_eq!(store.items[0].item.link, "https://example.com/a");
}

#[test]
fn webhooks_resolve_back_from_the_store() {
    let mut store = Store::new();
    let hook = webhook_from_url(DISCORD.to_string()).unwrap();
    let id = hook.save(&mut store);
    let again = hook.save(&mut store);
    assert_eq!(id, again);
    assert_eq!(store.webhooks.len(), 1);
    let back = feedcruncher::webhook::Webhooks::get(&store, id).unwrap();
    assert_eq!(back.url(), DISCORD);
}

#[test]
fn mark_sent_records_the_timestamp() {
    let mut store = Store::new();
    let feeds = vec![resolved("https://example.com/f", &[DISCORD])];
    register_feeds(&mut store, &feeds);
    clear_new_flags(&mut store);
    let fid = feeds[0].descriptor.id(&store).unwrap();
    ingest_feed(&mut store, fid, &vec![item("a")], &feeds[0].hooks);
    let note = Notifications::get_unsent(&store)[0];
    note.mark_as_sent(&mut store, 42);
    assert!(store.notifications[0].sent);
    assert_eq!(store.notifications[0].sent_at, Some(42));
    assert!(Notifications::get_unsent(&store).is_empty());
}

#[test]
fn descriptor_flags_read_and_write_through_the_store() {
    let mut store = Store::new();
    let d = FeedDescriptor {
        kind: FeedKind::Atom,
        url: "https://example.com/a".to_string(),
        webhook_urls: None,
    };
    assert_eq!(d.is_new(&store), None);
    d.save(&mut store);
    assert_eq!(d.is_new(&store), Some(true));
    let fid = d.id(&store).unwrap();
    store.set_is_new(fid, false);
    assert_eq!(d.is_new(&store), Some(false));
}
