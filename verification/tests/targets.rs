use feedcruncher::feed::FeedItem;
use feedcruncher::webhook::{webhook_from_url, PushPlan, Webhook, WebhookDiscord, WebhookSlack};

fn item(title: Option<&str>, link: &str) -> FeedItem {
    FeedItem {
        guid: "guid-1".to_string(),
        link: link.to_string(),
        title: title.map(|s| s.to_string()),
        published_at: None,
    }
}

#[test]
fn discard_sink_selected_for_sentinel() {
    let hook = webhook_from_url("-".to_string()).unwrap();
    assert!(matches!(hook, Webhook::Noop(_)));
    assert_eq!(hook.url(), "-");
}

#[test]
fn discard_sink_plans_no_request() {
    let hook = webhook_from_url("-".to_string()).unwrap();
    let plan = hook.plan_push(&item(Some("Hello"), "https://example.com/post"));
    assert!(matches!(plan, PushPlan::Log));
}

#[test]
fn discord_selected_for_discord_com() {
    let url = "https://discord.com/api/webhooks/123/abc";
    let hook = webhook_from_url(url.to_string()).unwrap();
    assert!(matches!(hook, Webhook::Discord(_)));
    assert_eq!(hook.url(), url);
}

#[test]
fn discord_selected_for_discordapp_com() {
    let url = "https://discordapp.com/api/webhooks/123/abc";
    let hook = webhook_from_url(url.to_string()).unwrap();
    assert!(matches!(hook, Webhook::Discord(_)));
}

#[test]
fn slack_selected_for_hooks_slack_com() {
    let url = "https://hooks.slack.com/services/T0/B0/xyz";
    let hook = webhook_from_url(url.to_string()).unwrap();
    assert!(matches!(hook, Webhook::Slack(_)));
    assert_eq!(hook.url(), url);
}

#[test]
fn service_match_is_by_substring() {
    // Resolution looks for the service url anywhere in the string, as a
    // substring, not as a prefix.
    let url = "http://proxy.example.com/?to=https://discord.com/api/webhooks/1/a";
    let hook = webhook_from_url(url.to_string()).unwrap();
    assert!(matches!(hook, Webhook::Discord(_)));
}

#[test]
fn unknown_target_rejected() {
    let err = webhook_from_url("https://example.com/hook".to_string()).unwrap_err();
    assert_eq!(
        err.message(),
        "unknown webhook target: 'https://example.com/hook'"
    );
}

#[test]
fn discord_message_renders_title_and_link() {
    let hook = WebhookDiscord {
        url: "https://discord.com/api/webhooks/1/a".to_string(),
    };
    let body = hook.render_message(&item(Some("Hello"), "https://example.com/post"));
    assert_eq!(body, "{\"content\":\"Hello\\n\\nhttps://example.com/post\"}");
}

#[test]
fn discord_message_without_title_is_link_only() {
    let hook = WebhookDiscord {
        url: "https://discord.com/api/webhooks/1/a".to_string(),
    };
    let body = hook.render_message(&item(None, "https://example.com/post"));
    assert_eq!(body, "{\"content\":\"https://example.com/post\"}");
}

#[test]
fn slack_message_renders_text_field() {
    let hook = WebhookSlack {
        url: "https://hooks.slack.com/services/T0/B0/xyz".to_string(),
    };
    let body = hook.render_message(&item(Some("Hi"), "https://example.com/p"));
    assert_eq!(body, "{\"text\":\"Hi\\n\\nhttps://example.com/p\"}");
}

#[test]
fn message_escaping_matches_json_encoder() {
    let hook = WebhookDiscord {
        url: "https://discord.com/api/webhooks/1/a".to_string(),
    };
    let title = "say \"hi\" \\ there";
    let link = "https://example.com/post";
    let body = hook.render_message(&item(Some(title), link));
    let text = format!("{}\n\n{}", title, link);
    let encoded = serde_json::to_string(&text).unwrap();
    assert_eq!(body, format!("{{\"content\":{}}}", encoded));
}

#[test]
fn chat_variants_plan_one_post_of_their_payload() {
    let url = "https://discord.com/api/webhooks/1/a";
    let hook = webhook_from_url(url.to_string()).unwrap();
    let it = item(Some("T"), "https://example.com/p");
    match hook.plan_push(&it) {
        PushPlan::Post { url: u, body } => {
            assert_eq!(u, url);
            assert_eq!(body, "{\"content\":\"T\\n\\nhttps://example.com/p\"}");
        }
        PushPlan::Log => panic!("chat variant must plan a request"),
    }
}
