//! Notification targets.
//!
//! A configured target string resolves to one of three webhook variants:
//! Discord, Slack, or a discard sink for the sentinel `-`. Resolution is a
//! pure function of the string; delivery itself is planned here as data (a
//! `PushPlan`) and carried out elsewhere, so the discard sink provably never
//! asks for a request.
use vstd::prelude::*;

use crate::config::ConfigError;
use crate::feed::{FeedItem, FeedItemModel};
use crate::store::Store;

verus! {

/// Whether `needle` occurs contiguously inside `hay`.
pub open spec fn is_substr(hay: Seq<char>, needle: Seq<char>) -> bool {
    exists|i: int|
        0 <= i <= hay.len() - needle.len() && #[trigger] hay.subrange(i, i + needle.len())
            == needle
}

/// Substring search by character comparison.
pub fn str_contains(hay: &str, needle: &str) -> (r: bool)
    ensures
        r == is_substr(hay@, needle@),
{
    let hl = hay.unicode_len();
    let nl = needle.unicode_len();
    if nl > hl {
        return false;
    }
    if nl == 0 {
        proof {
            assert(hay@.subrange(0, 0 + needle@.len() as int) =~= needle@);
        }
        return true;
    }
    let mut start: usize = 0;
    while start <= hl - nl
        invariant
            0 < nl <= hl,
            hl == hay@.len(),
            nl == needle@.len(),
            forall|s: int|
                0 <= s < start ==> #[trigger] hay@.subrange(s, s + nl) != needle@,
        decreases hl - nl + 1 - start,
    {
        let mut j: usize = 0;
        let mut matched = true;
        while j < nl
            invariant
                0 < nl <= hl,
                hl == hay@.len(),
                nl == needle@.len(),
                start <= hl - nl,
                j <= nl,
                matched ==> forall|t: int| 0 <= t < j ==> hay@[start + t] == #[trigger] needle@[t],
                !matched ==> hay@.subrange(start as int, start + nl) != needle@,
            decreases nl - j,
        {
            if hay.get_char(start + j) != needle.get_char(j) {
                proof {
                    assert(hay@.subrange(start as int, start + nl)[j as int] != needle@[j as int]);
                }
                matched = false;
                j = nl;
            } else {
                j += 1;
            }
        }
        if matched {
            proof {
                assert(hay@.subrange(start as int, start + nl) =~= needle@);
            }
            return true;
        }
        proof {
            assert(hay@.subrange(start as int, start + nl) != needle@);
            assert(forall|s: int|
                0 <= s < start + 1 ==> #[trigger] hay@.subrange(s, s + nl) != needle@);
        }
        start += 1;
    }
    proof {
        assert forall|i: int|
            0 <= i <= hay@.len() - needle@.len() implies #[trigger] hay@.subrange(
            i,
            i + needle@.len(),
        ) != needle@ by {
            assert(i < start);
        }
    }
    false
}

/// The three target variants.
#[derive(Clone, Copy, Debug, PartialEq, Eq, Structural)]
pub enum TargetKind {
    Discord,
    Slack,
    Noop,
}

/// How a configured target string resolves: the sentinel `-` is the discard
/// sink, known service urls pick their variant, anything else is refused.
pub open spec fn resolved_target(url: Seq<char>) -> Option<TargetKind> {
    if url == "-"@ {
        Some(TargetKind::Noop)
    } else if is_substr(url, "https://discordapp.com/api"@) || is_substr(
        url,
        "https://discord.com/api"@,
    ) {
        Some(TargetKind::Discord)
    } else if is_substr(url, "https://hooks.slack.com"@) {
        Some(TargetKind::Slack)
    } else {
        None
    }
}

/// A Discord webhook target.
#[derive(Clone, Debug)]
pub struct WebhookDiscord {
    pub url: String,
}

/// A Slack webhook target.
#[derive(Clone, Debug)]
pub struct WebhookSlack {
    pub url: String,
}

/// The discard sink: it renders nothing and sends nothing.
#[derive(Clone, Debug)]
pub struct WebhookNoop {
    pub url: String,
}

/// A notification target: one of the three variants.
#[derive(Clone, Debug)]
pub enum Webhook {
    Discord(WebhookDiscord),
    Slack(WebhookSlack),
    Noop(WebhookNoop),
}

impl Webhook {
    /// Which variant this target is.
    pub open spec fn kind(self) -> TargetKind {
        match self {
            Webhook::Discord(_) => TargetKind::Discord,
            Webhook::Slack(_) => TargetKind::Slack,
            Webhook::Noop(_) => TargetKind::Noop,
        }
    }

    /// The configured url, as a sequence.
    pub open spec fn url_spec(self) -> Seq<char> {
        match self {
            Webhook::Discord(w) => w.url@,
            Webhook::Slack(w) => w.url@,
            Webhook::Noop(w) => w.url@,
        }
    }

    /// The configured url.
    pub fn url(&self) -> (r: &String)
        ensures
            r@ == self.url_spec(),
    {
        match self {
            Webhook::Discord(w) => &w.url,
            Webhook::Slack(w) => &w.url,
            Webhook::Noop(w) => &w.url,
        }
    }

    /// Register this target in the store (insert-if-absent keyed by url)
    /// and resolve its id.
    pub fn save(&self, store: &mut Store) -> (id: usize)
        requires
            old(store)@.wf(),
        ensures
            final(store)@ == old(store)@.save_hook_m(self.url_spec()),
            final(store)@.wf(),
            id < final(store)@.hooks.len(),
            final(store)@.hooks[id as int] == self.url_spec(),
    {
        store.save_webhook(self.url())
    }
}

/// Select the target variant for a configured string: `-` is the discard
/// sink, a known service url picks its variant, anything else is a
/// configuration error.
pub fn webhook_from_url(url: String) -> (r: Result<Webhook, ConfigError>)
    ensures
        match resolved_target(url@) {
            Some(k) => (r matches Ok(w) && w.kind() == k && w.url_spec() == url@),
            None => (r matches Err(e) && e matches ConfigError::UnknownTarget { url: u } && u@
                == url@),
        },
{
    let dash = String::from_str("-");
    if url == dash {
        return Ok(Webhook::Noop(WebhookNoop { url }));
    }
    if str_contains(url.as_str(), "https://discordapp.com/api") || str_contains(
        url.as_str(),
        "https://discord.com/api",
    ) {
        return Ok(Webhook::Discord(WebhookDiscord { url }));
    }
    if str_contains(url.as_str(), "https://hooks.slack.com") {
        return Ok(Webhook::Slack(WebhookSlack { url }));
    }
    Err(ConfigError::UnknownTarget { url })
}

/// The JSON string literal (quotes and escapes included) for a text.
pub uninterp spec fn json_quoted(s: Seq<char>) -> Seq<char>;

/// Relies on serde_json::to_string on a string slice: the encoding depends
/// on the characters alone, and serializing a string cannot fail (no map
/// keys, no fallible Serialize impl are involved).
#[verifier::external_body]
fn json_string(s: &str) -> (r: String)
    ensures
        r@ == json_quoted(s@),
{
    serde_json::to_string(s).unwrap()
}

/// The text of a notification message: the title, a blank line, then the
/// link; without a title, the link alone.
pub open spec fn message_text(item: FeedItemModel) -> Seq<char> {
    match item.title {
        Some(t) => t + "\n\n"@ + item.link,
        None => item.link,
    }
}

/// The Discord payload: a JSON object with the text under `content`.
pub open spec fn discord_payload(item: FeedItemModel) -> Seq<char> {
    "{\"content\":"@ + json_quoted(message_text(item)) + "}"@
}

/// The Slack payload: a JSON object with the text under `text`.
pub open spec fn slack_payload(item: FeedItemModel) -> Seq<char> {
    "{\"text\":"@ + json_quoted(message_text(item)) + "}"@
}

/// The message text for one item.
fn render_text(item: &FeedItem) -> (r: String)
    ensures
        r@ == message_text(item@),
{
    match &item.title {
        Some(t) => {
            let mut s = t.clone();
            s.append("\n\n");
            s.append(item.link.as_str());
            s
        },
        None => item.link.clone(),
    }
}

impl WebhookDiscord {
    /// The JSON body posted to Discord for one item.
    pub fn render_message(&self, item: &FeedItem) -> (r: String)
        ensures
            r@ == discord_payload(item@),
    {
        let text = render_text(item);
        let mut r = String::from_str("{\"content\":");
        r.append(json_string(text.as_str()).as_str());
        r.append("}");
        r
    }
}

impl WebhookSlack {
    /// The JSON body posted to Slack for one item.
    pub fn render_message(&self, item: &FeedItem) -> (r: String)
        ensures
            r@ == slack_payload(item@),
    {
        let text = render_text(item);
        let mut r = String::from_str("{\"text\":");
        r.append(json_string(text.as_str()).as_str());
        r.append("}");
        r
    }
}

/// What delivering one item to one target requires of the outside world:
/// either one HTTP POST, or nothing at all (the discard sink only logs).
#[derive(Clone, Debug)]
pub enum PushPlan {
    Post { url: String, body: String },
    Log,
}

/// The mathematical value of a `PushPlan`.
#[verifier::ext_equal]
pub enum PushPlanModel {
    Post { url: Seq<char>, body: Seq<char> },
    Log,
}

impl View for PushPlan {
    type V = PushPlanModel;

    open spec fn view(&self) -> PushPlanModel {
        match self {
            PushPlan::Post { url, body } => PushPlanModel::Post { url: url@, body: body@ },
            PushPlan::Log => PushPlanModel::Log,
        }
    }
}

/// The plan a target of the given kind and url makes for one item.
pub open spec fn push_plan_m(k: TargetKind, url: Seq<char>, item: FeedItemModel) -> PushPlanModel {
    match k {
        TargetKind::Discord => PushPlanModel::Post { url, body: discord_payload(item) },
        TargetKind::Slack => PushPlanModel::Post { url, body: slack_payload(item) },
        TargetKind::Noop => PushPlanModel::Log,
    }
}

impl Webhook {
    /// Plan the delivery of one item to this target. The chat variants ask
    /// for one POST of their rendered payload; the discard sink asks for
    /// nothing, so it never causes network traffic.
    pub fn plan_push(&self, item: &FeedItem) -> (r: PushPlan)
        ensures
            r@ == push_plan_m(self.kind(), self.url_spec(), item@),
    {
        match self {
            Webhook::Discord(w) => PushPlan::Post {
                url: w.url.clone(),
                body: w.render_message(item),
            },
            Webhook::Slack(w) => PushPlan::Post { url: w.url.clone(), body: w.render_message(item) },
            Webhook::Noop(_) => PushPlan::Log,
        }
    }
}

/// Store-backed access to registered targets.
#[derive(Debug)]
pub struct Webhooks {}

impl Webhooks {
    /// The target with this id, rebuilt from its stored url.
    pub fn get(store: &Store, id: usize) -> (r: Option<Webhook>)
        ensures
            match r {
                Some(w) => id < store@.hooks.len() && resolved_target(store@.hooks[id as int])
                    == Some(w.kind()) && w.url_spec() == store@.hooks[id as int],
                None => id >= store@.hooks.len() || resolved_target(
                    store@.hooks[id as int],
                ) is None,
            },
    {
        if id < store.webhooks.len() {
            match webhook_from_url(store.webhooks[id].clone()) {
                Ok(w) => Some(w),
                Err(_) => None,
            }
        } else {
            None
        }
    }
}

} // verus!
