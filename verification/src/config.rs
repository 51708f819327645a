//! Configuration surface and its validation.
//!
//! A configuration names feeds and default webhook targets. An unknown feed
//! kind or an unrecognised target url is a `ConfigError`: fatal at startup,
//! before any cycle runs.
use vstd::prelude::*;

use crate::feed::{FeedDescriptor, FeedKind};
use crate::webhook::{resolved_target, webhook_from_url, Webhook};

verus! {

/// One configured feed: its kind ("rss" or "atom"), its url, and its own
/// webhook targets, if it overrides the global default.
#[derive(Clone, Debug)]
pub struct FeedConfig {
    pub kind: String,
    pub url: String,
    pub webhook_urls: Option<Vec<String>>,
}

/// The mathematical value of a `FeedConfig`.
#[verifier::ext_equal]
pub struct FeedConfigModel {
    pub kind: Seq<char>,
    pub url: Seq<char>,
    pub webhook_urls: Option<Seq<Seq<char>>>,
}

impl View for FeedConfig {
    type V = FeedConfigModel;

    open spec fn view(&self) -> FeedConfigModel {
        FeedConfigModel {
            kind: self.kind@,
            url: self.url@,
            webhook_urls: self.webhook_urls.deep_view(),
        }
    }
}

impl DeepView for FeedConfig {
    type V = FeedConfigModel;

    open spec fn deep_view(&self) -> FeedConfigModel {
        self.view()
    }
}

/// The whole configuration: the feeds, the polling switches, and the
/// default webhook targets for feeds that name none of their own.
#[derive(Clone, Debug)]
pub struct Config {
    pub feeds: Vec<FeedConfig>,
    pub poll: Option<bool>,
    pub poll_sleep_dur: Option<u64>,
    pub webhook_urls: Option<Vec<String>>,
}

/// The mathematical value of a `Config`.
#[verifier::ext_equal]
pub struct ConfigModel {
    pub feeds: Seq<FeedConfigModel>,
    pub poll: Option<bool>,
    pub poll_sleep_dur: Option<u64>,
    pub webhook_urls: Option<Seq<Seq<char>>>,
}

impl View for Config {
    type V = ConfigModel;

    open spec fn view(&self) -> ConfigModel {
        ConfigModel {
            feeds: self.feeds.deep_view(),
            poll: self.poll,
            poll_sleep_dur: self.poll_sleep_dur,
            webhook_urls: self.webhook_urls.deep_view(),
        }
    }
}

impl Config {
    /// Whether the loop repeats after the first cycle; on by default.
    pub fn poll_enabled(&self) -> (r: bool)
        ensures
            r == match self@.poll {
                Some(b) => b,
                None => true,
            },
    {
        match self.poll {
            Some(b) => b,
            None => true,
        }
    }

    /// How long the loop sleeps between cycles, in seconds; 600 by default.
    pub fn poll_sleep_secs(&self) -> (r: u64)
        ensures
            r == match self@.poll_sleep_dur {
                Some(d) => d,
                None => 600u64,
            },
    {
        match self.poll_sleep_dur {
            Some(d) => d,
            None => 600,
        }
    }
}

/// An unrecoverable configuration fault, found before any work begins.
#[derive(Clone, Debug)]
pub enum ConfigError {
    /// A feed names a kind other than rss or atom.
    UnknownFeedKind { kind: String, url: String },
    /// A target url matches no known webhook service and is not the discard
    /// sentinel.
    UnknownTarget { url: String },
}

impl ConfigError {
    /// The fault, spelled out for a log line.
    pub fn message(&self) -> (r: String)
        ensures
            (self matches ConfigError::UnknownFeedKind { kind, url } ==> r@ == "unknown feed kind '"@
                + kind@ + "' for feed '"@ + url@ + "'"@),
            (self matches ConfigError::UnknownTarget { url } ==> r@ == "unknown webhook target: '"@
                + url@ + "'"@),
    {
        match self {
            ConfigError::UnknownFeedKind { kind, url } => {
                let mut r = String::from_str("unknown feed kind '");
                r.append(kind.as_str());
                r.append("' for feed '");
                r.append(url.as_str());
                r.append("'");
                r
            },
            ConfigError::UnknownTarget { url } => {
                let mut r = String::from_str("unknown webhook target: '");
                r.append(url.as_str());
                r.append("'");
                r
            },
        }
    }
}

/// The feed format a configured kind string names, if any.
pub open spec fn feed_kind_of(kind: Seq<char>) -> Option<FeedKind> {
    if kind == "rss"@ {
        Some(FeedKind::Rss)
    } else if kind == "atom"@ {
        Some(FeedKind::Atom)
    } else {
        None
    }
}

/// A copy of a string vector whose value is known to be kept.
fn clone_string_vec(v: &Vec<String>) -> (r: Vec<String>)
    ensures
        r.deep_view() == v.deep_view(),
{
    let mut r: Vec<String> = Vec::new();
    let mut k: usize = 0;
    while k < v.len()
        invariant
            k <= v.len(),
            r.deep_view() == v.deep_view().take(k as int),
        decreases v.len() - k,
    {
        let ghost prev = r.deep_view();
        r.push(v[k].clone());
        proof {
            assert(v.deep_view().take(k + 1 as int) =~= v.deep_view().take(k as int).push(
                v.deep_view()[k as int],
            ));
            assert(r.deep_view() =~= prev.push(v.deep_view()[k as int]));
        }
        k += 1;
    }
    proof {
        assert(v.deep_view().take(v.deep_view().len() as int) =~= v.deep_view());
    }
    r
}

/// A copy of an optional string vector whose value is known to be kept.
pub fn clone_url_list(o: &Option<Vec<String>>) -> (r: Option<Vec<String>>)
    ensures
        r.deep_view() == o.deep_view(),
{
    match o {
        Some(v) => Some(clone_string_vec(v)),
        None => None,
    }
}

/// The targets a feed's notifications go to: its own list when it has one,
/// else the global default.
pub open spec fn effective_urls_m(
    feed: Option<Seq<Seq<char>>>,
    default: Option<Seq<Seq<char>>>,
) -> Option<Seq<Seq<char>>> {
    match feed {
        Some(u) => Some(u),
        None => default,
    }
}

/// Pick a feed's effective webhook urls: its own list when it has one, else
/// the global default.
pub fn effective_webhook_urls(feed: &FeedConfig, default: &Option<Vec<String>>) -> (r: Option<
    Vec<String>,
>)
    ensures
        r.deep_view() == effective_urls_m(feed@.webhook_urls, default.deep_view()),
{
    match &feed.webhook_urls {
        Some(v) => Some(clone_string_vec(v)),
        None => clone_url_list(default),
    }
}

/// Build the descriptor for one configured feed. A kind other than "rss" or
/// "atom" is an unrecoverable configuration error naming that feed.
pub fn feed_from_config(kind: &String, url: &String, webhook_urls: Option<Vec<String>>) -> (r:
    Result<FeedDescriptor, ConfigError>)
    ensures
        match feed_kind_of(kind@) {
            Some(k) => (r matches Ok(d) && d.kind == k && d.url@ == url@ && d.webhook_urls
                == webhook_urls),
            None => (r matches Err(e) && e matches ConfigError::UnknownFeedKind {
                kind: ek,
                url: eu,
            } && ek@ == kind@ && eu@ == url@),
        },
{
    if *kind == String::from_str("rss") {
        Ok(FeedDescriptor { kind: FeedKind::Rss, url: url.clone(), webhook_urls })
    } else if *kind == String::from_str("atom") {
        Ok(FeedDescriptor { kind: FeedKind::Atom, url: url.clone(), webhook_urls })
    } else {
        Err(ConfigError::UnknownFeedKind { kind: kind.clone(), url: url.clone() })
    }
}

/// One feed ready to run: its descriptor (with effective targets) and those
/// targets resolved to their variants.
#[derive(Clone, Debug)]
pub struct ResolvedFeed {
    pub descriptor: FeedDescriptor,
    pub hooks: Vec<Webhook>,
}

/// The mathematical value of a `ResolvedFeed`: its format, its url, and the
/// urls its notifications go to.
#[verifier::ext_equal]
pub struct ResolvedFeedModel {
    pub kind: FeedKind,
    pub url: Seq<char>,
    pub hook_urls: Seq<Seq<char>>,
}

impl View for ResolvedFeed {
    type V = ResolvedFeedModel;

    open spec fn view(&self) -> ResolvedFeedModel {
        ResolvedFeedModel {
            kind: self.descriptor.kind,
            url: self.descriptor.url@,
            hook_urls: hook_urls_m(self.hooks@),
        }
    }
}

impl DeepView for ResolvedFeed {
    type V = ResolvedFeedModel;

    open spec fn deep_view(&self) -> ResolvedFeedModel {
        self.view()
    }
}

/// Whether one configured feed passes validation against a default target
/// list: its kind is known and each of its effective targets resolves.
pub open spec fn feed_config_ok(f: FeedConfigModel, default: Option<Seq<Seq<char>>>) -> bool {
    &&& feed_kind_of(f.kind) is Some
    &&& match effective_urls_m(f.webhook_urls, default) {
        Some(urls) => forall|j: int|
            0 <= j < urls.len() ==> resolved_target(#[trigger] urls[j]) is Some,
        None => true,
    }
}

/// The url list a resolved feed's hooks stand for.
pub open spec fn hook_urls_m(hooks: Seq<Webhook>) -> Seq<Seq<char>> {
    hooks.map_values(|w: Webhook| w.url_spec())
}

/// Whether a resolved feed faithfully stands for a configured one.
pub open spec fn resolves_feed(
    r: ResolvedFeed,
    f: FeedConfigModel,
    default: Option<Seq<Seq<char>>>,
) -> bool {
    &&& Some(r.descriptor.kind) == feed_kind_of(f.kind)
    &&& r.descriptor.url@ == f.url
    &&& r.descriptor.webhook_urls.deep_view() == effective_urls_m(f.webhook_urls, default)
    &&& hook_urls_m(r.hooks@) == match effective_urls_m(f.webhook_urls, default) {
        Some(urls) => urls,
        None => Seq::<Seq<char>>::empty(),
    }
    &&& forall|j: int|
        0 <= j < r.hooks@.len() ==> Some((#[trigger] r.hooks@[j]).kind()) == resolved_target(
            r.hooks@[j].url_spec(),
        )
}

/// Resolve one feed's targets into webhook variants. The first target that
/// resolves to nothing is an unrecoverable configuration error.
fn resolve_targets(urls: &Option<Vec<String>>) -> (r: Result<Vec<Webhook>, ConfigError>)
    ensures
        match r {
            Ok(hooks) => {
                &&& (match urls.deep_view() {
                    Some(us) => hook_urls_m(hooks@) == us,
                    None => hook_urls_m(hooks@) == Seq::<Seq<char>>::empty(),
                })
                &&& (forall|j: int|
                    0 <= j < hooks@.len() ==> Some((#[trigger] hooks@[j]).kind())
                        == resolved_target(hooks@[j].url_spec()))
                &&& (match urls.deep_view() {
                    Some(us) => forall|j: int|
                        0 <= j < us.len() ==> resolved_target(#[trigger] us[j]) is Some,
                    None => true,
                })
            },
            Err(e) => {
                &&& urls.deep_view() matches Some(us)
                &&& exists|j: int|
                    0 <= j < us.len() && resolved_target(#[trigger] us[j]) is None
                &&& (e matches ConfigError::UnknownTarget { url } && resolved_target(url@) is None)
            },
        },
{
    let mut hooks: Vec<Webhook> = Vec::new();
    let us = match urls {
        Some(us) => us,
        None => {
            proof {
                assert(hook_urls_m(hooks@) =~= Seq::<Seq<char>>::empty());
            }
            return Ok(hooks);
        },
    };
    let mut k: usize = 0;
    while k < us.len()
        invariant
            k <= us.len(),
            urls.deep_view() == Some(us.deep_view()),
            hook_urls_m(hooks@) =~= us.deep_view().take(k as int),
            forall|j: int|
                0 <= j < hooks@.len() ==> Some((#[trigger] hooks@[j]).kind()) == resolved_target(
                    hooks@[j].url_spec(),
                ),
            forall|j: int|
                0 <= j < k ==> resolved_target(#[trigger] us.deep_view()[j]) is Some,
        decreases us.len() - k,
    {
        let ghost prev = hooks@;
        match webhook_from_url(us[k].clone()) {
            Ok(w) => {
                hooks.push(w);
                proof {
                    assert(hook_urls_m(hooks@) =~= hook_urls_m(prev).push(
                        hooks@[hooks@.len() - 1].url_spec(),
                    ));
                    assert(us.deep_view().take(k + 1 as int) =~= us.deep_view().take(
                        k as int,
                    ).push(us.deep_view()[k as int]));
                }
            },
            Err(e) => {
                proof {
                    assert(urls.deep_view() == Some(us.deep_view()));
                    assert(us.deep_view()[k as int] == us@[k as int]@);
                    assert(resolved_target(us.deep_view()[k as int]) is None);
                }
                return Err(e);
            },
        }
        k += 1;
    }
    proof {
        assert(us.deep_view().take(us.deep_view().len() as int) =~= us.deep_view());
    }
    Ok(hooks)
}

/// Validate the whole configuration and resolve every feed, in order. Any
/// unknown feed kind or unrecognised target is an unrecoverable
/// configuration error, found before any cycle runs.
pub fn validate_config(config: &Config) -> (r: Result<Vec<ResolvedFeed>, ConfigError>)
    ensures
        (r is Ok <==> forall|i: int|
            0 <= i < config@.feeds.len() ==> feed_config_ok(
                #[trigger] config@.feeds[i],
                config@.webhook_urls,
            )),
        (r matches Ok(v) ==> v@.len() == config@.feeds.len() && forall|i: int|
            0 <= i < v@.len() ==> resolves_feed(
                #[trigger] v@[i],
                config@.feeds[i],
                config@.webhook_urls,
            )),
        (r matches Err(e) ==> match e {
            ConfigError::UnknownFeedKind { kind, url } => feed_kind_of(kind@) is None
                && exists|i: int|
                0 <= i < config@.feeds.len() && (#[trigger] config@.feeds[i]).kind == kind@
                    && config@.feeds[i].url == url@,
            ConfigError::UnknownTarget { url } => resolved_target(url@) is None,
        }),
{
    let mut out: Vec<ResolvedFeed> = Vec::new();
    let mut k: usize = 0;
    while k < config.feeds.len()
        invariant
            k <= config.feeds.len(),
            out@.len() == k,
            forall|i: int|
                0 <= i < k ==> feed_config_ok(#[trigger] config@.feeds[i], config@.webhook_urls),
            forall|i: int|
                0 <= i < k ==> resolves_feed(
                    #[trigger] out@[i],
                    config@.feeds[i],
                    config@.webhook_urls,
                ),
        decreases config.feeds.len() - k,
    {
        let feed = &config.feeds[k];
        proof {
            assert(feed@ == config@.feeds[k as int]);
        }
        let urls = effective_webhook_urls(feed, &config.webhook_urls);
        let hooks = match resolve_targets(&urls) {
            Ok(h) => h,
            Err(e) => {
                proof {
                    assert(!feed_config_ok(config@.feeds[k as int], config@.webhook_urls));
                }
                return Err(e);
            },
        };
        let descriptor = match feed_from_config(&feed.kind, &feed.url, urls) {
            Ok(d) => d,
            Err(e) => {
                proof {
                    assert(feed_kind_of(config@.feeds[k as int].kind) is None);
                    assert(!feed_config_ok(config@.feeds[k as int], config@.webhook_urls));
                }
                return Err(e);
            },
        };
        out.push(ResolvedFeed { descriptor, hooks });
        k += 1;
    }
    Ok(out)
}

} // verus!
