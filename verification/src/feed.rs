//! Feed kinds and feed items.
//!
//! A `FeedItem` is one well-formed entry of a remote feed: it always carries a
//! guid and a link. `RawEntry` is what a decoder hands back before the entries
//! lacking a guid or a link are dropped.
use vstd::prelude::*;

use crate::store::Store;

verus! {

/// The two supported feed formats.
#[derive(Clone, Copy, Debug, PartialEq, Eq, Structural)]
pub enum FeedKind {
    Rss,
    Atom,
}

/// One well-formed entry of a feed: guid and link are always present.
#[derive(Clone, Debug)]
pub struct FeedItem {
    pub guid: String,
    pub link: String,
    pub title: Option<String>,
    pub published_at: Option<String>,
}

/// The mathematical value of a `FeedItem`.
#[verifier::ext_equal]
pub struct FeedItemModel {
    pub guid: Seq<char>,
    pub link: Seq<char>,
    pub title: Option<Seq<char>>,
    pub published_at: Option<Seq<char>>,
}

/// A copy of an optional string whose value is known to be kept.
pub fn clone_opt_string(o: &Option<String>) -> (r: Option<String>)
    ensures
        r.deep_view() == o.deep_view(),
{
    match o {
        Some(s) => Some(s.clone()),
        None => None,
    }
}

impl FeedItem {
    /// A copy whose value is known to be kept.
    pub fn duplicate(&self) -> (r: FeedItem)
        ensures
            r@ == self@,
    {
        FeedItem {
            guid: self.guid.clone(),
            link: self.link.clone(),
            title: clone_opt_string(&self.title),
            published_at: clone_opt_string(&self.published_at),
        }
    }
}

impl FeedItem {
    /// Persist this item under the owning feed: insert-if-absent keyed by
    /// guid, so re-fetching a stored item is a no-op.
    pub fn save(&self, store: &mut Store, feed_id: usize)
        requires
            old(store)@.wf(),
            feed_id < old(store)@.feeds.len(),
        ensures
            final(store)@ == old(store)@.save_item_m(feed_id as int, self@),
            final(store)@.wf(),
    {
        store.save_item(feed_id, self)
    }

    /// The stored id of this item's guid, if present.
    pub fn id(&self, store: &Store) -> (r: Option<usize>)
        ensures
            match r {
                Some(i) => i < store@.items.len() && store@.items[i as int].item.guid
                    == self.guid@,
                None => !store@.has_guid(self.guid@),
            },
    {
        store.item_id(&self.guid)
    }
}

/// What the rss decoder yields on a document: its entries in order, or
/// nothing when the bytes are not an rss feed.
pub uninterp spec fn rss_parse(bytes: Seq<u8>) -> Option<Seq<RawEntryModel>>;

/// What the atom decoder yields on a document: its entries in order, or
/// nothing when the bytes are not an atom feed.
pub uninterp spec fn atom_parse(bytes: Seq<u8>) -> Option<Seq<RawEntryModel>>;

/// Relies on rss::Channel::read_from: decoding a feed document depends on
/// the bytes alone. Each decoded item's guid, link, title and publication
/// date are carried over as they stand.
#[verifier::external_body]
fn read_rss(bytes: &[u8]) -> (r: Option<Vec<RawEntry>>)
    ensures
        r is Some <==> rss_parse(bytes@) is Some,
        r matches Some(v) ==> rss_parse(bytes@) == Some(v.deep_view()),
{
    let channel = match rss::Channel::read_from(bytes) {
        Ok(c) => c,
        Err(_) => return None,
    };
    Some(channel.into_items().into_iter().map(|item| RawEntry {
        guid: item.guid().map(|g| g.value().to_string()),
        link: item.link().map(|s| s.to_string()),
        title: item.title().map(|s| s.to_string()),
        published_at: item.pub_date().map(|s| s.to_string()),
    }).collect())
}

/// Relies on atom_syndication::Feed::read_from: decoding depends on the
/// bytes alone. An entry's id and title are always present; its link is its
/// first link, if any; its date is the published field rendered as text.
#[verifier::external_body]
fn read_atom(bytes: &[u8]) -> (r: Option<Vec<RawEntry>>)
    ensures
        r is Some <==> atom_parse(bytes@) is Some,
        r matches Some(v) ==> atom_parse(bytes@) == Some(v.deep_view()),
{
    let feed = match atom_syndication::Feed::read_from(bytes) {
        Ok(f) => f,
        Err(_) => return None,
    };
    Some(feed.entries().iter().map(|entry| RawEntry {
        guid: Some(entry.id().to_string()),
        link: entry.links().first().map(|l| l.href().to_string()),
        title: Some(entry.title().value.clone()),
        published_at: entry.published().map(|d| d.to_string()),
    }).collect())
}

/// An entry is kept only when it has both a guid and a link.
pub open spec fn entry_ok(e: RawEntryModel) -> bool {
    e.guid is Some && e.link is Some
}

/// The well-formed items of a decoded batch, in order: entries lacking a
/// guid or a link are dropped, the rest keep their fields.
pub open spec fn valid_items_m(raw: Seq<RawEntryModel>) -> Seq<FeedItemModel> {
    raw.filter(|e: RawEntryModel| entry_ok(e)).map_values(
        |e: RawEntryModel| FeedItemModel {
            guid: e.guid.unwrap(),
            link: e.link.unwrap(),
            title: e.title,
            published_at: e.published_at,
        },
    )
}

/// Keep the well-formed entries of a decoded batch, dropping the rest.
pub fn valid_items(raw: &Vec<RawEntry>) -> (r: Vec<FeedItem>)
    ensures
        r.deep_view() == valid_items_m(raw.deep_view()),
{
    let mut r: Vec<FeedItem> = Vec::new();
    let mut k: usize = 0;
    while k < raw.len()
        invariant
            k <= raw.len(),
            r.deep_view() == valid_items_m(raw.deep_view().take(k as int)),
        decreases raw.len() - k,
    {
        let ghost prefix = raw.deep_view().take(k as int);
        let ghost prev = r.deep_view();
        let entry = &raw[k];
        match (&entry.guid, &entry.link) {
            (Some(g), Some(l)) => {
                r.push(
                    FeedItem {
                        guid: g.clone(),
                        link: l.clone(),
                        title: clone_opt_string(&entry.title),
                        published_at: clone_opt_string(&entry.published_at),
                    },
                );
            },
            _ => {},
        }
        proof {
            broadcast use Seq::lemma_filter_push;

            let e = raw.deep_view()[k as int];
            assert(raw.deep_view().take(k + 1 as int) =~= prefix.push(e));
            if entry_ok(e) {
                assert(valid_items_m(prefix.push(e)) =~= valid_items_m(prefix).push(
                    FeedItemModel {
                        guid: e.guid.unwrap(),
                        link: e.link.unwrap(),
                        title: e.title,
                        published_at: e.published_at,
                    },
                ));
                assert(r.deep_view() =~= prev.push(
                    FeedItemModel {
                        guid: e.guid.unwrap(),
                        link: e.link.unwrap(),
                        title: e.title,
                        published_at: e.published_at,
                    },
                ));
            } else {
                assert(valid_items_m(prefix.push(e)) =~= valid_items_m(prefix));
            }
        }
        k += 1;
    }
    proof {
        assert(raw.deep_view().take(raw.deep_view().len() as int) =~= raw.deep_view());
    }
    r
}

/// What decoding a document of the given kind yields.
pub open spec fn feed_parse(kind: FeedKind, bytes: Seq<u8>) -> Option<Seq<RawEntryModel>> {
    match kind {
        FeedKind::Rss => rss_parse(bytes),
        FeedKind::Atom => atom_parse(bytes),
    }
}

/// Decode one fetched rss document into its well-formed items.
pub fn decode_rss(bytes: &[u8]) -> (r: Result<Vec<FeedItem>, FeedError>)
    ensures
        r is Ok <==> rss_parse(bytes@) is Some,
        (r matches Ok(v) ==> v.deep_view() == valid_items_m(rss_parse(bytes@).unwrap())),
        (r matches Err(e) ==> e == FeedError::Parse),
{
    match read_rss(bytes) {
        Some(raw) => Ok(valid_items(&raw)),
        None => Err(FeedError::Parse),
    }
}

/// Decode one fetched atom document into its well-formed items.
pub fn decode_atom(bytes: &[u8]) -> (r: Result<Vec<FeedItem>, FeedError>)
    ensures
        r is Ok <==> atom_parse(bytes@) is Some,
        (r matches Ok(v) ==> v.deep_view() == valid_items_m(atom_parse(bytes@).unwrap())),
        (r matches Err(e) ==> e == FeedError::Parse),
{
    match read_atom(bytes) {
        Some(raw) => Ok(valid_items(&raw)),
        None => Err(FeedError::Parse),
    }
}

/// Store-backed access to persisted items.
#[derive(Debug)]
pub struct FeedItems {}

impl FeedItems {
    /// The stored item with this id.
    pub fn get(store: &Store, id: usize) -> (r: Option<FeedItem>)
        ensures
            match r {
                Some(it) => id < store@.items.len() && it@ == store@.items[id as int].item,
                None => id >= store@.items.len(),
            },
    {
        if id < store.items.len() {
            Some(store.items[id].item.duplicate())
        } else {
            None
        }
    }
}

/// An immutable description of one configured feed: its format, its url and
/// the targets its notifications go to.
#[derive(Clone, Debug)]
pub struct FeedDescriptor {
    pub kind: FeedKind,
    pub url: String,
    pub webhook_urls: Option<Vec<String>>,
}

/// The mathematical value of a `FeedDescriptor`.
#[verifier::ext_equal]
pub struct FeedDescriptorModel {
    pub kind: FeedKind,
    pub url: Seq<char>,
    pub webhook_urls: Option<Seq<Seq<char>>>,
}

impl View for FeedDescriptor {
    type V = FeedDescriptorModel;

    open spec fn view(&self) -> FeedDescriptorModel {
        FeedDescriptorModel {
            kind: self.kind,
            url: self.url@,
            webhook_urls: self.webhook_urls.deep_view(),
        }
    }
}

impl DeepView for FeedDescriptor {
    type V = FeedDescriptorModel;

    open spec fn deep_view(&self) -> FeedDescriptorModel {
        self.view()
    }
}

impl FeedDescriptor {
    /// Register this feed: insert-if-absent keyed by url; a fresh feed
    /// starts with its new-flag set.
    pub fn save(&self, store: &mut Store)
        requires
            old(store)@.wf(),
        ensures
            final(store)@ == old(store)@.save_feed_m(self.kind, self.url@),
            final(store)@.wf(),
    {
        store.save_feed(self.kind, &self.url)
    }

    /// This feed's stored id, if registered.
    pub fn id(&self, store: &Store) -> (r: Option<usize>)
        ensures
            match r {
                Some(i) => i < store@.feeds.len() && store@.feeds[i as int].url == self.url@,
                None => !store@.has_feed_url(self.url@),
            },
    {
        store.feed_id(&self.url)
    }

    /// This feed's new-flag, read through the store.
    pub fn is_new(&self, store: &Store) -> (r: Option<bool>)
        ensures
            match r {
                Some(b) => exists|i: int|
                    0 <= i < store@.feeds.len() && (#[trigger] store@.feeds[i]).url == self.url@
                        && store@.feeds[i].is_new == b,
                None => !store@.has_feed_url(self.url@),
            },
    {
        match store.feed_id(&self.url) {
            Some(i) => store.feed_is_new(i),
            None => None,
        }
    }

    /// Decode one fetched document of this feed's format into its
    /// well-formed items. A document that does not decode is a parse error,
    /// non-fatal to the cycle.
    pub fn decode(&self, bytes: &[u8]) -> (r: Result<Vec<FeedItem>, FeedError>)
        ensures
            r is Ok <==> feed_parse(self.kind, bytes@) is Some,
            (r matches Ok(v) ==> v.deep_view() == valid_items_m(
                feed_parse(self.kind, bytes@).unwrap(),
            )),
            (r matches Err(e) ==> e == FeedError::Parse),
    {
        match self.kind {
            FeedKind::Rss => decode_rss(bytes),
            FeedKind::Atom => decode_atom(bytes),
        }
    }
}

impl View for FeedItem {
    type V = FeedItemModel;

    open spec fn view(&self) -> FeedItemModel {
        FeedItemModel {
            guid: self.guid@,
            link: self.link@,
            title: self.title.deep_view(),
            published_at: self.published_at.deep_view(),
        }
    }
}

impl DeepView for FeedItem {
    type V = FeedItemModel;

    open spec fn deep_view(&self) -> FeedItemModel {
        self.view()
    }
}

/// Why a feed contributed nothing this cycle. Both are non-fatal: the feed
/// is skipped and the cycle goes on.
#[derive(Clone, Copy, Debug, PartialEq, Eq, Structural)]
pub enum FeedError {
    /// The document could not be fetched.
    Network,
    /// The document could not be decoded as a feed.
    Parse,
}

/// One entry as a decoder returns it; guid or link may be missing.
#[derive(Clone, Debug)]
pub struct RawEntry {
    pub guid: Option<String>,
    pub link: Option<String>,
    pub title: Option<String>,
    pub published_at: Option<String>,
}

/// The mathematical value of a `RawEntry`.
#[verifier::ext_equal]
pub struct RawEntryModel {
    pub guid: Option<Seq<char>>,
    pub link: Option<Seq<char>>,
    pub title: Option<Seq<char>>,
    pub published_at: Option<Seq<char>>,
}

impl View for RawEntry {
    type V = RawEntryModel;

    open spec fn view(&self) -> RawEntryModel {
        RawEntryModel {
            guid: self.guid.deep_view(),
            link: self.link.deep_view(),
            title: self.title.deep_view(),
            published_at: self.published_at.deep_view(),
        }
    }
}

impl DeepView for RawEntry {
    type V = RawEntryModel;

    open spec fn deep_view(&self) -> RawEntryModel {
        self.view()
    }
}

} // verus!
