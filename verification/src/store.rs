//! The durable store, modelled as four tables.
//!
//! `Store` is the authority for what has been seen and what still needs
//! delivery: feeds (keyed by url), feed items (keyed by guid), webhook
//! targets (keyed by url) and notifications (keyed by the item/target pair).
//! Every write is an insert-if-absent or a field update, so re-running any
//! step is harmless; `StoreModel` gives the mathematical value of the tables
//! and each operation's contract says exactly which model transition it makes.
use vstd::prelude::*;

use crate::feed::{FeedItem, FeedItemModel, FeedKind};

verus! {

/// One row of the feeds table; its id is its index.
#[derive(Clone, Debug)]
pub struct FeedRow {
    pub kind: FeedKind,
    pub url: String,
    pub is_new: bool,
}

/// The mathematical value of a `FeedRow`.
#[verifier::ext_equal]
pub struct FeedModel {
    pub kind: FeedKind,
    pub url: Seq<char>,
    pub is_new: bool,
}

impl View for FeedRow {
    type V = FeedModel;

    open spec fn view(&self) -> FeedModel {
        FeedModel { kind: self.kind, url: self.url@, is_new: self.is_new }
    }
}

impl DeepView for FeedRow {
    type V = FeedModel;

    open spec fn deep_view(&self) -> FeedModel {
        self.view()
    }
}

/// One row of the feed items table; its id is its index.
#[derive(Clone, Debug)]
pub struct ItemRow {
    pub feed_id: usize,
    pub item: FeedItem,
}

/// The mathematical value of an `ItemRow`.
#[verifier::ext_equal]
pub struct ItemModel {
    pub feed_id: int,
    pub item: FeedItemModel,
}

impl View for ItemRow {
    type V = ItemModel;

    open spec fn view(&self) -> ItemModel {
        ItemModel { feed_id: self.feed_id as int, item: self.item@ }
    }
}

impl DeepView for ItemRow {
    type V = ItemModel;

    open spec fn deep_view(&self) -> ItemModel {
        self.view()
    }
}

/// One row of the notifications table: the durable intent to deliver one
/// item to one target, with its sent flag and delivery timestamp.
#[derive(Clone, Debug)]
pub struct NotificationRow {
    pub feed_item_id: usize,
    pub webhook_id: usize,
    pub sent: bool,
    pub sent_at: Option<u64>,
}

/// The mathematical value of a `NotificationRow`.
#[verifier::ext_equal]
pub struct NoteModel {
    pub feed_item_id: int,
    pub webhook_id: int,
    pub sent: bool,
    pub sent_at: Option<u64>,
}

impl View for NotificationRow {
    type V = NoteModel;

    open spec fn view(&self) -> NoteModel {
        NoteModel {
            feed_item_id: self.feed_item_id as int,
            webhook_id: self.webhook_id as int,
            sent: self.sent,
            sent_at: self.sent_at,
        }
    }
}

impl DeepView for NotificationRow {
    type V = NoteModel;

    open spec fn deep_view(&self) -> NoteModel {
        self.view()
    }
}

/// The mathematical value of the whole store.
#[verifier::ext_equal]
pub struct StoreModel {
    pub feeds: Seq<FeedModel>,
    pub items: Seq<ItemModel>,
    pub hooks: Seq<Seq<char>>,
    pub notes: Seq<NoteModel>,
}

impl StoreModel {
    /// Some feed row holds this url.
    pub open spec fn has_feed_url(self, url: Seq<char>) -> bool {
        exists|i: int| 0 <= i < self.feeds.len() && #[trigger] self.feeds[i].url == url
    }

    /// Some item row holds this guid.
    pub open spec fn has_guid(self, guid: Seq<char>) -> bool {
        exists|i: int| 0 <= i < self.items.len() && #[trigger] self.items[i].item.guid == guid
    }

    /// Some target row holds this url.
    pub open spec fn has_hook_url(self, url: Seq<char>) -> bool {
        exists|i: int| 0 <= i < self.hooks.len() && #[trigger] self.hooks[i] == url
    }

    /// Some notification row holds this item/target pair.
    pub open spec fn has_pair(self, item_id: int, hook_id: int) -> bool {
        exists|k: int|
            0 <= k < self.notes.len() && (#[trigger] self.notes[k]).feed_item_id == item_id
                && self.notes[k].webhook_id == hook_id
    }

    /// Every key occurs at most once and every reference stays in range.
    pub open spec fn wf(self) -> bool {
        &&& forall|i: int, j: int|
            #![trigger self.feeds[i], self.feeds[j]]
            0 <= i < j < self.feeds.len() ==> self.feeds[i].url != self.feeds[j].url
        &&& forall|i: int, j: int|
            #![trigger self.items[i], self.items[j]]
            0 <= i < j < self.items.len() ==> self.items[i].item.guid != self.items[j].item.guid
        &&& forall|i: int, j: int|
            #![trigger self.hooks[i], self.hooks[j]]
            0 <= i < j < self.hooks.len() ==> self.hooks[i] != self.hooks[j]
        &&& forall|i: int, j: int|
            #![trigger self.notes[i], self.notes[j]]
            0 <= i < j < self.notes.len() ==> !(self.notes[i].feed_item_id
                == self.notes[j].feed_item_id && self.notes[i].webhook_id
                == self.notes[j].webhook_id)
        &&& forall|k: int|
            0 <= k < self.items.len() ==> (#[trigger] self.items[k]).feed_id < self.feeds.len()
        &&& forall|k: int|
            0 <= k < self.notes.len() ==> (#[trigger] self.notes[k]).feed_item_id
                < self.items.len() && self.notes[k].webhook_id < self.hooks.len()
    }

    /// Register a feed: insert-if-absent keyed by url, new feeds start new.
    pub open spec fn save_feed_m(self, kind: FeedKind, url: Seq<char>) -> StoreModel {
        if self.has_feed_url(url) {
            self
        } else {
            StoreModel {
                feeds: self.feeds.push(FeedModel { kind, url, is_new: true }),
                ..self
            }
        }
    }

    /// Write one feed's new-flag; out-of-range ids change nothing.
    pub open spec fn set_is_new_m(self, feed_id: int, is_new: bool) -> StoreModel {
        if 0 <= feed_id < self.feeds.len() {
            StoreModel {
                feeds: self.feeds.update(feed_id, FeedModel { is_new, ..self.feeds[feed_id] }),
                ..self
            }
        } else {
            self
        }
    }

    /// Persist an item: insert-if-absent keyed by guid.
    pub open spec fn save_item_m(self, feed_id: int, item: FeedItemModel) -> StoreModel {
        if self.has_guid(item.guid) {
            self
        } else {
            StoreModel { items: self.items.push(ItemModel { feed_id, item }), ..self }
        }
    }

    /// Register a target: insert-if-absent keyed by url.
    pub open spec fn save_hook_m(self, url: Seq<char>) -> StoreModel {
        if self.has_hook_url(url) {
            self
        } else {
            StoreModel { hooks: self.hooks.push(url), ..self }
        }
    }

    /// Enqueue a notification: insert-if-absent keyed by the pair, with the
    /// given preset sent flag and no timestamp.
    pub open spec fn enqueue_m(self, item_id: int, hook_id: int, sent: bool) -> StoreModel {
        if self.has_pair(item_id, hook_id) {
            self
        } else {
            StoreModel {
                notes: self.notes.push(
                    NoteModel { feed_item_id: item_id, webhook_id: hook_id, sent, sent_at: None },
                ),
                ..self
            }
        }
    }

    /// Mark the pair's notification sent at the given time.
    pub open spec fn mark_sent_m(self, item_id: int, hook_id: int, now: u64) -> StoreModel {
        StoreModel {
            notes: self.notes.map(
                |k: int, n: NoteModel|
                    if n.feed_item_id == item_id && n.webhook_id == hook_id {
                        NoteModel { sent: true, sent_at: Some(now), ..n }
                    } else {
                        n
                    },
            ),
            ..self
        }
    }

    /// Clear every feed's new-flag.
    pub open spec fn clear_new_m(self) -> StoreModel {
        StoreModel {
            feeds: self.feeds.map(|k: int, f: FeedModel| FeedModel { is_new: false, ..f }),
            ..self
        }
    }

    /// The unsent notifications, in table order.
    pub open spec fn unsent_m(self) -> Seq<NoteModel> {
        self.notes.filter(|n: NoteModel| !n.sent)
    }
}

/// The durable store: feeds, items, targets and the notification queue.
#[derive(Clone, Debug)]
pub struct Store {
    pub feeds: Vec<FeedRow>,
    pub items: Vec<ItemRow>,
    pub webhooks: Vec<String>,
    pub notifications: Vec<NotificationRow>,
}

impl View for Store {
    type V = StoreModel;

    open spec fn view(&self) -> StoreModel {
        StoreModel {
            feeds: self.feeds.deep_view(),
            items: self.items.deep_view(),
            hooks: self.webhooks.deep_view(),
            notes: self.notifications.deep_view(),
        }
    }
}

impl Store {
    /// An empty store.
    pub fn new() -> (r: Store)
        ensures
            r@ == (StoreModel {
                feeds: Seq::<FeedModel>::empty(),
                items: Seq::<ItemModel>::empty(),
                hooks: Seq::<Seq<char>>::empty(),
                notes: Seq::<NoteModel>::empty(),
            }),
            r@.wf(),
    {
        let r = Store { feeds: Vec::new(), items: Vec::new(), webhooks: Vec::new(), notifications: Vec::new() };
        proof {
            assert(r@.feeds =~= Seq::<FeedModel>::empty());
            assert(r@.items =~= Seq::<ItemModel>::empty());
            assert(r@.hooks =~= Seq::<Seq<char>>::empty());
            assert(r@.notes =~= Seq::<NoteModel>::empty());
        }
        r
    }

    /// The id of the feed with this url, if registered.
    pub fn feed_id(&self, url: &String) -> (r: Option<usize>)
        ensures
            match r {
                Some(i) => i < self@.feeds.len() && self@.feeds[i as int].url == url@,
                None => !self@.has_feed_url(url@),
            },
    {
        let mut k: usize = 0;
        while k < self.feeds.len()
            invariant
                k <= self.feeds.len(),
                forall|j: int| 0 <= j < k ==> (#[trigger] self@.feeds[j]).url != url@,
            decreases self.feeds.len() - k,
        {
            if self.feeds[k].url == *url {
                return Some(k);
            }
            k += 1;
        }
        None
    }

    /// Register a feed: insert-if-absent keyed by url; a fresh feed starts
    /// with its new-flag set.
    pub fn save_feed(&mut self, kind: FeedKind, url: &String)
        requires
            old(self)@.wf(),
        ensures
            final(self)@ == old(self)@.save_feed_m(kind, url@),
            final(self)@.wf(),
    {
        let ghost m0 = self@;
        if self.feed_id(url).is_none() {
            self.feeds.push(FeedRow { kind, url: url.clone(), is_new: true });
            proof {
                assert(self@.feeds =~= m0.feeds.push(FeedModel { kind, url: url@, is_new: true }));
                assert(self@.items =~= m0.items);
                assert(self@.hooks =~= m0.hooks);
                assert(self@.notes =~= m0.notes);
                assert(self@ =~= m0.save_feed_m(kind, url@));
            }
        }
    }

    /// Read one feed's new-flag.
    pub fn feed_is_new(&self, feed_id: usize) -> (r: Option<bool>)
        ensures
            r == if feed_id < self@.feeds.len() {
                Some(self@.feeds[feed_id as int].is_new)
            } else {
                Option::<bool>::None
            },
    {
        if feed_id < self.feeds.len() {
            Some(self.feeds[feed_id].is_new)
        } else {
            None
        }
    }

    /// The id of the stored item with this guid, if present.
    pub fn item_id(&self, guid: &String) -> (r: Option<usize>)
        ensures
            match r {
                Some(i) => i < self@.items.len() && self@.items[i as int].item.guid == guid@,
                None => !self@.has_guid(guid@),
            },
    {
        let mut k: usize = 0;
        while k < self.items.len()
            invariant
                k <= self.items.len(),
                forall|j: int| 0 <= j < k ==> (#[trigger] self@.items[j]).item.guid != guid@,
            decreases self.items.len() - k,
        {
            if self.items[k].item.guid == *guid {
                return Some(k);
            }
            k += 1;
        }
        None
    }

    /// Persist an item: insert-if-absent keyed by guid. Re-saving a guid
    /// already stored is a no-op, whichever feed offers it.
    pub fn save_item(&mut self, feed_id: usize, item: &FeedItem)
        requires
            old(self)@.wf(),
            feed_id < old(self)@.feeds.len(),
        ensures
            final(self)@ == old(self)@.save_item_m(feed_id as int, item@),
            final(self)@.wf(),
    {
        let ghost m0 = self@;
        if self.item_id(&item.guid).is_none() {
            self.items.push(ItemRow { feed_id, item: item.duplicate() });
            proof {
                assert(self@.items =~= m0.items.push(ItemModel { feed_id: feed_id as int, item: item@ }));
                assert(self@.feeds =~= m0.feeds);
                assert(self@.hooks =~= m0.hooks);
                assert(self@.notes =~= m0.notes);
                assert(self@ =~= m0.save_item_m(feed_id as int, item@));
            }
        }
    }

    /// The id of the target with this url, if registered.
    pub fn webhook_id(&self, url: &String) -> (r: Option<usize>)
        ensures
            match r {
                Some(i) => i < self@.hooks.len() && self@.hooks[i as int] == url@,
                None => !self@.has_hook_url(url@),
            },
    {
        let mut k: usize = 0;
        while k < self.webhooks.len()
            invariant
                k <= self.webhooks.len(),
                forall|j: int| 0 <= j < k ==> #[trigger] self@.hooks[j] != url@,
            decreases self.webhooks.len() - k,
        {
            if self.webhooks[k] == *url {
                return Some(k);
            }
            k += 1;
        }
        None
    }

    /// Register a target url: insert-if-absent keyed by url, then resolve
    /// its id.
    pub fn save_webhook(&mut self, url: &String) -> (id: usize)
        requires
            old(self)@.wf(),
        ensures
            final(self)@ == old(self)@.save_hook_m(url@),
            final(self)@.wf(),
            id < final(self)@.hooks.len(),
            final(self)@.hooks[id as int] == url@,
    {
        let ghost m0 = self@;
        match self.webhook_id(url) {
            Some(id) => id,
            None => {
                self.webhooks.push(url.clone());
                proof {
                    assert(self@.hooks =~= m0.hooks.push(url@));
                    assert(self@.feeds =~= m0.feeds);
                    assert(self@.items =~= m0.items);
                    assert(self@.notes =~= m0.notes);
                    assert(self@ =~= m0.save_hook_m(url@));
                }
                self.webhooks.len() - 1
            },
        }
    }

    /// Enqueue a notification: insert-if-absent keyed by the item/target
    /// pair. A pair already present keeps its flag and timestamp.
    pub fn save_notification(&mut self, item_id: usize, hook_id: usize, sent: bool)
        requires
            old(self)@.wf(),
            item_id < old(self)@.items.len(),
            hook_id < old(self)@.hooks.len(),
        ensures
            final(self)@ == old(self)@.enqueue_m(item_id as int, hook_id as int, sent),
            final(self)@.wf(),
    {
        let ghost m0 = self@;
        let mut k: usize = 0;
        while k < self.notifications.len()
            invariant
                k <= self.notifications.len(),
                self@ == m0,
                m0.wf(),
                forall|j: int|
                    0 <= j < k ==> !((#[trigger] self@.notes[j]).feed_item_id == item_id
                        && self@.notes[j].webhook_id == hook_id as int),
            decreases self.notifications.len() - k,
        {
            if self.notifications[k].feed_item_id == item_id
                && self.notifications[k].webhook_id == hook_id {
                proof {
                    assert(0 <= k < m0.notes.len() && m0.notes[k as int].feed_item_id
                        == item_id as int && m0.notes[k as int].webhook_id == hook_id as int);
                    assert(m0.has_pair(item_id as int, hook_id as int));
                }
                return ;
            }
            k += 1;
        }
        self.notifications.push(
            NotificationRow { feed_item_id: item_id, webhook_id: hook_id, sent, sent_at: None },
        );
        proof {
            assert(self@.notes =~= m0.notes.push(
                NoteModel {
                    feed_item_id: item_id as int,
                    webhook_id: hook_id as int,
                    sent,
                    sent_at: None,
                },
            ));
            assert(self@.feeds =~= m0.feeds);
            assert(self@.items =~= m0.items);
            assert(self@.hooks =~= m0.hooks);
            assert(self@ =~= m0.enqueue_m(item_id as int, hook_id as int, sent));
        }
    }

    /// Mark the pair's notification sent at the given time. Without the
    /// pair, nothing changes.
    pub fn mark_sent(&mut self, item_id: usize, hook_id: usize, now: u64)
        requires
            old(self)@.wf(),
        ensures
            final(self)@ == old(self)@.mark_sent_m(item_id as int, hook_id as int, now),
            final(self)@.wf(),
    {
        let ghost m0 = self@;
        let mut k: usize = 0;
        while k < self.notifications.len()
            invariant
                k <= self.notifications.len(),
                self@.feeds == m0.feeds,
                self@.items == m0.items,
                self@.hooks == m0.hooks,
                self@.notes.len() == m0.notes.len(),
                forall|j: int|
                    k <= j < m0.notes.len() ==> #[trigger] self@.notes[j] == m0.notes[j],
                forall|j: int|
                    0 <= j < k ==> #[trigger] self@.notes[j] == (if m0.notes[j].feed_item_id
                        == item_id as int && m0.notes[j].webhook_id == hook_id as int {
                        NoteModel { sent: true, sent_at: Some(now), ..m0.notes[j] }
                    } else {
                        m0.notes[j]
                    }),
            decreases self.notifications.len() - k,
        {
            let ghost prev = self@.notes;
            let ghost pvec = self.notifications@;
            if self.notifications[k].feed_item_id == item_id
                && self.notifications[k].webhook_id == hook_id {
                self.notifications[k].sent = true;
                self.notifications[k].sent_at = Some(now);
                proof {
                    assert forall|j: int| 0 <= j < prev.len() && j != k implies #[trigger] self@
                        .notes[j] == prev[j] by {
                        assert(self.notifications@[j] == pvec[j]);
                    }
                    assert(self@.notes[k as int] == (NoteModel {
                        sent: true,
                        sent_at: Some(now),
                        ..prev[k as int]
                    }));
                }
            }
            k += 1;
        }
        proof {
            assert(self@.notes =~= m0.mark_sent_m(item_id as int, hook_id as int, now).notes);
            assert(self@ =~= m0.mark_sent_m(item_id as int, hook_id as int, now));
        }
    }

    /// Write one feed's new-flag; an out-of-range id changes nothing.
    pub fn set_is_new(&mut self, feed_id: usize, is_new: bool)
        requires
            old(self)@.wf(),
        ensures
            final(self)@ == old(self)@.set_is_new_m(feed_id as int, is_new),
            final(self)@.wf(),
    {
        let ghost m0 = self@;
        if feed_id < self.feeds.len() {
            self.feeds[feed_id].is_new = is_new;
            proof {
                assert(self@.feeds =~= m0.feeds.update(
                    feed_id as int,
                    FeedModel { is_new, ..m0.feeds[feed_id as int] },
                ));
                assert(self@ =~= m0.set_is_new_m(feed_id as int, is_new));
            }
        }
    }
}

} // verus!
