//! The poll cycle's phases over the store model, and the laws they obey.
//!
//! Each cycle registers nothing new: it ingests every fetched feed's items
//! (skipping feeds whose fetch failed), clears the new-flags, and then the
//! dispatcher drains the unsent queue. The functions here carry out the
//! ingest and age-out phases; the model transitions they follow are spelled
//! out as spec functions so that the cycle's guarantees — idempotent
//! ingestion, one notification per pair, backlog suppression, isolation of
//! a failing feed, durable retry — are proved once and for all.
use vstd::prelude::*;

use crate::config::{hook_urls_m, ResolvedFeed, ResolvedFeedModel};
use crate::feed::FeedError;
use crate::feed::{FeedItem, FeedItemModel, FeedKind};
use crate::notification::{unsent_pairs, Notification, NotificationModel};
use crate::store::{FeedModel, ItemModel, NoteModel, Store, StoreModel};
use crate::webhook::Webhook;

verus! {

/// The index of the feed row holding this url (meaningful when one does).
pub open spec fn feed_id_in(feeds: Seq<FeedModel>, url: Seq<char>) -> int {
    choose|i: int| 0 <= i < feeds.len() && (#[trigger] feeds[i]).url == url
}

/// The id of the feed row holding this url (meaningful when one does).
pub open spec fn feed_id_of(m: StoreModel, url: Seq<char>) -> int {
    feed_id_in(m.feeds, url)
}

/// The index of the item row holding this guid (meaningful when one does).
pub open spec fn item_id_in(items: Seq<ItemModel>, guid: Seq<char>) -> int {
    choose|i: int| 0 <= i < items.len() && (#[trigger] items[i]).item.guid == guid
}

/// The id of the item row holding this guid (meaningful when one does).
pub open spec fn item_id_of(m: StoreModel, guid: Seq<char>) -> int {
    item_id_in(m.items, guid)
}

/// The index of the target row holding this url (meaningful when one does).
pub open spec fn hook_id_in(hooks: Seq<Seq<char>>, url: Seq<char>) -> int {
    choose|i: int| 0 <= i < hooks.len() && #[trigger] hooks[i] == url
}

/// The id of the target row holding this url (meaningful when one does).
pub open spec fn hook_id_of(m: StoreModel, url: Seq<char>) -> int {
    hook_id_in(m.hooks, url)
}

/// Register one target url and enqueue the pair for one item.
pub open spec fn enqueue_hook_m(
    m: StoreModel,
    item_id: int,
    url: Seq<char>,
    sent: bool,
) -> StoreModel {
    let m1 = m.save_hook_m(url);
    m1.enqueue_m(item_id, hook_id_of(m1, url), sent)
}

/// Enqueue one item's pair for every target url, in order.
pub open spec fn enqueue_hooks_m(
    m: StoreModel,
    item_id: int,
    urls: Seq<Seq<char>>,
    sent: bool,
) -> StoreModel
    decreases urls.len(),
{
    if urls.len() == 0 {
        m
    } else {
        enqueue_hooks_m(enqueue_hook_m(m, item_id, urls[0], sent), item_id, urls.drop_first(), sent)
    }
}

/// Ingest one item: persist it, then enqueue one notification per target.
pub open spec fn ingest_entry_m(
    m: StoreModel,
    feed_id: int,
    e: FeedItemModel,
    urls: Seq<Seq<char>>,
    sent: bool,
) -> StoreModel {
    let m1 = m.save_item_m(feed_id, e);
    enqueue_hooks_m(m1, item_id_of(m1, e.guid), urls, sent)
}

/// Ingest a batch of items for one feed, in order.
pub open spec fn ingest_entries_m(
    m: StoreModel,
    feed_id: int,
    entries: Seq<FeedItemModel>,
    urls: Seq<Seq<char>>,
    sent: bool,
) -> StoreModel
    decreases entries.len(),
{
    if entries.len() == 0 {
        m
    } else {
        ingest_entries_m(
            ingest_entry_m(m, feed_id, entries[0], urls, sent),
            feed_id,
            entries.drop_first(),
            urls,
            sent,
        )
    }
}

/// Ingest one feed's fetched batch, pre-marking every fresh notification
/// with the feed's current new-flag (backlog suppression).
pub open spec fn ingest_feed_m(
    m: StoreModel,
    feed_id: int,
    entries: Seq<FeedItemModel>,
    urls: Seq<Seq<char>>,
) -> StoreModel {
    let sent = if 0 <= feed_id < m.feeds.len() {
        m.feeds[feed_id].is_new
    } else {
        false
    };
    ingest_entries_m(m, feed_id, entries, urls, sent)
}

/// The second store grew out of the first: same feeds, and each table kept
/// its rows in place, only appending.
pub open spec fn extends(m2: StoreModel, m1: StoreModel) -> bool {
    &&& m2.feeds == m1.feeds
    &&& m1.items.len() <= m2.items.len()
    &&& m2.items.subrange(0, m1.items.len() as int) == m1.items
    &&& m1.hooks.len() <= m2.hooks.len()
    &&& m2.hooks.subrange(0, m1.hooks.len() as int) == m1.hooks
    &&& m1.notes.len() <= m2.notes.len()
    &&& m2.notes.subrange(0, m1.notes.len() as int) == m1.notes
}

pub proof fn lemma_extends_refl(m: StoreModel)
    ensures
        extends(m, m),
{
    assert(m.items.subrange(0, m.items.len() as int) =~= m.items);
    assert(m.hooks.subrange(0, m.hooks.len() as int) =~= m.hooks);
    assert(m.notes.subrange(0, m.notes.len() as int) =~= m.notes);
}

pub proof fn lemma_extends_trans(m3: StoreModel, m2: StoreModel, m1: StoreModel)
    requires
        extends(m3, m2),
        extends(m2, m1),
    ensures
        extends(m3, m1),
{
    assert(m3.items.subrange(0, m1.items.len() as int) =~= m1.items);
    assert(m3.hooks.subrange(0, m1.hooks.len() as int) =~= m1.hooks);
    assert(m3.notes.subrange(0, m1.notes.len() as int) =~= m1.notes);
}

/// Presence of a key survives growing the store.
pub proof fn lemma_extends_has(m2: StoreModel, m1: StoreModel)
    requires
        extends(m2, m1),
    ensures
        forall|g: Seq<char>| m1.has_guid(g) ==> m2.has_guid(g),
        forall|u: Seq<char>| m1.has_hook_url(u) ==> m2.has_hook_url(u),
        forall|i: int, h: int| m1.has_pair(i, h) ==> m2.has_pair(i, h),
        forall|u: Seq<char>| m1.has_feed_url(u) ==> m2.has_feed_url(u),
{
    assert forall|g: Seq<char>| m1.has_guid(g) implies m2.has_guid(g) by {
        let i = choose|i: int| 0 <= i < m1.items.len() && #[trigger] m1.items[i].item.guid == g;
        assert(m2.items[i] == m1.items.subrange(0, m1.items.len() as int)[i]);
        assert(m2.items[i].item.guid == g);
    }
    assert forall|u: Seq<char>| m1.has_hook_url(u) implies m2.has_hook_url(u) by {
        let i = choose|i: int| 0 <= i < m1.hooks.len() && #[trigger] m1.hooks[i] == u;
        assert(m2.hooks[i] == m1.hooks.subrange(0, m1.hooks.len() as int)[i]);
        assert(m2.hooks[i] == u);
    }
    assert forall|i: int, h: int| m1.has_pair(i, h) implies m2.has_pair(i, h) by {
        let k = choose|k: int|
            0 <= k < m1.notes.len() && (#[trigger] m1.notes[k]).feed_item_id == i
                && m1.notes[k].webhook_id == h;
        assert(m2.notes[k] == m1.notes.subrange(0, m1.notes.len() as int)[k]);
        assert(m2.notes[k].feed_item_id == i && m2.notes[k].webhook_id == h);
    }
}

/// The chosen item id is the row that holds the guid, and any row holding
/// it is that one.
pub proof fn lemma_item_id_of(m: StoreModel, guid: Seq<char>, w: int)
    requires
        m.wf(),
        0 <= w < m.items.len(),
        m.items[w].item.guid == guid,
    ensures
        item_id_of(m, guid) == w,
        m.has_guid(guid),
{
    let j = item_id_of(m, guid);
    assert(0 <= j < m.items.len() && m.items[j].item.guid == guid) by {
        assert(0 <= w < m.items.len() && (#[trigger] m.items[w]).item.guid == guid);
    }
    if j != w {
        if j < w {
            assert(m.items[j].item.guid != m.items[w].item.guid);
        } else {
            assert(m.items[w].item.guid != m.items[j].item.guid);
        }
    }
    assert(m.has_guid(guid)) by {
        assert(0 <= w < m.items.len() && (#[trigger] m.items[w]).item.guid == guid);
    }
}

/// The chosen target id is the row that holds the url, and any row holding
/// it is that one.
pub proof fn lemma_hook_id_of(m: StoreModel, url: Seq<char>, w: int)
    requires
        m.wf(),
        0 <= w < m.hooks.len(),
        m.hooks[w] == url,
    ensures
        hook_id_of(m, url) == w,
        m.has_hook_url(url),
{
    let j = hook_id_of(m, url);
    assert(0 <= j < m.hooks.len() && m.hooks[j] == url) by {
        assert(0 <= w < m.hooks.len() && #[trigger] m.hooks[w] == url);
    }
    if j != w {
        if j < w {
            assert(m.hooks[j] != m.hooks[w]);
        } else {
            assert(m.hooks[w] != m.hooks[j]);
        }
    }
    assert(m.has_hook_url(url)) by {
        assert(0 <= w < m.hooks.len() && #[trigger] m.hooks[w] == url);
    }
}

/// The chosen feed id is the row that holds the url, and any row holding
/// it is that one.
pub proof fn lemma_feed_id_of(m: StoreModel, url: Seq<char>, w: int)
    requires
        m.wf(),
        0 <= w < m.feeds.len(),
        m.feeds[w].url == url,
    ensures
        feed_id_of(m, url) == w,
        m.has_feed_url(url),
{
    let j = feed_id_of(m, url);
    assert(0 <= j < m.feeds.len() && m.feeds[j].url == url) by {
        assert(0 <= w < m.feeds.len() && (#[trigger] m.feeds[w]).url == url);
    }
    if j != w {
        if j < w {
            assert(m.feeds[j].url != m.feeds[w].url);
        } else {
            assert(m.feeds[w].url != m.feeds[j].url);
        }
    }
    assert(m.has_feed_url(url)) by {
        assert(0 <= w < m.feeds.len() && (#[trigger] m.feeds[w]).url == url);
    }
}

/// Ids are stable as the store grows: the row a key names never moves.
pub proof fn lemma_item_id_stable(m2: StoreModel, m1: StoreModel, guid: Seq<char>)
    requires
        m2.wf(),
        extends(m2, m1),
        m1.wf(),
        m1.has_guid(guid),
    ensures
        item_id_of(m2, guid) == item_id_of(m1, guid),
{
    let w = choose|i: int| 0 <= i < m1.items.len() && #[trigger] m1.items[i].item.guid == guid;
    lemma_item_id_of(m1, guid, w);
    let i = item_id_of(m1, guid);
    assert(m2.items[i] == m1.items.subrange(0, m1.items.len() as int)[i]);
    lemma_item_id_of(m2, guid, i);
}

/// Saving an item preserves well-formedness, grows the store, and leaves
/// the guid present.
pub proof fn lemma_save_item_m(m: StoreModel, feed_id: int, e: FeedItemModel)
    requires
        m.wf(),
        0 <= feed_id < m.feeds.len(),
    ensures
        m.save_item_m(feed_id, e).wf(),
        extends(m.save_item_m(feed_id, e), m),
        m.save_item_m(feed_id, e).has_guid(e.guid),
        m.save_item_m(feed_id, e).hooks == m.hooks,
        m.save_item_m(feed_id, e).notes == m.notes,
{
    let m2 = m.save_item_m(feed_id, e);
    lemma_extends_refl(m);
    if !m.has_guid(e.guid) {
        assert(m2.items =~= m.items.push(ItemModel { feed_id, item: e }));
        assert(m2.items.subrange(0, m.items.len() as int) =~= m.items);
        assert(m2.has_guid(e.guid)) by {
            assert((#[trigger] m2.items[m.items.len() as int]).item.guid == e.guid);
        }
        assert forall|i: int, j: int|
            0 <= i < j < m2.items.len() implies (#[trigger] m2.items[i]).item.guid
            != (#[trigger] m2.items[j]).item.guid by {
            if j == m.items.len() {
                assert(!m.has_guid(e.guid));
                assert(0 <= i < m.items.len() && (#[trigger] m.items[i]).item.guid
                    == m2.items[i].item.guid);
            }
        }
        assert(m2.wf());
    }
}

/// Saving a target preserves well-formedness, grows the store, and leaves
/// the url present.
pub proof fn lemma_save_hook_m(m: StoreModel, url: Seq<char>)
    requires
        m.wf(),
    ensures
        m.save_hook_m(url).wf(),
        extends(m.save_hook_m(url), m),
        m.save_hook_m(url).has_hook_url(url),
        m.save_hook_m(url).items == m.items,
        m.save_hook_m(url).notes == m.notes,
{
    let m2 = m.save_hook_m(url);
    lemma_extends_refl(m);
    if !m.has_hook_url(url) {
        assert(m2.hooks =~= m.hooks.push(url));
        assert(m2.hooks.subrange(0, m.hooks.len() as int) =~= m.hooks);
        assert(m2.has_hook_url(url)) by {
            assert(#[trigger] m2.hooks[m.hooks.len() as int] == url);
        }
        assert forall|i: int, j: int|
            0 <= i < j < m2.hooks.len() implies #[trigger] m2.hooks[i] != #[trigger] m2.hooks[j] by {
            if j == m.hooks.len() {
                assert(!m.has_hook_url(url));
                assert(0 <= i < m.hooks.len() && #[trigger] m.hooks[i] == m2.hooks[i]);
            }
        }
        assert(m2.wf());
    }
}

/// Enqueueing preserves well-formedness, grows the store, and leaves the
/// pair present.
pub proof fn lemma_enqueue_m(m: StoreModel, item_id: int, hook_id: int, sent: bool)
    requires
        m.wf(),
        0 <= item_id < m.items.len(),
        0 <= hook_id < m.hooks.len(),
    ensures
        m.enqueue_m(item_id, hook_id, sent).wf(),
        extends(m.enqueue_m(item_id, hook_id, sent), m),
        m.enqueue_m(item_id, hook_id, sent).has_pair(item_id, hook_id),
        m.enqueue_m(item_id, hook_id, sent).items == m.items,
        m.enqueue_m(item_id, hook_id, sent).hooks == m.hooks,
        forall|k: int|
            m.notes.len() <= k < m.enqueue_m(item_id, hook_id, sent).notes.len()
                ==> (#[trigger] m.enqueue_m(item_id, hook_id, sent).notes[k]).sent == sent,
{
    let m2 = m.enqueue_m(item_id, hook_id, sent);
    lemma_extends_refl(m);
    if !m.has_pair(item_id, hook_id) {
        let n = NoteModel { feed_item_id: item_id, webhook_id: hook_id, sent, sent_at: None };
        assert(m2.notes =~= m.notes.push(n));
        assert(m2.notes.subrange(0, m.notes.len() as int) =~= m.notes);
        assert(m2.has_pair(item_id, hook_id)) by {
            assert((#[trigger] m2.notes[m.notes.len() as int]).feed_item_id == item_id
                && m2.notes[m.notes.len() as int].webhook_id == hook_id);
        }
        assert forall|i: int, j: int|
            0 <= i < j < m2.notes.len() implies !((#[trigger] m2.notes[i]).feed_item_id
            == (#[trigger] m2.notes[j]).feed_item_id && m2.notes[i].webhook_id
            == m2.notes[j].webhook_id) by {
            if j == m.notes.len() {
                assert(!m.has_pair(item_id, hook_id));
                assert(0 <= i < m.notes.len() && #[trigger] m.notes[i] == m2.notes[i]);
            }
        }
        assert(m2.wf());
    }
}

/// Hook ids are stable as the store grows: the row a url names never moves.
pub proof fn lemma_hook_id_stable(m2: StoreModel, m1: StoreModel, url: Seq<char>)
    requires
        m2.wf(),
        extends(m2, m1),
        m1.wf(),
        m1.has_hook_url(url),
    ensures
        hook_id_of(m2, url) == hook_id_of(m1, url),
{
    let w = choose|i: int| 0 <= i < m1.hooks.len() && #[trigger] m1.hooks[i] == url;
    lemma_hook_id_of(m1, url, w);
    let i = hook_id_of(m1, url);
    assert(m2.hooks[i] == m1.hooks.subrange(0, m1.hooks.len() as int)[i]);
    lemma_hook_id_of(m2, url, i);
}

/// Registering one target and enqueueing one pair preserves
/// well-formedness, grows the store, and leaves the pair present.
pub proof fn lemma_enqueue_hook_m(m: StoreModel, item_id: int, url: Seq<char>, sent: bool)
    requires
        m.wf(),
        0 <= item_id < m.items.len(),
    ensures
        enqueue_hook_m(m, item_id, url, sent).wf(),
        extends(enqueue_hook_m(m, item_id, url, sent), m),
        enqueue_hook_m(m, item_id, url, sent).items == m.items,
        enqueue_hook_m(m, item_id, url, sent).has_hook_url(url),
        enqueue_hook_m(m, item_id, url, sent).has_pair(
            item_id,
            hook_id_of(enqueue_hook_m(m, item_id, url, sent), url),
        ),
        forall|k: int|
            m.notes.len() <= k < enqueue_hook_m(m, item_id, url, sent).notes.len()
                ==> (#[trigger] enqueue_hook_m(m, item_id, url, sent).notes[k]).sent == sent,
{
    let m1 = m.save_hook_m(url);
    lemma_save_hook_m(m, url);
    let w = choose|i: int| 0 <= i < m1.hooks.len() && #[trigger] m1.hooks[i] == url;
    lemma_hook_id_of(m1, url, w);
    let h = hook_id_of(m1, url);
    lemma_enqueue_m(m1, item_id, h, sent);
    let m2 = m1.enqueue_m(item_id, h, sent);
    assert(m2.hooks == m1.hooks);
    lemma_extends_trans(m2, m1, m);
}

/// Enqueueing one item's pair for a list of targets preserves
/// well-formedness, grows the store, and leaves every pair present.
pub proof fn lemma_enqueue_hooks_m(m: StoreModel, item_id: int, urls: Seq<Seq<char>>, sent: bool)
    requires
        m.wf(),
        0 <= item_id < m.items.len(),
    ensures
        enqueue_hooks_m(m, item_id, urls, sent).wf(),
        extends(enqueue_hooks_m(m, item_id, urls, sent), m),
        enqueue_hooks_m(m, item_id, urls, sent).items == m.items,
        forall|j: int|
            0 <= j < urls.len() ==> enqueue_hooks_m(m, item_id, urls, sent).has_hook_url(
                #[trigger] urls[j],
            ) && enqueue_hooks_m(m, item_id, urls, sent).has_pair(
                item_id,
                hook_id_of(enqueue_hooks_m(m, item_id, urls, sent), urls[j]),
            ),
        forall|k: int|
            m.notes.len() <= k < enqueue_hooks_m(m, item_id, urls, sent).notes.len()
                ==> (#[trigger] enqueue_hooks_m(m, item_id, urls, sent).notes[k]).sent == sent,
    decreases urls.len(),
{
    let mz = enqueue_hooks_m(m, item_id, urls, sent);
    if urls.len() == 0 {
        lemma_extends_refl(m);
    } else {
        let m1 = enqueue_hook_m(m, item_id, urls[0], sent);
        lemma_enqueue_hook_m(m, item_id, urls[0], sent);
        lemma_enqueue_hooks_m(m1, item_id, urls.drop_first(), sent);
        lemma_extends_trans(mz, m1, m);
        assert forall|j: int|
            0 <= j < urls.len() implies mz.has_hook_url(#[trigger] urls[j]) && mz.has_pair(
            item_id,
            hook_id_of(mz, urls[j]),
        ) by {
            if j == 0 {
                lemma_extends_has(mz, m1);
                assert(mz.has_hook_url(urls[0]));
                assert(mz.has_pair(item_id, hook_id_of(m1, urls[0])));
                lemma_hook_id_stable(mz, m1, urls[0]);
            } else {
                assert(urls.drop_first()[j - 1] == urls[j]);
            }
        }
    }
}

/// Ingesting one item preserves well-formedness, grows the store, and
/// leaves the item and all its pairs present.
pub proof fn lemma_ingest_entry_m(
    m: StoreModel,
    feed_id: int,
    e: FeedItemModel,
    urls: Seq<Seq<char>>,
    sent: bool,
)
    requires
        m.wf(),
        0 <= feed_id < m.feeds.len(),
    ensures
        ingest_entry_m(m, feed_id, e, urls, sent).wf(),
        extends(ingest_entry_m(m, feed_id, e, urls, sent), m),
        ingest_entry_m(m, feed_id, e, urls, sent).has_guid(e.guid),
        forall|j: int|
            0 <= j < urls.len() ==> ingest_entry_m(m, feed_id, e, urls, sent).has_hook_url(
                #[trigger] urls[j],
            ) && ingest_entry_m(m, feed_id, e, urls, sent).has_pair(
                item_id_of(ingest_entry_m(m, feed_id, e, urls, sent), e.guid),
                hook_id_of(ingest_entry_m(m, feed_id, e, urls, sent), urls[j]),
            ),
        forall|k: int|
            m.notes.len() <= k < ingest_entry_m(m, feed_id, e, urls, sent).notes.len()
                ==> (#[trigger] ingest_entry_m(m, feed_id, e, urls, sent).notes[k]).sent == sent,
{
    let m1 = m.save_item_m(feed_id, e);
    lemma_save_item_m(m, feed_id, e);
    let iid = item_id_of(m1, e.guid);
    let w = choose|i: int| 0 <= i < m1.items.len() && #[trigger] m1.items[i].item.guid == e.guid;
    lemma_item_id_of(m1, e.guid, w);
    let mz = enqueue_hooks_m(m1, iid, urls, sent);
    lemma_enqueue_hooks_m(m1, iid, urls, sent);
    lemma_extends_trans(mz, m1, m);
    lemma_extends_has(mz, m1);
    assert(mz.items == m1.items);
    assert(item_id_of(mz, e.guid) == iid);
}

/// Ingesting a batch preserves well-formedness, grows the store, and
/// leaves every item of the batch and all its pairs present.
pub proof fn lemma_ingest_entries_m(
    m: StoreModel,
    feed_id: int,
    entries: Seq<FeedItemModel>,
    urls: Seq<Seq<char>>,
    sent: bool,
)
    requires
        m.wf(),
        0 <= feed_id < m.feeds.len(),
    ensures
        ingest_entries_m(m, feed_id, entries, urls, sent).wf(),
        extends(ingest_entries_m(m, feed_id, entries, urls, sent), m),
        forall|k: int|
            0 <= k < entries.len() ==> ingest_entries_m(m, feed_id, entries, urls, sent).has_guid(
                (#[trigger] entries[k]).guid,
            ),
        forall|k: int, j: int|
            0 <= k < entries.len() && 0 <= j < urls.len() ==> ingest_entries_m(
                m,
                feed_id,
                entries,
                urls,
                sent,
            ).has_hook_url(#[trigger] urls[j]) && ingest_entries_m(
                m,
                feed_id,
                entries,
                urls,
                sent,
            ).has_pair(
                item_id_of(ingest_entries_m(m, feed_id, entries, urls, sent), (#[trigger] entries[k]).guid),
                hook_id_of(ingest_entries_m(m, feed_id, entries, urls, sent), urls[j]),
            ),
        forall|k: int|
            m.notes.len() <= k < ingest_entries_m(m, feed_id, entries, urls, sent).notes.len()
                ==> (#[trigger] ingest_entries_m(m, feed_id, entries, urls, sent).notes[k]).sent
                == sent,
    decreases entries.len(),
{
    let mz = ingest_entries_m(m, feed_id, entries, urls, sent);
    if entries.len() == 0 {
        lemma_extends_refl(m);
    } else {
        let e = entries[0];
        let m1 = ingest_entry_m(m, feed_id, e, urls, sent);
        lemma_ingest_entry_m(m, feed_id, e, urls, sent);
        lemma_ingest_entries_m(m1, feed_id, entries.drop_first(), urls, sent);
        lemma_extends_trans(mz, m1, m);
        lemma_extends_has(mz, m1);
        assert forall|k: int|
            m.notes.len() <= k < mz.notes.len() implies (#[trigger] mz.notes[k]).sent == sent by {
            if k < m1.notes.len() {
                assert(mz.notes[k] == m1.notes.subrange(0, m1.notes.len() as int)[k]);
                assert(m1.notes[k].sent == sent);
            }
        }
        assert forall|k: int|
            0 <= k < entries.len() implies mz.has_guid((#[trigger] entries[k]).guid) by {
            if k == 0 {
                assert(mz.has_guid(e.guid));
            } else {
                assert(entries.drop_first()[k - 1] == entries[k]);
            }
        }
        assert forall|k: int, j: int|
            0 <= k < entries.len() && 0 <= j < urls.len() implies mz.has_hook_url(
            #[trigger] urls[j],
        ) && mz.has_pair(
            item_id_of(mz, (#[trigger] entries[k]).guid),
            hook_id_of(mz, urls[j]),
        ) by {
            if entries.len() == 1 {
                assert(k == 0);
                assert(mz == m1);
                assert(m1.has_hook_url(urls[j]));
                assert(m1.has_pair(item_id_of(m1, e.guid), hook_id_of(m1, urls[j])));
            } else {
                assert(0 <= 0 < entries.drop_first().len());
                assert(mz.has_hook_url(urls[j]));
                if k == 0 {
                    assert(m1.has_pair(item_id_of(m1, e.guid), hook_id_of(m1, urls[j])));
                    lemma_item_id_stable(mz, m1, e.guid);
                    lemma_hook_id_stable(mz, m1, urls[j]);
                } else {
                    assert(entries.drop_first()[k - 1] == entries[k]);
                }
            }
        }
    }
}

/// Clearing the new-flags changes no table but the feeds, and there only
/// the flags.
pub proof fn lemma_clear_new_m(m: StoreModel)
    requires
        m.wf(),
    ensures
        m.clear_new_m().wf(),
        m.clear_new_m().items == m.items,
        m.clear_new_m().hooks == m.hooks,
        m.clear_new_m().notes == m.notes,
        m.clear_new_m().feeds.len() == m.feeds.len(),
        forall|i: int|
            0 <= i < m.feeds.len() ==> (#[trigger] m.clear_new_m().feeds[i]).url == m.feeds[i].url
                && !m.clear_new_m().feeds[i].is_new,
{
    let mz = m.clear_new_m();
    assert forall|i: int, j: int|
        #![trigger mz.feeds[i], mz.feeds[j]]
        0 <= i < j < mz.feeds.len() implies mz.feeds[i].url != mz.feeds[j].url by {
        assert(m.feeds[i].url != m.feeds[j].url);
    }
}

/// Two stores with the same items, targets and notes agree on every
/// presence predicate and on every chosen id.
pub proof fn lemma_same_tables(m2: StoreModel, m1: StoreModel)
    requires
        m2.items == m1.items,
        m2.hooks == m1.hooks,
        m2.notes == m1.notes,
    ensures
        forall|g: Seq<char>| m1.has_guid(g) == m2.has_guid(g),
        forall|u: Seq<char>| m1.has_hook_url(u) == m2.has_hook_url(u),
        forall|i: int, h: int| m1.has_pair(i, h) == m2.has_pair(i, h),
        forall|g: Seq<char>| item_id_of(m1, g) == item_id_of(m2, g),
        forall|u: Seq<char>| hook_id_of(m1, u) == hook_id_of(m2, u),
{
}

/// Enqueueing pairs that already exist, to targets that already exist,
/// changes nothing.
pub proof fn lemma_enqueue_hooks_noop(m: StoreModel, item_id: int, urls: Seq<Seq<char>>, sent: bool)
    requires
        m.wf(),
        forall|j: int| 0 <= j < urls.len() ==> m.has_hook_url(#[trigger] urls[j]),
        forall|j: int|
            0 <= j < urls.len() ==> m.has_pair(item_id, hook_id_of(m, #[trigger] urls[j])),
    ensures
        enqueue_hooks_m(m, item_id, urls, sent) == m,
    decreases urls.len(),
{
    if urls.len() > 0 {
        assert(m.save_hook_m(urls[0]) == m);
        assert(enqueue_hook_m(m, item_id, urls[0], sent) == m);
        assert forall|j: int|
            0 <= j < urls.drop_first().len() implies m.has_hook_url(
            #[trigger] urls.drop_first()[j],
        ) && m.has_pair(item_id, hook_id_of(m, urls.drop_first()[j])) by {
            assert(urls.drop_first()[j] == urls[j + 1]);
        }
        lemma_enqueue_hooks_noop(m, item_id, urls.drop_first(), sent);
    }
}

/// Ingesting a batch whose items, targets and pairs are all already stored
/// changes nothing.
pub proof fn lemma_ingest_entries_noop(
    m: StoreModel,
    feed_id: int,
    entries: Seq<FeedItemModel>,
    urls: Seq<Seq<char>>,
    sent: bool,
)
    requires
        m.wf(),
        forall|k: int| 0 <= k < entries.len() ==> m.has_guid((#[trigger] entries[k]).guid),
        forall|j: int| 0 <= j < urls.len() ==> m.has_hook_url(#[trigger] urls[j]),
        forall|k: int, j: int|
            0 <= k < entries.len() && 0 <= j < urls.len() ==> m.has_pair(
                item_id_of(m, (#[trigger] entries[k]).guid),
                hook_id_of(m, #[trigger] urls[j]),
            ),
    ensures
        ingest_entries_m(m, feed_id, entries, urls, sent) == m,
    decreases entries.len(),
{
    if entries.len() > 0 {
        let e = entries[0];
        assert(m.save_item_m(feed_id, e) == m);
        lemma_enqueue_hooks_noop(m, item_id_of(m, e.guid), urls, sent);
        assert(ingest_entry_m(m, feed_id, e, urls, sent) == m);
        assert forall|k: int|
            0 <= k < entries.drop_first().len() implies m.has_guid(
            (#[trigger] entries.drop_first()[k]).guid,
        ) by {
            assert(entries.drop_first()[k] == entries[k + 1]);
        }
        assert forall|k: int, j: int|
            0 <= k < entries.drop_first().len() && 0 <= j < urls.len() implies m.has_pair(
            item_id_of(m, (#[trigger] entries.drop_first()[k]).guid),
            hook_id_of(m, #[trigger] urls[j]),
        ) by {
            assert(entries.drop_first()[k] == entries[k + 1]);
        }
        lemma_ingest_entries_noop(m, feed_id, entries.drop_first(), urls, sent);
    }
}

/// Law: ingestion is idempotent. After a feed's batch has been ingested
/// once and the cycle's age-out has run, ingesting the same unchanged batch
/// again leaves the store exactly as it was: no new item rows and no new
/// notification rows.
pub proof fn lemma_idempotent_ingestion(
    m: StoreModel,
    feed_id: int,
    entries: Seq<FeedItemModel>,
    urls: Seq<Seq<char>>,
)
    requires
        m.wf(),
        0 <= feed_id < m.feeds.len(),
    ensures
        ({
            let once = ingest_feed_m(m, feed_id, entries, urls).clear_new_m();
            ingest_feed_m(once, feed_id, entries, urls) == once
        }),
{
    let sent = m.feeds[feed_id].is_new;
    let m1 = ingest_entries_m(m, feed_id, entries, urls, sent);
    lemma_ingest_entries_m(m, feed_id, entries, urls, sent);
    let once = m1.clear_new_m();
    lemma_clear_new_m(m1);
    lemma_same_tables(once, m1);
    if entries.len() > 0 {
        assert forall|k: int|
            0 <= k < entries.len() implies once.has_guid((#[trigger] entries[k]).guid) by {
            assert(m1.has_guid(entries[k].guid));
        }
        assert forall|j: int| 0 <= j < urls.len() implies once.has_hook_url(#[trigger] urls[j]) by {
            assert(m1.has_hook_url(urls[j]));
        }
        assert forall|k: int, j: int|
            0 <= k < entries.len() && 0 <= j < urls.len() implies once.has_pair(
            item_id_of(once, (#[trigger] entries[k]).guid),
            hook_id_of(once, #[trigger] urls[j]),
        ) by {
            assert(m1.has_pair(item_id_of(m1, entries[k].guid), hook_id_of(m1, urls[j])));
        }
        lemma_ingest_entries_noop(
            once,
            feed_id,
            entries,
            urls,
            once.feeds[feed_id].is_new,
        );
    }
}

/// How many notification rows hold this pair.
pub open spec fn pair_count(notes: Seq<NoteModel>, item_id: int, hook_id: int) -> nat {
    notes.filter(
        |n: NoteModel| n.feed_item_id == item_id && n.webhook_id == hook_id,
    ).len()
}

/// With pairwise-distinct pairs, a pair occurs once when present and not
/// at all otherwise.
pub proof fn lemma_pair_count_distinct(notes: Seq<NoteModel>, item_id: int, hook_id: int)
    requires
        forall|i: int, j: int|
            #![trigger notes[i], notes[j]]
            0 <= i < j < notes.len() ==> !(notes[i].feed_item_id == notes[j].feed_item_id
                && notes[i].webhook_id == notes[j].webhook_id),
    ensures
        pair_count(notes, item_id, hook_id) == (if exists|k: int|
            0 <= k < notes.len() && (#[trigger] notes[k]).feed_item_id == item_id
                && notes[k].webhook_id == hook_id {
            1nat
        } else {
            0nat
        }),
    decreases notes.len(),
{
    broadcast use Seq::lemma_filter_push;
    broadcast use Seq::lemma_filter_len;

    if notes.len() == 0 {
        assert(pair_count(notes, item_id, hook_id) <= 0);
    } else {
        let dl = notes.drop_last();
        let last = notes.last();
        assert(notes =~= dl.push(last));
        assert(notes == dl.push(last));
        lemma_pair_count_distinct(dl, item_id, hook_id);
        let hit = |n: NoteModel| n.feed_item_id == item_id && n.webhook_id == hook_id;
        if last.feed_item_id == item_id && last.webhook_id == hook_id {
            if exists|k: int|
                0 <= k < dl.len() && (#[trigger] dl[k]).feed_item_id == item_id
                    && dl[k].webhook_id == hook_id {
                let k = choose|k: int|
                    0 <= k < dl.len() && (#[trigger] dl[k]).feed_item_id == item_id
                        && dl[k].webhook_id == hook_id;
                assert(notes[k] == dl[k]);
                assert(!(notes[k].feed_item_id == notes[notes.len() - 1].feed_item_id
                    && notes[k].webhook_id == notes[notes.len() - 1].webhook_id));
                assert(false);
            }
            assert(pair_count(dl, item_id, hook_id) == 0);
            assert((#[trigger] notes[notes.len() - 1]).feed_item_id == item_id
                && notes[notes.len() - 1].webhook_id == hook_id);
        } else {
            assert((exists|k: int|
                0 <= k < notes.len() && (#[trigger] notes[k]).feed_item_id == item_id
                    && notes[k].webhook_id == hook_id) == (exists|k: int|
                0 <= k < dl.len() && (#[trigger] dl[k]).feed_item_id == item_id
                    && dl[k].webhook_id == hook_id)) by {
                if exists|k: int|
                    0 <= k < notes.len() && (#[trigger] notes[k]).feed_item_id == item_id
                        && notes[k].webhook_id == hook_id {
                    let k = choose|k: int|
                        0 <= k < notes.len() && (#[trigger] notes[k]).feed_item_id == item_id
                            && notes[k].webhook_id == hook_id;
                    assert(k < notes.len() - 1);
                    assert(0 <= k < dl.len() && (#[trigger] dl[k]).feed_item_id == item_id
                        && dl[k].webhook_id == hook_id);
                }
                if exists|k: int|
                    0 <= k < dl.len() && (#[trigger] dl[k]).feed_item_id == item_id
                        && dl[k].webhook_id == hook_id {
                    let k = choose|k: int|
                        0 <= k < dl.len() && (#[trigger] dl[k]).feed_item_id == item_id
                            && dl[k].webhook_id == hook_id;
                    assert(0 <= k < notes.len() && (#[trigger] notes[k]).feed_item_id == item_id
                        && notes[k].webhook_id == hook_id);
                }
            }
        }
    }
}

/// Law: at most one notification per pair. Enqueueing a pair leaves exactly
/// one row holding it, and enqueueing it again — with any preset flag —
/// changes nothing, so re-running the enqueue logic any number of times
/// still yields exactly one row.
pub proof fn lemma_at_most_one_notification(
    m: StoreModel,
    item_id: int,
    hook_id: int,
    s1: bool,
    s2: bool,
)
    requires
        m.wf(),
        0 <= item_id < m.items.len(),
        0 <= hook_id < m.hooks.len(),
    ensures
        pair_count(m.enqueue_m(item_id, hook_id, s1).notes, item_id, hook_id) == 1,
        m.enqueue_m(item_id, hook_id, s1).enqueue_m(item_id, hook_id, s2) == m.enqueue_m(
            item_id,
            hook_id,
            s1,
        ),
{
    lemma_enqueue_m(m, item_id, hook_id, s1);
    let m1 = m.enqueue_m(item_id, hook_id, s1);
    lemma_pair_count_distinct(m1.notes, item_id, hook_id);
    assert(m1.has_pair(item_id, hook_id));
    let k = choose|k: int|
        0 <= k < m1.notes.len() && (#[trigger] m1.notes[k]).feed_item_id == item_id
            && m1.notes[k].webhook_id == hook_id;
    assert(0 <= k < m1.notes.len() && (#[trigger] m1.notes[k]).feed_item_id == item_id
        && m1.notes[k].webhook_id == hook_id);
}

/// Some notification row holds this pair and is not yet sent.
pub open spec fn pair_unsent(m: StoreModel, item_id: int, hook_id: int) -> bool {
    exists|k: int|
        0 <= k < m.notes.len() && (#[trigger] m.notes[k]).feed_item_id == item_id
            && m.notes[k].webhook_id == hook_id && !m.notes[k].sent
}

/// Every notification row holding this pair is sent.
pub open spec fn pair_sent(m: StoreModel, item_id: int, hook_id: int) -> bool {
    forall|k: int|
        0 <= k < m.notes.len() && (#[trigger] m.notes[k]).feed_item_id == item_id
            && m.notes[k].webhook_id == hook_id ==> m.notes[k].sent
}

/// Law: durable retry. A pair whose delivery failed is still listed for
/// dispatch; re-running the enqueue logic for it changes nothing (no
/// duplicate row), and a later successful delivery marks it sent.
pub proof fn lemma_durable_retry(m: StoreModel, item_id: int, hook_id: int, s: bool, now: u64)
    requires
        m.wf(),
        pair_unsent(m, item_id, hook_id),
    ensures
        m.enqueue_m(item_id, hook_id, s) == m,
        unsent_pairs(m.notes).contains(
            NotificationModel { feed_item_id: item_id, webhook_id: hook_id },
        ),
        pair_sent(m.mark_sent_m(item_id, hook_id, now), item_id, hook_id),
{
    broadcast use Seq::lemma_filter_contains;

    let k = choose|k: int|
        0 <= k < m.notes.len() && (#[trigger] m.notes[k]).feed_item_id == item_id
            && m.notes[k].webhook_id == hook_id && !m.notes[k].sent;
    assert(m.has_pair(item_id, hook_id)) by {
        assert(0 <= k < m.notes.len() && (#[trigger] m.notes[k]).feed_item_id == item_id
            && m.notes[k].webhook_id == hook_id);
    }
    let f = m.notes.filter(|n: NoteModel| !n.sent);
    assert(f.contains(m.notes[k]));
    let i = choose|i: int| 0 <= i < f.len() && f[i] == m.notes[k];
    assert(unsent_pairs(m.notes)[i] == NotificationModel {
        feed_item_id: item_id,
        webhook_id: hook_id,
    });
    assert(unsent_pairs(m.notes).contains(
        NotificationModel { feed_item_id: item_id, webhook_id: hook_id },
    )) by {
        assert(0 <= i < unsent_pairs(m.notes).len() && unsent_pairs(m.notes)[i]
            == NotificationModel { feed_item_id: item_id, webhook_id: hook_id });
    }
}

/// The ingest phase over every feed: each feed whose fetch produced a
/// batch is ingested in turn; a feed whose fetch failed contributes
/// nothing and stops nothing.
pub open spec fn ingest_results_m(
    m: StoreModel,
    regs: Seq<ResolvedFeedModel>,
    results: Seq<Option<Seq<FeedItemModel>>>,
) -> StoreModel
    decreases regs.len(),
{
    if regs.len() == 0 || results.len() == 0 {
        m
    } else {
        let m1 = match results[0] {
            Some(es) => ingest_feed_m(m, feed_id_of(m, regs[0].url), es, regs[0].hook_urls),
            None => m,
        };
        ingest_results_m(m1, regs.drop_first(), results.drop_first())
    }
}

/// Ingesting one feed preserves well-formedness and grows the store.
pub proof fn lemma_ingest_feed_m(
    m: StoreModel,
    feed_id: int,
    entries: Seq<FeedItemModel>,
    urls: Seq<Seq<char>>,
)
    requires
        m.wf(),
        0 <= feed_id < m.feeds.len(),
    ensures
        ingest_feed_m(m, feed_id, entries, urls).wf(),
        extends(ingest_feed_m(m, feed_id, entries, urls), m),
{
    let sent = m.feeds[feed_id].is_new;
    lemma_ingest_entries_m(m, feed_id, entries, urls, sent);
}

/// The whole ingest phase preserves well-formedness and grows the store.
pub proof fn lemma_ingest_results_m(
    m: StoreModel,
    regs: Seq<ResolvedFeedModel>,
    results: Seq<Option<Seq<FeedItemModel>>>,
)
    requires
        m.wf(),
        forall|i: int| 0 <= i < regs.len() ==> m.has_feed_url((#[trigger] regs[i]).url),
    ensures
        ingest_results_m(m, regs, results).wf(),
        extends(ingest_results_m(m, regs, results), m),
    decreases regs.len(),
{
    let mz = ingest_results_m(m, regs, results);
    if regs.len() == 0 || results.len() == 0 {
        lemma_extends_refl(m);
    } else {
        let m1 = match results[0] {
            Some(es) => ingest_feed_m(m, feed_id_of(m, regs[0].url), es, regs[0].hook_urls),
            None => m,
        };
        match results[0] {
            Some(es) => {
                assert(m.has_feed_url(regs[0].url));
                let w = choose|i: int|
                    0 <= i < m.feeds.len() && #[trigger] m.feeds[i].url == regs[0].url;
                lemma_feed_id_of(m, regs[0].url, w);
                lemma_ingest_feed_m(m, feed_id_of(m, regs[0].url), es, regs[0].hook_urls);
            },
            None => {
                lemma_extends_refl(m);
            },
        }
        assert forall|i: int|
            0 <= i < regs.drop_first().len() implies m1.has_feed_url(
            (#[trigger] regs.drop_first()[i]).url,
        ) by {
            assert(regs.drop_first()[i] == regs[i + 1]);
            lemma_extends_has(m1, m);
        }
        lemma_ingest_results_m(m1, regs.drop_first(), results.drop_first());
        lemma_extends_trans(mz, m1, m);
    }
}

/// A fetched batch is fully taken in: every item stored, every target
/// registered, every pair enqueued.
pub open spec fn feed_contribution_stored(
    mz: StoreModel,
    es: Seq<FeedItemModel>,
    urls: Seq<Seq<char>>,
) -> bool {
    forall|t: int, j: int|
        0 <= t < es.len() && 0 <= j < urls.len() ==> mz.has_guid((#[trigger] es[t]).guid)
            && mz.has_hook_url(#[trigger] urls[j]) && mz.has_pair(
            item_id_of(mz, es[t].guid),
            hook_id_of(mz, urls[j]),
        )
}

/// Law: partial failure isolation. In one cycle's ingest phase, every feed
/// whose fetch succeeded has all its items stored and all their
/// notifications enqueued, whatever happened to the other feeds — a
/// network error on one feed never stops its siblings.
pub proof fn lemma_partial_failure_isolation(
    m: StoreModel,
    regs: Seq<ResolvedFeedModel>,
    results: Seq<Option<Seq<FeedItemModel>>>,
    k: int,
)
    requires
        m.wf(),
        regs.len() == results.len(),
        forall|i: int| 0 <= i < regs.len() ==> m.has_feed_url((#[trigger] regs[i]).url),
        0 <= k < regs.len(),
        results[k] is Some,
    ensures
        feed_contribution_stored(
            ingest_results_m(m, regs, results),
            results[k].unwrap(),
            regs[k].hook_urls,
        ),
    decreases regs.len(),
{
    let mz = ingest_results_m(m, regs, results);
    let m1 = match results[0] {
        Some(es) => ingest_feed_m(m, feed_id_of(m, regs[0].url), es, regs[0].hook_urls),
        None => m,
    };
    match results[0] {
        Some(es0) => {
            let w = choose|i: int|
                0 <= i < m.feeds.len() && #[trigger] m.feeds[i].url == regs[0].url;
            lemma_feed_id_of(m, regs[0].url, w);
            lemma_ingest_feed_m(m, feed_id_of(m, regs[0].url), es0, regs[0].hook_urls);
        },
        None => {
            lemma_extends_refl(m);
        },
    }
    assert forall|i: int|
        0 <= i < regs.drop_first().len() implies m1.has_feed_url(
        (#[trigger] regs.drop_first()[i]).url,
    ) by {
        assert(regs.drop_first()[i] == regs[i + 1]);
        lemma_extends_has(m1, m);
    }
    lemma_ingest_results_m(m1, regs.drop_first(), results.drop_first());
    let es = results[k].unwrap();
    let urls = regs[k].hook_urls;
    if k == 0 {
        let es0 = results[0].unwrap();
        let fid = feed_id_of(m, regs[0].url);
        let sent = m.feeds[fid].is_new;
        lemma_ingest_entries_m(m, fid, es0, regs[0].hook_urls, sent);
        lemma_extends_has(mz, m1);
        assert forall|t: int, j: int|
            0 <= t < es.len() && 0 <= j < urls.len() implies mz.has_guid(
            (#[trigger] es[t]).guid,
        ) && mz.has_hook_url(#[trigger] urls[j]) && mz.has_pair(
            item_id_of(mz, es[t].guid),
            hook_id_of(mz, urls[j]),
        ) by {
            assert(m1.has_guid(es[t].guid));
            assert(m1.has_hook_url(urls[j]));
            assert(m1.has_pair(item_id_of(m1, es[t].guid), hook_id_of(m1, urls[j])));
            lemma_item_id_stable(mz, m1, es[t].guid);
            lemma_hook_id_stable(mz, m1, urls[j]);
        }
        assert(feed_contribution_stored(mz, es, urls));
    } else {
        assert(regs.drop_first()[k - 1] == regs[k]);
        assert(results.drop_first()[k - 1] == results[k]);
        lemma_partial_failure_isolation(m1, regs.drop_first(), results.drop_first(), k - 1);
        assert(mz == ingest_results_m(m1, regs.drop_first(), results.drop_first()));
        assert(feed_contribution_stored(mz, es, urls));
    }
}

/// Every notification row of this item carries this sent flag.
pub open spec fn item_pairs_have(m: StoreModel, item_id: int, sent: bool) -> bool {
    forall|k: int|
        0 <= k < m.notes.len() && (#[trigger] m.notes[k]).feed_item_id == item_id
            ==> m.notes[k].sent == sent
}

/// Ingesting a batch of never-seen items creates every one of their
/// notification rows with the feed's current new-flag as the sent flag.
proof fn lemma_fresh_batch_preset(
    m: StoreModel,
    feed_id: int,
    entries: Seq<FeedItemModel>,
    urls: Seq<Seq<char>>,
)
    requires
        m.wf(),
        0 <= feed_id < m.feeds.len(),
        forall|k: int| 0 <= k < entries.len() ==> !m.has_guid((#[trigger] entries[k]).guid),
    ensures
        ({
            let mz = ingest_feed_m(m, feed_id, entries, urls);
            forall|k: int|
                0 <= k < entries.len() ==> item_pairs_have(
                    mz,
                    item_id_of(mz, (#[trigger] entries[k]).guid),
                    m.feeds[feed_id].is_new,
                )
        }),
{
    let sent = m.feeds[feed_id].is_new;
    let mz = ingest_entries_m(m, feed_id, entries, urls, sent);
    lemma_ingest_entries_m(m, feed_id, entries, urls, sent);
    assert forall|k: int|
        0 <= k < entries.len() implies item_pairs_have(
        mz,
        item_id_of(mz, (#[trigger] entries[k]).guid),
        sent,
    ) by {
        let guid = entries[k].guid;
        assert(mz.has_guid(guid));
        let w = choose|i: int| 0 <= i < mz.items.len() && #[trigger] mz.items[i].item.guid == guid;
        lemma_item_id_of(mz, guid, w);
        let iid = item_id_of(mz, guid);
        if iid < m.items.len() {
            assert(mz.items[iid] == m.items.subrange(0, m.items.len() as int)[iid]);
            assert(m.has_guid(guid)) by {
                assert(0 <= iid < m.items.len() && (#[trigger] m.items[iid]).item.guid == guid);
            }
            assert(false);
        }
        assert forall|t: int|
            0 <= t < mz.notes.len() && (#[trigger] mz.notes[t]).feed_item_id == iid implies mz
            .notes[t].sent == sent by {
            if t < m.notes.len() {
                assert(mz.notes[t] == m.notes.subrange(0, m.notes.len() as int)[t]);
                assert(m.notes[t].feed_item_id < m.items.len());
                assert(false);
            }
        }
    }
}

/// Law: backlog suppression. Ingesting a batch of items none of which has
/// been seen before, for a feed still flagged new, creates every one of
/// their notifications pre-marked sent: a freshly registered feed's
/// backlog causes no deliveries.
pub proof fn lemma_backlog_suppression(
    m: StoreModel,
    feed_id: int,
    entries: Seq<FeedItemModel>,
    urls: Seq<Seq<char>>,
)
    requires
        m.wf(),
        0 <= feed_id < m.feeds.len(),
        m.feeds[feed_id].is_new,
        forall|k: int| 0 <= k < entries.len() ==> !m.has_guid((#[trigger] entries[k]).guid),
    ensures
        ({
            let mz = ingest_feed_m(m, feed_id, entries, urls);
            forall|k: int|
                0 <= k < entries.len() ==> item_pairs_have(
                    mz,
                    item_id_of(mz, (#[trigger] entries[k]).guid),
                    true,
                )
        }),
{
    lemma_fresh_batch_preset(m, feed_id, entries, urls);
}

/// Law: backlog suppression, the other side. Once the feed's new-flag is
/// clear, a never-seen item appearing in a later poll has every one of its
/// notifications created unsent, so the dispatcher will deliver them.
pub proof fn lemma_fresh_item_enqueued_unsent(
    m: StoreModel,
    feed_id: int,
    entries: Seq<FeedItemModel>,
    urls: Seq<Seq<char>>,
)
    requires
        m.wf(),
        0 <= feed_id < m.feeds.len(),
        !m.feeds[feed_id].is_new,
        forall|k: int| 0 <= k < entries.len() ==> !m.has_guid((#[trigger] entries[k]).guid),
    ensures
        ({
            let mz = ingest_feed_m(m, feed_id, entries, urls);
            forall|k: int|
                0 <= k < entries.len() ==> item_pairs_have(
                    mz,
                    item_id_of(mz, (#[trigger] entries[k]).guid),
                    false,
                )
        }),
{
    lemma_fresh_batch_preset(m, feed_id, entries, urls);
}

/// Two stores with the same feeds agree on feed presence and feed ids.
pub proof fn lemma_same_feeds(m2: StoreModel, m1: StoreModel)
    requires
        m2.feeds == m1.feeds,
    ensures
        forall|u: Seq<char>| m1.has_feed_url(u) == m2.has_feed_url(u),
        forall|u: Seq<char>| feed_id_of(m1, u) == feed_id_of(m2, u),
{
}

/// Registering a feed preserves well-formedness and touches only the
/// feeds table, leaving the url present.
pub proof fn lemma_save_feed_m(m: StoreModel, kind: FeedKind, url: Seq<char>)
    requires
        m.wf(),
    ensures
        m.save_feed_m(kind, url).wf(),
        m.save_feed_m(kind, url).items == m.items,
        m.save_feed_m(kind, url).hooks == m.hooks,
        m.save_feed_m(kind, url).notes == m.notes,
        m.save_feed_m(kind, url).has_feed_url(url),
        m.feeds.len() <= m.save_feed_m(kind, url).feeds.len(),
        forall|u: Seq<char>| m.has_feed_url(u) ==> m.save_feed_m(kind, url).has_feed_url(u),
{
    let m2 = m.save_feed_m(kind, url);
    if !m.has_feed_url(url) {
        let f = FeedModel { kind, url, is_new: true };
        assert(m2.feeds =~= m.feeds.push(f));
        assert(m2.has_feed_url(url)) by {
            assert((#[trigger] m2.feeds[m.feeds.len() as int]).url == url);
        }
        assert forall|i: int, j: int|
            #![trigger m2.feeds[i], m2.feeds[j]]
            0 <= i < j < m2.feeds.len() implies m2.feeds[i].url != m2.feeds[j].url by {
            if j == m.feeds.len() {
                assert(!m.has_feed_url(url));
                assert(0 <= i < m.feeds.len() && (#[trigger] m.feeds[i]).url == m2.feeds[i].url);
            }
        }
        assert forall|u: Seq<char>| m.has_feed_url(u) implies m2.has_feed_url(u) by {
            let i = choose|i: int| 0 <= i < m.feeds.len() && #[trigger] m.feeds[i].url == u;
            assert((#[trigger] m2.feeds[i]).url == u);
        }
        assert(m2.wf());
    }
}

/// The initial registration pass over the resolved feeds, in order.
pub open spec fn register_m(m: StoreModel, regs: Seq<ResolvedFeedModel>) -> StoreModel
    decreases regs.len(),
{
    if regs.len() == 0 {
        m
    } else {
        register_m(m.save_feed_m(regs[0].kind, regs[0].url), regs.drop_first())
    }
}

/// Appending one feed to the registration pass registers it last.
pub proof fn lemma_register_snoc(m: StoreModel, regs: Seq<ResolvedFeedModel>, r: ResolvedFeedModel)
    ensures
        register_m(m, regs.push(r)) == register_m(m, regs).save_feed_m(r.kind, r.url),
    decreases regs.len(),
{
    reveal_with_fuel(register_m, 3);
    if regs.len() == 0 {
        assert(regs.push(r)[0] == r);
        assert(regs.push(r).drop_first() =~= Seq::<ResolvedFeedModel>::empty());
    } else {
        assert(regs.push(r)[0] == regs[0]);
        assert(regs.push(r).drop_first() =~= regs.drop_first().push(r));
        lemma_register_snoc(m.save_feed_m(regs[0].kind, regs[0].url), regs.drop_first(), r);
    }
}

/// The registration pass preserves well-formedness and leaves every feed
/// of the list registered.
pub proof fn lemma_register_m(m: StoreModel, regs: Seq<ResolvedFeedModel>)
    requires
        m.wf(),
    ensures
        register_m(m, regs).wf(),
        register_m(m, regs).items == m.items,
        register_m(m, regs).hooks == m.hooks,
        register_m(m, regs).notes == m.notes,
        forall|i: int|
            0 <= i < regs.len() ==> register_m(m, regs).has_feed_url((#[trigger] regs[i]).url),
        forall|u: Seq<char>| m.has_feed_url(u) ==> register_m(m, regs).has_feed_url(u),
    decreases regs.len(),
{
    if regs.len() > 0 {
        let m1 = m.save_feed_m(regs[0].kind, regs[0].url);
        lemma_save_feed_m(m, regs[0].kind, regs[0].url);
        lemma_register_m(m1, regs.drop_first());
        assert forall|i: int|
            0 <= i < regs.len() implies register_m(m, regs).has_feed_url(
            (#[trigger] regs[i]).url,
        ) by {
            if i > 0 {
                assert(regs.drop_first()[i - 1] == regs[i]);
            }
        }
    }
}

/// Register every resolved feed, in order: insert-if-absent keyed by url,
/// so a feed already present keeps its id and its new-flag.
pub fn register_feeds(store: &mut Store, feeds: &Vec<ResolvedFeed>)
    requires
        old(store)@.wf(),
    ensures
        final(store)@ == register_m(old(store)@, feeds.deep_view()),
        final(store)@.wf(),
        forall|i: int|
            0 <= i < feeds.deep_view().len() ==> final(store)@.has_feed_url(
                (#[trigger] feeds.deep_view()[i]).url,
            ),
{
    let ghost m0 = store@;
    let ghost regs = feeds.deep_view();
    let mut k: usize = 0;
    while k < feeds.len()
        invariant
            k <= feeds.len(),
            m0.wf(),
            store@.wf(),
            regs == feeds.deep_view(),
            regs.len() == feeds@.len(),
            store@ == register_m(m0, regs.take(k as int)),
        decreases feeds.len() - k,
    {
        let ghost pre = store@;
        let feed = &feeds[k];
        feed.descriptor.save(store);
        proof {
            assert(regs[k as int] == feeds@[k as int]@);
            assert(store@ == pre.save_feed_m(regs[k as int].kind, regs[k as int].url));
            lemma_register_snoc(m0, regs.take(k as int), regs[k as int]);
            assert(regs.take(k + 1 as int) =~= regs.take(k as int).push(regs[k as int]));
        }
        k += 1;
    }
    proof {
        assert(regs.take(regs.len() as int) =~= regs);
        lemma_register_m(m0, regs);
    }
}

/// Appending one target url enqueues its pair last.
pub proof fn lemma_enqueue_hooks_snoc(
    m: StoreModel,
    item_id: int,
    urls: Seq<Seq<char>>,
    u: Seq<char>,
    sent: bool,
)
    ensures
        enqueue_hooks_m(m, item_id, urls.push(u), sent) == enqueue_hook_m(
            enqueue_hooks_m(m, item_id, urls, sent),
            item_id,
            u,
            sent,
        ),
    decreases urls.len(),
{
    reveal_with_fuel(enqueue_hooks_m, 3);
    if urls.len() == 0 {
        assert(urls.push(u)[0] == u);
        assert(urls.push(u).drop_first() =~= Seq::<Seq<char>>::empty());
    } else {
        assert(urls.push(u)[0] == urls[0]);
        assert(urls.push(u).drop_first() =~= urls.drop_first().push(u));
        lemma_enqueue_hooks_snoc(
            enqueue_hook_m(m, item_id, urls[0], sent),
            item_id,
            urls.drop_first(),
            u,
            sent,
        );
    }
}

/// Appending one entry ingests it last.
pub proof fn lemma_ingest_entries_snoc(
    m: StoreModel,
    feed_id: int,
    entries: Seq<FeedItemModel>,
    e: FeedItemModel,
    urls: Seq<Seq<char>>,
    sent: bool,
)
    ensures
        ingest_entries_m(m, feed_id, entries.push(e), urls, sent) == ingest_entry_m(
            ingest_entries_m(m, feed_id, entries, urls, sent),
            feed_id,
            e,
            urls,
            sent,
        ),
    decreases entries.len(),
{
    reveal_with_fuel(ingest_entries_m, 3);
    if entries.len() == 0 {
        assert(entries.push(e)[0] == e);
        assert(entries.push(e).drop_first() =~= Seq::<FeedItemModel>::empty());
    } else {
        assert(entries.push(e)[0] == entries[0]);
        assert(entries.push(e).drop_first() =~= entries.drop_first().push(e));
        lemma_ingest_entries_snoc(
            ingest_entry_m(m, feed_id, entries[0], urls, sent),
            feed_id,
            entries.drop_first(),
            e,
            urls,
            sent,
        );
    }
}

/// Ingest one fetched batch for a registered feed: persist each item, then
/// enqueue one notification per configured target, pre-marked with the
/// feed's current new-flag (backlog suppression).
pub fn ingest_feed(store: &mut Store, feed_id: usize, entries: &Vec<FeedItem>, hooks: &Vec<Webhook>)
    requires
        old(store)@.wf(),
        feed_id < old(store)@.feeds.len(),
    ensures
        final(store)@ == ingest_feed_m(
            old(store)@,
            feed_id as int,
            entries.deep_view(),
            hook_urls_m(hooks@),
        ),
        final(store)@.wf(),
        final(store)@.feeds == old(store)@.feeds,
{
    let ghost m0 = store@;
    let ghost urls = hook_urls_m(hooks@);
    let ghost es = entries.deep_view();
    let sent = match store.feed_is_new(feed_id) {
        Some(b) => b,
        None => false,
    };
    let mut k: usize = 0;
    while k < entries.len()
        invariant
            k <= entries.len(),
            m0.wf(),
            store@.wf(),
            urls == hook_urls_m(hooks@),
            urls.len() == hooks@.len(),
            es == entries.deep_view(),
            es.len() == entries@.len(),
            sent == if feed_id < m0.feeds.len() {
                m0.feeds[feed_id as int].is_new
            } else {
                false
            },
            feed_id < m0.feeds.len(),
            store@ == ingest_entries_m(m0, feed_id as int, es.take(k as int), urls, sent),
            store@.feeds == m0.feeds,
        decreases entries.len() - k,
    {
        let ghost pre = store@;
        let entry = &entries[k];
        entry.save(store, feed_id);
        let ghost m1 = store@;
        proof {
            lemma_save_item_m(pre, feed_id as int, entry@);
        }
        let iid = match entry.id(store) {
            Some(i) => i,
            None => {
                proof {
                    assert(false);
                }
                0
            },
        };
        proof {
            lemma_item_id_of(m1, entry@.guid, iid as int);
        }
        let mut j: usize = 0;
        while j < hooks.len()
            invariant
                j <= hooks.len(),
                m1.wf(),
                store@.wf(),
                urls == hook_urls_m(hooks@),
                urls.len() == hooks@.len(),
                iid < m1.items.len(),
                item_id_of(m1, entry@.guid) == iid as int,
                store@ == enqueue_hooks_m(m1, iid as int, urls.take(j as int), sent),
                store@.items == m1.items,
                store@.feeds == m1.feeds,
            decreases hooks.len() - j,
        {
            let ghost pre2 = store@;
            let hook = &hooks[j];
            let hid = hook.save(store);
            proof {
                lemma_save_hook_m(pre2, hook.url_spec());
                lemma_hook_id_of(store@, hook.url_spec(), hid as int);
            }
            let note = Notification { feed_item_id: iid, webhook_id: hid };
            note.save(store, sent);
            proof {
                assert(hooks@[j as int].url_spec() == urls[j as int]);
                assert(store@ == enqueue_hook_m(pre2, iid as int, urls[j as int], sent));
                lemma_enqueue_hooks_snoc(m1, iid as int, urls.take(j as int), urls[j as int], sent);
                assert(urls.take(j + 1 as int) =~= urls.take(j as int).push(urls[j as int]));
            }
            j += 1;
        }
        proof {
            assert(urls.take(urls.len() as int) =~= urls);
            assert(store@ == ingest_entry_m(pre, feed_id as int, entry@, urls, sent));
            assert(es[k as int] == entry@);
            lemma_ingest_entries_snoc(m0, feed_id as int, es.take(k as int), entry@, urls, sent);
            assert(es.take(k + 1 as int) =~= es.take(k as int).push(es[k as int]));
        }
        k += 1;
    }
    proof {
        assert(es.take(es.len() as int) =~= es);
    }
}

/// The per-feed fetch outcomes as the model sees them: a batch, or nothing
/// for a feed whose fetch or decode failed.
pub open spec fn fetch_results_m(results: Seq<Result<Vec<FeedItem>, FeedError>>) -> Seq<
    Option<Seq<FeedItemModel>>,
> {
    results.map_values(
        |r: Result<Vec<FeedItem>, FeedError>|
            match r {
                Ok(v) => Some(v.deep_view()),
                Err(_) => None,
            },
    )
}

/// Appending one feed's outcome ingests it last.
pub proof fn lemma_ingest_results_snoc(
    m: StoreModel,
    regs: Seq<ResolvedFeedModel>,
    results: Seq<Option<Seq<FeedItemModel>>>,
    reg: ResolvedFeedModel,
    res: Option<Seq<FeedItemModel>>,
)
    requires
        regs.len() == results.len(),
    ensures
        ingest_results_m(m, regs.push(reg), results.push(res)) == (match res {
            Some(es) => ingest_feed_m(
                ingest_results_m(m, regs, results),
                feed_id_of(ingest_results_m(m, regs, results), reg.url),
                es,
                reg.hook_urls,
            ),
            None => ingest_results_m(m, regs, results),
        }),
    decreases regs.len(),
{
    reveal_with_fuel(ingest_results_m, 3);
    if regs.len() == 0 {
        assert(regs.push(reg)[0] == reg);
        assert(results.push(res)[0] == res);
        assert(regs.push(reg).drop_first() =~= Seq::<ResolvedFeedModel>::empty());
        assert(results.push(res).drop_first() =~= Seq::<Option<Seq<FeedItemModel>>>::empty());
    } else {
        assert(regs.push(reg)[0] == regs[0]);
        assert(results.push(res)[0] == results[0]);
        assert(regs.push(reg).drop_first() =~= regs.drop_first().push(reg));
        assert(results.push(res).drop_first() =~= results.drop_first().push(res));
        let m1 = match results[0] {
            Some(es) => ingest_feed_m(m, feed_id_of(m, regs[0].url), es, regs[0].hook_urls),
            None => m,
        };
        lemma_ingest_results_snoc(m1, regs.drop_first(), results.drop_first(), reg, res);
    }
}

/// The cycle's ingest phase: take in every feed whose fetch produced a
/// batch, in order; a feed whose fetch failed contributes nothing and
/// stops nothing.
pub fn run_ingest_phase(
    store: &mut Store,
    feeds: &Vec<ResolvedFeed>,
    results: &Vec<Result<Vec<FeedItem>, FeedError>>,
)
    requires
        old(store)@.wf(),
        feeds@.len() == results@.len(),
        forall|i: int|
            0 <= i < feeds.deep_view().len() ==> old(store)@.has_feed_url(
                (#[trigger] feeds.deep_view()[i]).url,
            ),
    ensures
        final(store)@ == ingest_results_m(
            old(store)@,
            feeds.deep_view(),
            fetch_results_m(results@),
        ),
        final(store)@.wf(),
{
    let ghost m0 = store@;
    let ghost regs = feeds.deep_view();
    let ghost rv = fetch_results_m(results@);
    let mut k: usize = 0;
    while k < feeds.len()
        invariant
            k <= feeds.len(),
            m0.wf(),
            store@.wf(),
            regs == feeds.deep_view(),
            rv == fetch_results_m(results@),
            regs.len() == feeds@.len(),
            rv.len() == results@.len(),
            feeds@.len() == results@.len(),
            forall|i: int| 0 <= i < regs.len() ==> m0.has_feed_url((#[trigger] regs[i]).url),
            store@ == ingest_results_m(m0, regs.take(k as int), rv.take(k as int)),
            store@.feeds == m0.feeds,
        decreases feeds.len() - k,
    {
        let ghost pre = store@;
        let feed = &feeds[k];
        proof {
            lemma_same_feeds(pre, m0);
            assert(regs[k as int] == feeds@[k as int]@);
            assert(pre.has_feed_url(regs[k as int].url));
        }
        let fid = match feed.descriptor.id(store) {
            Some(i) => i,
            None => {
                proof {
                    assert(false);
                }
                0
            },
        };
        match &results[k] {
            Ok(items) => {
                proof {
                    lemma_feed_id_of(pre, feed.descriptor.url@, fid as int);
                }
                ingest_feed(store, fid, items, &feed.hooks);
                proof {
                    assert(rv[k as int] == Some(items.deep_view()));
                    assert(regs[k as int].hook_urls == hook_urls_m(feed.hooks@));
                    assert(store@ == ingest_feed_m(
                        pre,
                        feed_id_of(pre, regs[k as int].url),
                        items.deep_view(),
                        regs[k as int].hook_urls,
                    ));
                }
            },
            Err(_) => {
                proof {
                    assert(rv[k as int] is None);
                }
            },
        }
        proof {
            lemma_ingest_results_snoc(m0, regs.take(k as int), rv.take(k as int), regs[k as int], rv[k as int]);
            assert(regs.take(k + 1 as int) =~= regs.take(k as int).push(regs[k as int]));
            assert(rv.take(k + 1 as int) =~= rv.take(k as int).push(rv[k as int]));
        }
        k += 1;
    }
    proof {
        assert(regs.take(regs.len() as int) =~= regs);
        assert(rv.take(rv.len() as int) =~= rv);
    }
}

/// The cycle's age-out phase: clear every feed's new-flag. A flag already
/// clear stays clear; nothing else changes.
pub fn clear_new_flags(store: &mut Store)
    requires
        old(store)@.wf(),
    ensures
        final(store)@ == old(store)@.clear_new_m(),
        final(store)@.wf(),
{
    let ghost m0 = store@;
    let mut k: usize = 0;
    while k < store.feeds.len()
        invariant
            k <= store.feeds.len(),
            m0.wf(),
            store@.items == m0.items,
            store@.hooks == m0.hooks,
            store@.notes == m0.notes,
            store@.feeds.len() == m0.feeds.len(),
            forall|j: int| k <= j < m0.feeds.len() ==> #[trigger] store@.feeds[j] == m0.feeds[j],
            forall|j: int|
                0 <= j < k ==> #[trigger] store@.feeds[j] == (FeedModel {
                    is_new: false,
                    ..m0.feeds[j]
                }),
        decreases store.feeds.len() - k,
    {
        let ghost pvec = store.feeds@;
        let ghost prev = store@;
        store.feeds[k].is_new = false;
        proof {
            assert forall|j: int| 0 <= j < m0.feeds.len() && j != k implies #[trigger] store@
                .feeds[j] == prev.feeds[j] by {
                assert(store.feeds@[j] == pvec[j]);
            }
            assert(prev.feeds[k as int] == m0.feeds[k as int]);
            assert(prev.feeds[k as int] == pvec[k as int]@);
            assert(store@.feeds[k as int].kind == pvec[k as int]@.kind);
            assert(store@.feeds[k as int].url == pvec[k as int]@.url);
            assert(store@.feeds[k as int].is_new == false);
            assert(store@.feeds[k as int] == (FeedModel { is_new: false, ..m0.feeds[k as int] }));
        }
        k += 1;
    }
    proof {
        assert(store@.feeds =~= m0.clear_new_m().feeds);
        assert(store@ =~= m0.clear_new_m());
        lemma_clear_new_m(m0);
    }
}

} // verus!
