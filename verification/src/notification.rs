//! The durable notification queue and the dispatcher's decisions.
//!
//! A `Notification` names one item/target pair. The queue holds at most one
//! row per pair; a row is enqueued unsent (or pre-marked sent for a fresh
//! feed's backlog), and flips to sent only when a delivery succeeds. A failed
//! delivery changes nothing, so the row is picked up again next cycle.
use vstd::prelude::*;

use crate::feed::FeedItems;
use crate::store::{NoteModel, Store, StoreModel};
use crate::webhook::{push_plan_m, resolved_target, PushPlan, Webhooks};

verus! {

/// The durable intent to deliver one item to one target.
#[derive(Clone, Copy, Debug)]
pub struct Notification {
    pub feed_item_id: usize,
    pub webhook_id: usize,
}

/// The mathematical value of a `Notification`.
#[verifier::ext_equal]
pub struct NotificationModel {
    pub feed_item_id: int,
    pub webhook_id: int,
}

impl View for Notification {
    type V = NotificationModel;

    open spec fn view(&self) -> NotificationModel {
        NotificationModel {
            feed_item_id: self.feed_item_id as int,
            webhook_id: self.webhook_id as int,
        }
    }
}

impl DeepView for Notification {
    type V = NotificationModel;

    open spec fn deep_view(&self) -> NotificationModel {
        self.view()
    }
}

/// The pairs of the unsent rows of a notification table, in table order.
pub open spec fn unsent_pairs(notes: Seq<NoteModel>) -> Seq<NotificationModel> {
    notes.filter(|n: NoteModel| !n.sent).map_values(
        |n: NoteModel| NotificationModel { feed_item_id: n.feed_item_id, webhook_id: n.webhook_id },
    )
}

impl Notification {
    /// Enqueue this pair: insert-if-absent, with the given preset sent flag.
    pub fn save(&self, store: &mut Store, sent: bool)
        requires
            old(store)@.wf(),
            self.feed_item_id < old(store)@.items.len(),
            self.webhook_id < old(store)@.hooks.len(),
        ensures
            final(store)@ == old(store)@.enqueue_m(
                self.feed_item_id as int,
                self.webhook_id as int,
                sent,
            ),
            final(store)@.wf(),
    {
        store.save_notification(self.feed_item_id, self.webhook_id, sent)
    }

    /// Mark this pair's row sent at the given time.
    pub fn mark_as_sent(&self, store: &mut Store, now: u64)
        requires
            old(store)@.wf(),
        ensures
            final(store)@ == old(store)@.mark_sent_m(
                self.feed_item_id as int,
                self.webhook_id as int,
                now,
            ),
            final(store)@.wf(),
    {
        store.mark_sent(self.feed_item_id, self.webhook_id, now)
    }

    /// Resolve this pair's item and target and plan the delivery. `None`
    /// means a dangling id or an unresolvable stored url; nothing is sent
    /// for such a row.
    pub fn plan_send(&self, store: &Store) -> (r: Option<PushPlan>)
        ensures
            match r {
                Some(p) => self.feed_item_id < store@.items.len() && self.webhook_id
                    < store@.hooks.len() && (resolved_target(
                    store@.hooks[self.webhook_id as int],
                ) matches Some(k) && p@ == push_plan_m(
                    k,
                    store@.hooks[self.webhook_id as int],
                    store@.items[self.feed_item_id as int].item,
                )),
                None => self.feed_item_id >= store@.items.len() || self.webhook_id
                    >= store@.hooks.len() || resolved_target(
                    store@.hooks[self.webhook_id as int],
                ) is None,
            },
    {
        let item = match FeedItems::get(store, self.feed_item_id) {
            Some(i) => i,
            None => {
                return None;
            },
        };
        let hook = match Webhooks::get(store, self.webhook_id) {
            Some(h) => h,
            None => {
                return None;
            },
        };
        Some(hook.plan_push(&item))
    }

    /// Record one delivery attempt: success marks the row sent at `now`; a
    /// failure leaves the store exactly as it was, so the row stays queued
    /// and is retried on the next cycle.
    pub fn record_delivery(&self, store: &mut Store, delivered: bool, now: u64)
        requires
            old(store)@.wf(),
        ensures
            delivered ==> final(store)@ == old(store)@.mark_sent_m(
                self.feed_item_id as int,
                self.webhook_id as int,
                now,
            ),
            !delivered ==> final(store)@ == old(store)@,
            final(store)@.wf(),
    {
        if delivered {
            self.mark_as_sent(store, now);
        }
    }
}

/// Store-backed access to the queue.
#[derive(Debug)]
pub struct Notifications {}

impl Notifications {
    /// A snapshot of every unsent row, in table order.
    pub fn get_unsent(store: &Store) -> (r: Vec<Notification>)
        ensures
            r.deep_view() == unsent_pairs(store@.notes),
    {
        let mut r: Vec<Notification> = Vec::new();
        let mut k: usize = 0;
        while k < store.notifications.len()
            invariant
                k <= store.notifications.len(),
                r.deep_view() == unsent_pairs(store@.notes.take(k as int)),
            decreases store.notifications.len() - k,
        {
            let ghost prefix = store@.notes.take(k as int);
            let ghost prev = r.deep_view();
            if !store.notifications[k].sent {
                r.push(
                    Notification {
                        feed_item_id: store.notifications[k].feed_item_id,
                        webhook_id: store.notifications[k].webhook_id,
                    },
                );
            }
            proof {
                broadcast use Seq::lemma_filter_push;

                let n = store@.notes[k as int];
                assert(store@.notes.take(k + 1 as int) =~= prefix.push(n));
                if !n.sent {
                    assert(unsent_pairs(prefix.push(n)) =~= unsent_pairs(prefix).push(
                        NotificationModel {
                            feed_item_id: n.feed_item_id,
                            webhook_id: n.webhook_id,
                        },
                    ));
                    assert(r.deep_view() =~= prev.push(
                        NotificationModel {
                            feed_item_id: n.feed_item_id,
                            webhook_id: n.webhook_id,
                        },
                    ));
                } else {
                    assert(unsent_pairs(prefix.push(n)) =~= unsent_pairs(prefix));
                }
            }
            k += 1;
        }
        proof {
            assert(store@.notes.take(store@.notes.len() as int) =~= store@.notes);
        }
        r
    }
}

} // verus!
