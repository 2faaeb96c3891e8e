//! Shared state of the API server: the subscriber counts of the WebSocket
//! status feed.
//!
//! Each transaction ID counts how many subscriptions follow it; an ID leaves
//! the table when its last subscription goes.

use vstd::prelude::*;
use dashmap::DashMap;
use vstd::multiset::Multiset;
use crate::fees::FeeConfig;

verus! {

/// Capacity of the broadcast channel used for WebSocket status events.
pub const BROADCAST_CHANNEL_CAPACITY: usize = 1000;

/// The subscriber table: per transaction ID, its number of subscriptions.
pub type SubscriberMap = DashMap<String, usize>;

/// The subscriptions the table records: each ID as many times as it counts.
pub uninterp spec fn subscriptions_of(m: SubscriberMap) -> Multiset<Seq<char>>;

/// The IDs that have an entry in the table.
pub uninterp spec fn tracked_ids_of(m: SubscriberMap) -> Set<Seq<char>>;

/// `DashMap::new`: an empty table.
#[verifier::external_body]
fn subscribers_new() -> (r: SubscriberMap)
    ensures
        subscriptions_of(r) == Multiset::<Seq<char>>::empty(),
        tracked_ids_of(r) == Set::<Seq<char>>::empty(),
{
    DashMap::new()
}

/// `DashMap::get`, copying the count out: the count of `key` if it has an
/// entry.
#[verifier::external_body]
fn subscribers_get(m: &SubscriberMap, key: &str) -> (r: Option<usize>)
    ensures
        match r {
            Some(n) => tracked_ids_of(*m).contains(key@) && n == subscriptions_of(*m).count(key@),
            None => !tracked_ids_of(*m).contains(key@) && subscriptions_of(*m).count(key@) == 0,
        },
{
    m.get(key).map(|e| *e.value())
}

/// `DashMap::insert`: `key` now counts `n`; other keys are unchanged.
#[verifier::external_body]
fn subscribers_insert(m: &mut SubscriberMap, key: String, n: usize)
    ensures
        forall|w: Seq<char>| #[trigger] subscriptions_of(*final(m)).count(w) == if w == key@ {
            n as nat
        } else {
            subscriptions_of(*old(m)).count(w)
        },
        tracked_ids_of(*final(m)) == tracked_ids_of(*old(m)).insert(key@),
{
    m.insert(key, n);
}

/// `DashMap::remove`: `key` has no entry any more; other keys are unchanged.
#[verifier::external_body]
fn subscribers_remove(m: &mut SubscriberMap, key: &str)
    ensures
        forall|w: Seq<char>| #[trigger] subscriptions_of(*final(m)).count(w) == if w == key@ {
            0
        } else {
            subscriptions_of(*old(m)).count(w)
        },
        tracked_ids_of(*final(m)) == tracked_ids_of(*old(m)).remove(key@),
{
    m.remove(key);
}

/// `DashMap::len`: the number of entries.
#[verifier::external_body]
fn subscribers_len(m: &SubscriberMap) -> (r: usize)
    ensures
        r == tracked_ids_of(*m).len(),
{
    m.len()
}

/// `DashMap::iter`, keys only: every key with an entry, each once, in the
/// map's own order.
#[verifier::external_body]
fn subscribers_keys(m: &SubscriberMap) -> (r: Vec<String>)
    ensures
        r@.map_values(|k: String| k@).to_set() == tracked_ids_of(*m),
        r@.map_values(|k: String| k@).no_duplicates(),
{
    m.iter().map(|e| e.key().clone()).collect()
}

/// Removing every copy of `t` from `m` leaves a multiset smaller by the
/// count of `t`.
pub proof fn lemma_remove_all(m: Multiset<Seq<char>>, t: Seq<char>) -> (r: Multiset<Seq<char>>)
    ensures
        forall|w: Seq<char>| #[trigger] r.count(w) == if w == t {
            0
        } else {
            m.count(w)
        },
        r.len() == m.len() - m.count(t),
    decreases m.count(t),
{
    broadcast use vstd::multiset::group_multiset_axioms;
    if m.count(t) == 0 {
        m
    } else {
        let m1 = m.remove(t);
        assert(m1.count(t) == m.count(t) - 1);
        assert(Multiset::singleton(t).subset_of(m));
        lemma_remove_all(m1, t)
    }
}

/// The subscriber table with its total.
pub struct SubscriberTable {
    tx_subscribers: SubscriberMap,
    total: usize,
}

impl SubscriberTable {
    /// Every tracked ID counts at least one subscription, and the total is
    /// the number of subscriptions.
    pub closed spec fn wf(&self) -> bool {
        &&& tracked_ids_of(self.tx_subscribers) == subscriptions_of(self.tx_subscribers).dom()
        &&& self.total == subscriptions_of(self.tx_subscribers).len()
    }

    /// The subscriptions: each transaction ID as many times as it is
    /// followed.
    pub closed spec fn subscriptions(&self) -> Multiset<Seq<char>> {
        subscriptions_of(self.tx_subscribers)
    }

    /// A table with no subscriptions.
    pub fn new() -> (r: Self)
        ensures
            r.wf(),
            r.subscriptions() == Multiset::<Seq<char>>::empty(),
    {
        let r = SubscriberTable { tx_subscribers: subscribers_new(), total: 0 };
        proof {
            broadcast use vstd::multiset::group_multiset_axioms;
            assert(subscriptions_of(r.tx_subscribers).dom() =~= Set::<Seq<char>>::empty());
        }
        r
    }

    /// The total number of active subscriptions across all transaction IDs.
    pub fn active_subscriptions(&self) -> (r: usize)
        requires
            self.wf(),
        ensures
            r == self.subscriptions().len(),
    {
        self.total
    }

    /// The number of distinct transaction IDs currently followed.
    pub fn unique_tx_ids(&self) -> (r: usize)
        requires
            self.wf(),
        ensures
            r == self.subscriptions().dom().len(),
    {
        subscribers_len(&self.tx_subscribers)
    }

    /// Records one more subscription to `tx_id`.
    pub fn add_subscriber(&mut self, tx_id: String)
        requires
            old(self).wf(),
            old(self).subscriptions().len() < usize::MAX,
        ensures
            final(self).wf(),
            final(self).subscriptions() == old(self).subscriptions().insert(tx_id@),
    {
        broadcast use vstd::multiset::group_multiset_axioms;
        let ghost before = self.subscriptions();
        let n: usize = match subscribers_get(&self.tx_subscribers, tx_id.as_str()) {
            Some(n) => n,
            None => 0,
        };
        subscribers_insert(&mut self.tx_subscribers, tx_id, n + 1);
        self.total = self.total + 1;
        proof {
            assert forall|w: Seq<char>| #[trigger] self.subscriptions().count(w) == before.insert(tx_id@).count(w) by {
                assert(subscriptions_of(self.tx_subscribers).count(w) == self.subscriptions().count(w));
            }
            assert(self.subscriptions() =~= before.insert(tx_id@));
            assert(tracked_ids_of(self.tx_subscribers) =~= self.subscriptions().dom());
        }
    }

    /// The followed transaction IDs, each once, in no particular order.
    pub fn watched_tx_ids(&self) -> (r: Vec<String>)
        requires
            self.wf(),
        ensures
            r@.map_values(|k: String| k@).to_set() == self.subscriptions().dom(),
            r@.map_values(|k: String| k@).no_duplicates(),
    {
        subscribers_keys(&self.tx_subscribers)
    }

    /// Drops every subscription to `tx_id`.
    pub fn forget(&mut self, tx_id: &str)
        requires
            old(self).wf(),
        ensures
            final(self).wf(),
            forall|w: Seq<char>| #[trigger] final(self).subscriptions().count(w) == if w == tx_id@ {
                0
            } else {
                old(self).subscriptions().count(w)
            },
    {
        broadcast use vstd::multiset::group_multiset_axioms;
        let ghost before = self.subscriptions();
        match subscribers_get(&self.tx_subscribers, tx_id) {
            Some(n) => {
                subscribers_remove(&mut self.tx_subscribers, tx_id);
                proof {
                    let after = self.subscriptions();
                    let m = lemma_remove_all(before, tx_id@);
                    assert(after =~= m);
                    assert(tracked_ids_of(self.tx_subscribers) =~= after.dom());
                }
                self.total = self.total - n;
            },
            None => {},
        }
    }

    /// Records that one subscription to `tx_id` ended; the ID leaves the
    /// table with its last subscription. Nothing changes for an ID that is
    /// not followed.
    pub fn remove_subscriber(&mut self, tx_id: &str)
        requires
            old(self).wf(),
        ensures
            final(self).wf(),
            final(self).subscriptions() == old(self).subscriptions().remove(tx_id@),
    {
        broadcast use vstd::multiset::group_multiset_axioms;
        let ghost before = self.subscriptions();
        match subscribers_get(&self.tx_subscribers, tx_id) {
            Some(n) => {
                if n > 1 {
                    subscribers_insert(&mut self.tx_subscribers, tx_id.to_owned(), n - 1);
                } else {
                    subscribers_remove(&mut self.tx_subscribers, tx_id);
                }
                proof {
                    assert forall|w: Seq<char>| #[trigger] self.subscriptions().count(w) == before.remove(tx_id@).count(w) by {
                        assert(subscriptions_of(self.tx_subscribers).count(w) == self.subscriptions().count(w));
                    }
                }
                self.total = self.total - 1;
                proof {
                    assert(self.subscriptions() =~= before.remove(tx_id@));
                    assert(tracked_ids_of(self.tx_subscribers) =~= self.subscriptions().dom());
                }
            },
            None => {
                assert(before.remove(tx_id@) =~= before);
            },
        }
    }
}

/// The state of the API server that its handlers share.
pub struct AppState {
    pub router_core_contract_id: String,
    pub fee_config: FeeConfig,
    pub subscribers: SubscriberTable,
}

impl AppState {
    /// A state with no subscriptions.
    pub fn new(router_core_contract_id: String, fee_config: FeeConfig) -> (r: Self)
        ensures
            r.subscribers.wf(),
            r.subscribers.subscriptions() == Multiset::<Seq<char>>::empty(),
            r.router_core_contract_id@ == router_core_contract_id@,
            r.fee_config == fee_config,
    {
        AppState { router_core_contract_id, fee_config, subscribers: SubscriberTable::new() }
    }

    /// The fixed capacity of the broadcast channel.
    pub fn broadcast_channel_capacity(&self) -> (r: usize)
        ensures
            r == BROADCAST_CHANNEL_CAPACITY,
    {
        BROADCAST_CHANNEL_CAPACITY
    }

    /// The total number of active subscriptions across all transaction IDs.
    pub fn active_subscriptions(&self) -> (r: usize)
        requires
            self.subscribers.wf(),
        ensures
            r == self.subscribers.subscriptions().len(),
    {
        self.subscribers.active_subscriptions()
    }

    /// The number of distinct transaction IDs currently followed.
    pub fn unique_tx_ids(&self) -> (r: usize)
        requires
            self.subscribers.wf(),
        ensures
            r == self.subscribers.subscriptions().dom().len(),
    {
        self.subscribers.unique_tx_ids()
    }

    /// Records one more subscription to `tx_id`.
    pub fn add_subscriber(&mut self, tx_id: String)
        requires
            old(self).subscribers.wf(),
            old(self).subscribers.subscriptions().len() < usize::MAX,
        ensures
            final(self).subscribers.wf(),
            final(self).subscribers.subscriptions() == old(self).subscribers.subscriptions().insert(tx_id@),
            final(self).router_core_contract_id == old(self).router_core_contract_id,
            final(self).fee_config == old(self).fee_config,
    {
        self.subscribers.add_subscriber(tx_id);
    }

    /// Records that one subscription to `tx_id` ended.
    pub fn remove_subscriber(&mut self, tx_id: &str)
        requires
            old(self).subscribers.wf(),
        ensures
            final(self).subscribers.wf(),
            final(self).subscribers.subscriptions() == old(self).subscribers.subscriptions().remove(tx_id@),
            final(self).router_core_contract_id == old(self).router_core_contract_id,
            final(self).fee_config == old(self).fee_config,
    {
        self.subscribers.remove_subscriber(tx_id);
    }
}

/// Subscribing and then unsubscribing leaves the subscriptions as they were.
pub proof fn lemma_subscribe_then_unsubscribe(subs: Multiset<Seq<char>>, tx_id: Seq<char>)
    ensures
        subs.insert(tx_id).remove(tx_id) == subs,
{
    broadcast use vstd::multiset::group_multiset_axioms;
    assert(subs.insert(tx_id).remove(tx_id) =~= subs);
}

} // verus!
