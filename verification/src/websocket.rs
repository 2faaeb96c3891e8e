//! The WebSocket status feed: what a session does with each client message
//! and each status event, and the sizing of its fan-in channel.
//!
//! The caller owns the socket, the relay tasks and the channel: it reads a
//! message or an event, hands it to the session, and carries out the
//! actions the session returns, in order.

use vstd::prelude::*;
use crate::poller::{parse_positive_setting, spec_positive_setting};
use crate::state::AppState;
use crate::text::{opt_str_view, str_eq};
use crate::types::{SubscribeMessage, TransactionStatusEvent};
use vstd::multiset::Multiset;

verus! {

/// Fan-in channel capacity when none is configured.
pub const DEFAULT_WS_FAN_IN_CAPACITY: usize = 1000;

/// The variable that configures the fan-in capacity.
pub const WS_FAN_IN_CAPACITY_ENV: &'static str = "WS_FAN_IN_CHANNEL_CAPACITY";

/// Reads the fan-in capacity: a positive integer (surrounding whitespace
/// allowed), else [`DEFAULT_WS_FAN_IN_CAPACITY`].
pub fn parse_websocket_fan_in_capacity(value: Option<&str>) -> (r: usize)
    ensures
        r == spec_positive_setting(opt_str_view(value), usize::MAX as int, DEFAULT_WS_FAN_IN_CAPACITY as int),
{
    let n = parse_positive_setting(value, usize::MAX as u64, DEFAULT_WS_FAN_IN_CAPACITY as u64);
    n as usize
}

/// Remaining capacity at or below which the fan-in channel is reported as
/// nearly full: a tenth of its size, at least one slot.
pub fn fan_in_warning_threshold(max_capacity: usize) -> (r: usize)
    ensures
        r == (if max_capacity / 10 >= 1 {
            max_capacity / 10
        } else {
            1
        }),
{
    let t = max_capacity / 10;
    if t >= 1 {
        t
    } else {
        1
    }
}

/// Whether a relay should warn that the fan-in channel is nearly full.
pub fn fan_in_near_capacity(remaining_capacity: usize, max_capacity: usize) -> (b: bool)
    ensures
        b == (remaining_capacity <= (if max_capacity / 10 >= 1 {
            max_capacity / 10
        } else {
            1
        })),
{
    remaining_capacity <= fan_in_warning_threshold(max_capacity)
}

/// What the caller of a session does, in order.
#[derive(Debug, Clone, PartialEq, Eq)]
pub enum WsAction {
    /// Start a relay forwarding the events of this transaction.
    StartRelay(String),
    /// Stop the relay of this transaction.
    CancelRelay(String),
    /// Confirm a subscription to the client.
    SendSubscribed(String),
    /// Confirm an unsubscription to the client.
    SendUnsubscribed(String),
    /// Forward the status event at this position of the session's input.
    ForwardEvent,
    /// End the session.
    Close,
}

/// What the client sent, as the session sees it.
#[derive(Debug, Clone)]
pub enum ClientInput {
    /// A text message that parsed as a subscribe message.
    Message(SubscribeMessage),
    /// A text message that did not parse.
    Unparsable,
    /// A close frame, or the end of the stream.
    Closed,
    /// A transport error.
    Error,
    /// Any other frame (binary, ping, pong).
    Other,
}

/// The state of one WebSocket session: the transactions it follows, in the
/// order they were subscribed, each once.
pub struct WsSession {
    subscriptions: Vec<String>,
}

/// Whether `ids` holds no transaction twice.
pub open spec fn distinct(ids: Seq<Seq<char>>) -> bool {
    forall|i: int, j: int| 0 <= i < j < ids.len() ==> ids[i] != ids[j]
}

/// `ids` without the one occurrence of `id`.
pub open spec fn without(ids: Seq<Seq<char>>, id: Seq<char>) -> Seq<Seq<char>> {
    ids.filter(other_than(id))
}

/// The test that keeps every transaction but `id`.
pub open spec fn other_than(id: Seq<char>) -> spec_fn(Seq<char>) -> bool {
    |x: Seq<char>| x != id
}

fn position_of(ids: &Vec<String>, id: &str) -> (r: Option<usize>)
    ensures
        match r {
            Some(i) => i < ids@.len() && ids@[i as int]@ == id@ && forall|j: int|
                0 <= j < i ==> ids@[j]@ != id@,
            None => forall|j: int| 0 <= j < ids@.len() ==> ids@[j]@ != id@,
        },
{
    for i in 0..ids.len()
        invariant
            forall|j: int| 0 <= j < i ==> ids@[j]@ != id@,
    {
        if str_eq(ids[i].as_str(), id) {
            return Some(i);
        }
    }
    None
}

impl WsSession {
    /// The followed transactions, in subscription order.
    pub closed spec fn followed(&self) -> Seq<Seq<char>> {
        self.subscriptions@.map_values(|s: String| s@)
    }

    /// The session follows each transaction at most once.
    pub open spec fn wf(&self) -> bool {
        distinct(self.followed())
    }

    /// A session that follows nothing.
    pub fn new() -> (r: Self)
        ensures
            r.wf(),
            r.followed() == Seq::<Seq<char>>::empty(),
    {
        let r = WsSession { subscriptions: Vec::new() };
        assert(r.followed() =~= Seq::<Seq<char>>::empty());
        r
    }

    /// Whether the session follows `tx_id`.
    pub fn follows(&self, tx_id: &str) -> (b: bool)
        ensures
            b == self.followed().contains(tx_id@),
    {
        let r = position_of(&self.subscriptions, tx_id);
        proof {
            if let Some(i) = r {
                assert(self.followed()[i as int] == tx_id@);
            }
            if r is None && self.followed().contains(tx_id@) {
                let k = choose|k: int| 0 <= k < self.followed().len() && self.followed()[k] == tx_id@;
                assert(self.subscriptions@[k]@ == tx_id@);
            }
        }
        r.is_some()
    }

    /// Handles what the client sent.
    ///
    /// A `subscribe` starts following the transaction and counts one more
    /// subscriber; a repeated `subscribe` of a transaction the session
    /// already follows is only confirmed, so that the table counts each
    /// session once per transaction and a close releases all it added. An
    /// `unsubscribe`
    /// stops following it and counts one subscriber less; both are confirmed
    /// to the client. Other actions and unparsable messages are ignored. On
    /// close every followed transaction is released; on a transport error the
    /// session just ends.
    pub fn on_client(&mut self, state: &mut AppState, input: ClientInput) -> (r: Vec<WsAction>)
        requires
            old(self).wf(),
            old(state).subscribers.wf(),
            old(state).subscribers.subscriptions().len() < usize::MAX,
        ensures
            final(self).wf(),
            final(state).subscribers.wf(),
            final(state).router_core_contract_id == old(state).router_core_contract_id,
            final(state).fee_config == old(state).fee_config,
            match input {
                ClientInput::Message(m) => if m.action@ == "subscribe"@ {
                    &&& if old(self).followed().contains(m.tx_id@) {
                        &&& final(state).subscribers.subscriptions() == old(state).subscribers.subscriptions()
                        &&& final(self).followed() == old(self).followed()
                        &&& r@ == seq![WsAction::SendSubscribed(m.tx_id)]
                    } else {
                        &&& final(state).subscribers.subscriptions() == old(state).subscribers.subscriptions().insert(m.tx_id@)
                        &&& final(self).followed() == old(self).followed().push(m.tx_id@)
                        &&& r@.len() == 2
                        &&& r@[0] matches WsAction::StartRelay(id) && id@ == m.tx_id@
                        &&& r@[1] matches WsAction::SendSubscribed(id) && id@ == m.tx_id@
                    }
                } else if m.action@ == "unsubscribe"@ {
                    &&& final(state).subscribers.subscriptions() == old(state).subscribers.subscriptions().remove(m.tx_id@)
                    &&& final(self).followed() == without(old(self).followed(), m.tx_id@)
                    &&& if old(self).followed().contains(m.tx_id@) {
                        &&& r@.len() == 2
                        &&& r@[0] matches WsAction::CancelRelay(id) && id@ == m.tx_id@
                        &&& r@[1] matches WsAction::SendUnsubscribed(id) && id@ == m.tx_id@
                    } else {
                        &&& r@.len() == 1
                        &&& r@[0] matches WsAction::SendUnsubscribed(id) && id@ == m.tx_id@
                    }
                } else {
                    &&& final(state).subscribers.subscriptions() == old(state).subscribers.subscriptions()
                    &&& final(self).followed() == old(self).followed()
                    &&& r@.len() == 0
                },
                ClientInput::Closed => {
                    &&& final(self).followed() == Seq::<Seq<char>>::empty()
                    &&& final(state).subscribers.subscriptions() == old(state).subscribers.subscriptions().sub(
                        old(self).followed().to_multiset())
                    &&& r@.len() == old(self).followed().len() + 1
                    &&& forall|i: int| 0 <= i < old(self).followed().len() ==> (#[trigger] r@[i] matches WsAction::CancelRelay(id)
                        && id@ == old(self).followed()[i])
                    &&& r@.last() == WsAction::Close
                },
                ClientInput::Error => {
                    &&& final(self).followed() == old(self).followed()
                    &&& final(state).subscribers.subscriptions() == old(state).subscribers.subscriptions()
                    &&& r@ == seq![WsAction::Close]
                },
                _ => {
                    &&& final(self).followed() == old(self).followed()
                    &&& final(state).subscribers.subscriptions() == old(state).subscribers.subscriptions()
                    &&& r@.len() == 0
                },
            },
    {
        let mut out: Vec<WsAction> = Vec::new();
        match input {
            ClientInput::Message(m) => {
                proof {
                    reveal_strlit("subscribe");
                    reveal_strlit("unsubscribe");
                }
                if str_eq(m.action.as_str(), "subscribe") {
                    let already = self.follows(m.tx_id.as_str());
                    if !already {
                        state.add_subscriber(m.tx_id.clone());
                        let ghost before = self.subscriptions@;
                        self.subscriptions.push(m.tx_id.clone());
                        assert(self.followed() == before.map_values(|s: String| s@).push(m.tx_id@));
                        out.push(WsAction::StartRelay(m.tx_id.clone()));
                    }
                    out.push(WsAction::SendSubscribed(m.tx_id));
                } else if str_eq(m.action.as_str(), "unsubscribe") {
                    match position_of(&self.subscriptions, m.tx_id.as_str()) {
                        Some(pos) => {
                            let ghost before = self.followed();
                            let removed = self.subscriptions.remove(pos);
                            proof {
                                assert(before[pos as int] == m.tx_id@);
                                lemma_remove_first(before, m.tx_id@, pos as int);
                                assert(self.followed() == before.remove(pos as int));
                            }
                            out.push(WsAction::CancelRelay(removed));
                        },
                        None => {
                            proof {
                                let f = self.followed();
                                assert(forall|j: int| 0 <= j < f.len() ==> f[j] != m.tx_id@);
                                assert(without(f, m.tx_id@) =~= f) by {
                                    lemma_filter_keeps_all(f, m.tx_id@);
                                }
                            }
                        },
                    }
                    state.remove_subscriber(m.tx_id.as_str());
                    out.push(WsAction::SendUnsubscribed(m.tx_id));
                }
            },
            ClientInput::Closed => {
                let ghost start_subs = state.subscribers.subscriptions();
                let ghost ids = self.followed();
                let n = self.subscriptions.len();
                proof {
                    broadcast use {vstd::multiset::group_multiset_axioms, vstd::seq_lib::group_to_multiset_ensures};
                    assert(ids.take(0) =~= Seq::<Seq<char>>::empty());
                    assert(ids.take(0).to_multiset() =~= Multiset::<Seq<char>>::empty());
                    assert(start_subs.sub(ids.take(0).to_multiset()) =~= start_subs);
                }
                for i in 0..n
                    invariant
                        n == self.subscriptions@.len(),
                        ids == self.followed(),
                        state.subscribers.wf(),
                        state.router_core_contract_id == old(state).router_core_contract_id,
                        state.fee_config == old(state).fee_config,
                        state.subscribers.subscriptions() == start_subs.sub(ids.take(i as int).to_multiset()),
                        out@.len() == i,
                        forall|j: int| 0 <= j < i ==> (#[trigger] out@[j] matches WsAction::CancelRelay(id)
                            && id@ == ids[j]),
                {
                    let id = self.subscriptions[i].clone();
                    proof {
                        lemma_sub_prefix_step(start_subs, ids, i as int);
                    }
                    state.remove_subscriber(id.as_str());
                    out.push(WsAction::CancelRelay(id));
                }
                assert(ids.take(n as int) == ids);
                self.subscriptions = Vec::new();
                assert(self.followed() =~= Seq::<Seq<char>>::empty());
                out.push(WsAction::Close);
            },
            ClientInput::Error => {
                out.push(WsAction::Close);
            },
            _ => {},
        }
        out
    }

    /// Handles a status event from a relay: it is forwarded only while the
    /// session still follows its transaction.
    pub fn on_event(&self, event: &TransactionStatusEvent) -> (forward: bool)
        ensures
            forward == self.followed().contains(event.tx_id@),
    {
        self.follows(event.tx_id.as_str())
    }
}

/// Once a session unsubscribed from a transaction it no longer follows it,
/// so no further event of that transaction is forwarded; the others stay.
pub proof fn lemma_unsubscribed_events_are_not_forwarded(followed: Seq<Seq<char>>, tx_id: Seq<char>)
    ensures
        !without(followed, tx_id).contains(tx_id),
        forall|other: Seq<char>| other != tx_id ==> (#[trigger] without(followed, tx_id).contains(other)
            <==> followed.contains(other)),
{
    let pred = other_than(tx_id);
    let w = without(followed, tx_id);
    if w.contains(tx_id) {
        let i = choose|i: int| 0 <= i < w.len() && w[i] == tx_id;
        followed.lemma_filter_pred(pred, i);
    }
    assert forall|other: Seq<char>| other != tx_id implies (#[trigger] without(followed, tx_id).contains(other)
        <==> followed.contains(other)) by {
        if followed.contains(other) {
            let i = choose|i: int| 0 <= i < followed.len() && followed[i] == other;
            followed.lemma_filter_contains(pred, i);
        }
        if w.contains(other) {
            followed.lemma_filter_contains_rev(pred, other);
        }
    }
}

/// The subscriber table holds what the other sessions counted plus one count
/// for each transaction a session follows: a first `subscribe` adds exactly
/// that count, a repeated one adds nothing, and a close takes the session's
/// counts away, leaving the table as the other sessions had it. So a session
/// that subscribes to a transaction twice and then closes leaves the table as
/// it found it.
pub proof fn lemma_close_releases_session_counts(
    others: Multiset<Seq<char>>,
    followed: Seq<Seq<char>>,
    tx_id: Seq<char>,
)
    ensures
        !followed.contains(tx_id) ==> others.add(followed.to_multiset()).insert(tx_id)
            == others.add(followed.push(tx_id).to_multiset()),
        others.add(followed.to_multiset()).sub(followed.to_multiset()) == others,
        others.insert(tx_id).sub(seq![tx_id].to_multiset()) == others,
{
    broadcast use {vstd::multiset::group_multiset_axioms, vstd::seq_lib::group_to_multiset_ensures};
    assert(others.add(followed.to_multiset()).insert(tx_id) =~= others.add(followed.push(tx_id).to_multiset()));
    assert(others.add(followed.to_multiset()).sub(followed.to_multiset()) =~= others);
    assert(seq![tx_id] == Seq::<Seq<char>>::empty().push(tx_id));
    assert(Seq::<Seq<char>>::empty().to_multiset() =~= Multiset::<Seq<char>>::empty());
    assert(seq![tx_id].to_multiset() =~= Multiset::<Seq<char>>::empty().insert(tx_id));
    assert(others.insert(tx_id).sub(seq![tx_id].to_multiset()) =~= others);
}

proof fn lemma_filter_keeps_all(s: Seq<Seq<char>>, id: Seq<char>)
    requires
        forall|j: int| 0 <= j < s.len() ==> s[j] != id,
    ensures
        without(s, id) == s,
    decreases s.len(),
{
    reveal(Seq::filter);
    if s.len() > 0 {
        lemma_filter_keeps_all(s.drop_last(), id);
        assert(s.drop_last().push(s.last()) =~= s);
    }
}

proof fn lemma_remove_first(s: Seq<Seq<char>>, id: Seq<char>, pos: int)
    requires
        0 <= pos < s.len(),
        s[pos] == id,
        distinct(s),
    ensures
        without(s, id) == s.remove(pos),
    decreases s.len(),
{
    reveal(Seq::filter);
    if pos == s.len() - 1 {
        assert(s.drop_last() == s.remove(pos));
        lemma_filter_keeps_all(s.drop_last(), id);
    } else {
        lemma_remove_first(s.drop_last(), id, pos);
        assert(s.remove(pos) =~= s.drop_last().remove(pos).push(s.last()));
    }
}

proof fn lemma_sub_prefix_step(m: Multiset<Seq<char>>, ids: Seq<Seq<char>>, i: int)
    requires
        0 <= i < ids.len(),
    ensures
        m.sub(ids.take(i + 1).to_multiset()) == m.sub(ids.take(i).to_multiset()).remove(ids[i]),
{
    broadcast use {vstd::multiset::group_multiset_axioms, vstd::seq_lib::group_to_multiset_ensures};
    assert(ids.take(i + 1) == ids.take(i).push(ids[i]));
    assert(ids.take(i + 1).to_multiset() =~= ids.take(i).to_multiset().insert(ids[i]));
    assert(m.sub(ids.take(i + 1).to_multiset()) =~= m.sub(ids.take(i).to_multiset()).remove(ids[i]));
}

} // verus!
