//! Transaction-status polling: terminal states, status messages, timestamps
//! and the polling interval.

use vstd::prelude::*;
use crate::state::AppState;
use crate::calendar::{days_to_ymd, is_civil_date_of};
use crate::text::{chars_of, trim_chars, parse_unsigned, spec_parse_unsigned, spec_trim, spec_zero_pad, spec_decimal, zero_padded, push_chars, push_char};
use crate::types::{TransactionStatus, TransactionStatusEvent};
use vstd::multiset::Multiset;

verus! {

/// Polling interval used when `TX_POLL_INTERVAL_MS` is absent or invalid.
pub const DEFAULT_POLL_INTERVAL_MS: u64 = 2_000;

/// `Confirmed` and `Failed` never change again, so they are not polled again.
pub fn is_terminal(status: TransactionStatus) -> (b: bool)
    ensures
        b == (status == TransactionStatus::Confirmed || status == TransactionStatus::Failed),
{
    match status {
        TransactionStatus::Confirmed | TransactionStatus::Failed => true,
        _ => false,
    }
}

pub open spec fn spec_status_message(status: TransactionStatus) -> Seq<char> {
    match status {
        TransactionStatus::Pending => "Transaction not yet visible on ledger"@,
        TransactionStatus::Submitted => "Transaction submitted, awaiting inclusion"@,
        TransactionStatus::Confirmed => "Transaction confirmed on ledger"@,
        TransactionStatus::Failed => "Transaction failed"@,
    }
}

/// The human-readable description sent along with each status.
pub fn status_message(status: TransactionStatus) -> (r: Option<String>)
    ensures
        r matches Some(m) && m@ == spec_status_message(status),
{
    let msg: &str = match status {
        TransactionStatus::Pending => "Transaction not yet visible on ledger",
        TransactionStatus::Submitted => "Transaction submitted, awaiting inclusion",
        TransactionStatus::Confirmed => "Transaction confirmed on ledger",
        TransactionStatus::Failed => "Transaction failed",
    };
    Some(msg.to_owned())
}

/// `YYYY-MM-DDTHH:MM:SSZ`, each field zero-padded (the year to at least four digits).
pub open spec fn iso8601_text(y: int, mo: int, d: int, h: int, mi: int, s: int) -> Seq<char> {
    spec_zero_pad(spec_decimal(y as nat), 4) + seq!['-'] + spec_zero_pad(spec_decimal(mo as nat), 2)
        + seq!['-'] + spec_zero_pad(spec_decimal(d as nat), 2) + seq!['T'] + spec_zero_pad(
        spec_decimal(h as nat),
        2,
    ) + seq![':'] + spec_zero_pad(spec_decimal(mi as nat), 2) + seq![':'] + spec_zero_pad(
        spec_decimal(s as nat),
        2,
    ) + seq!['Z']
}

/// The text for `secs` seconds after the epoch, on the date `(y, m, d)`.
pub open spec fn iso8601_of_secs(secs: int, y: int, m: int, d: int) -> Seq<char> {
    iso8601_text(y, m, d, (secs % 86_400) / 3_600, ((secs % 86_400) % 3_600) / 60, (secs % 86_400) % 60)
}

/// Formats a Unix timestamp (seconds) as an ISO 8601 UTC string.
pub fn seconds_to_iso8601(secs: u64) -> (r: String)
    ensures
        exists|y: int, m: int, d: int|
            is_civil_date_of(secs as int / 86_400, y, m, d) && r@ == iso8601_of_secs(secs as int, y, m, d),
{
    let days = secs / 86_400;
    let time_of_day = secs % 86_400;
    let h = time_of_day / 3_600;
    let m = (time_of_day % 3_600) / 60;
    let s = time_of_day % 60;
    let (year, month, day) = days_to_ymd(days);
    let mut out = String::new();
    push_chars(&mut out, &zero_padded(year, 4));
    push_char(&mut out, '-');
    push_chars(&mut out, &zero_padded(month, 2));
    push_char(&mut out, '-');
    push_chars(&mut out, &zero_padded(day, 2));
    push_char(&mut out, 'T');
    push_chars(&mut out, &zero_padded(h, 2));
    push_char(&mut out, ':');
    push_chars(&mut out, &zero_padded(m, 2));
    push_char(&mut out, ':');
    push_chars(&mut out, &zero_padded(s, 2));
    push_char(&mut out, 'Z');
    assert(out@ == iso8601_of_secs(secs as int, year as int, month as int, day as int));
    assert(is_civil_date_of(secs as int / 86_400, year as int, month as int, day as int));
    out
}

/// The current UTC time as an ISO 8601 string.
pub fn iso8601_now() -> (r: String)
    ensures
        exists|secs: u64, y: int, m: int, d: int|
            is_civil_date_of(secs as int / 86_400, y, m, d) && r@ == iso8601_of_secs(secs as int, y, m, d),
{
    let secs = crate::replay_protection::current_timestamp();
    seconds_to_iso8601(secs)
}

/// Positive integer read from a trimmed setting, else `default`.
pub open spec fn spec_positive_setting(value: Option<Seq<char>>, max: int, default: int) -> int {
    match value {
        Some(v) => match spec_parse_unsigned(spec_trim(v), max) {
            Some(n) => if n > 0 {
                n
            } else {
                default
            },
            None => default,
        },
        None => default,
    }
}

/// Reads a positive unsigned setting, falling back to `default` when it is
/// absent, not a number, or zero.
pub fn parse_positive_setting(value: Option<&str>, max: u64, default: u64) -> (r: u64)
    ensures
        r == spec_positive_setting(
            match value {
                Some(v) => Some(v@),
                None => None,
            },
            max as int,
            default as int,
        ),
        r == default || r <= max,
{
    match value {
        None => default,
        Some(v) => {
            let c = chars_of(v);
            let t = trim_chars(&c);
            match parse_unsigned(&t, max) {
                Some(n) => if n > 0 {
                    n
                } else {
                    default
                },
                None => default,
            }
        },
    }
}

/// Parses `TX_POLL_INTERVAL_MS`, falling back to 2000 ms when the value is
/// absent, non-numeric, or zero.
pub fn parse_poll_interval_ms(value: Option<&str>) -> (r: u64)
    ensures
        r == spec_positive_setting(
            match value {
                Some(v) => Some(v@),
                None => None,
            },
            u64::MAX as int,
            2000,
        ),
{
    parse_positive_setting(value, u64::MAX, DEFAULT_POLL_INTERVAL_MS)
}

/// What one polling round does with a transaction whose status it read:
/// the event to broadcast, and whether to stop watching the transaction.
pub fn poll_outcome(tx_id: &str, status: TransactionStatus, timestamp: String) -> (r: (
    TransactionStatusEvent,
    bool,
))
    ensures
        r.0.tx_id@ == tx_id@,
        r.0.status == status,
        r.0.timestamp == timestamp,
        r.0.message matches Some(m) && m@ == spec_status_message(status),
        r.1 == (status == TransactionStatus::Confirmed || status == TransactionStatus::Failed),
{
    let event = TransactionStatusEvent {
        tx_id: tx_id.to_owned(),
        status,
        timestamp,
        message: status_message(status),
    };
    (event, is_terminal(status))
}

/// Whether a status query answered with a terminal state (`None`: the query
/// failed).
pub open spec fn answered_terminal(answer: Option<TransactionStatus>) -> bool {
    answer matches Some(st) && (st == TransactionStatus::Confirmed || st == TransactionStatus::Failed)
}

/// What one step of a polling round does to the subscription counts: a
/// transaction answered with a terminal state is dropped with all its
/// subscriptions; anything else leaves the counts as they were.
pub open spec fn poll_step_relation(
    before: Multiset<Seq<char>>,
    after: Multiset<Seq<char>>,
    tx_id: Seq<char>,
    answer: Option<TransactionStatus>,
) -> bool {
    if answered_terminal(answer) {
        forall|w: Seq<char>| #[trigger] after.count(w) == if w == tx_id {
            0
        } else {
            before.count(w)
        }
    } else {
        after == before
    }
}

/// A polling round: when each step of it is a [`TxStatusPoller::poll_step`]
/// on the transaction and answer at that position, the round ends with every
/// transaction that was answered with a terminal state gone, and every other
/// transaction with the count it had before the round.
pub proof fn lemma_poll_round(
    states: Seq<Multiset<Seq<char>>>,
    answers: Seq<(Seq<char>, Option<TransactionStatus>)>,
)
    requires
        states.len() == answers.len() + 1,
        forall|i: int| 0 <= i < answers.len() ==> poll_step_relation(
            states[i],
            states[i + 1],
            (#[trigger] answers[i]).0,
            answers[i].1,
        ),
    ensures
        forall|w: Seq<char>| #[trigger] states.last().count(w) == if exists|i: int|
            0 <= i < answers.len() && (#[trigger] answers[i]).0 == w && answered_terminal(answers[i].1) {
            0
        } else {
            states[0].count(w)
        },
    decreases answers.len(),
{
    if answers.len() > 0 {
        let n = answers.len() - 1;
        let ss = states.drop_last();
        let aa = answers.drop_last();
        assert forall|i: int| 0 <= i < aa.len() implies poll_step_relation(
            ss[i],
            ss[i + 1],
            (#[trigger] aa[i]).0,
            aa[i].1,
        ) by {
            assert(aa[i] == answers[i]);
            assert(ss[i] == states[i] && ss[i + 1] == states[i + 1]);
        }
        lemma_poll_round(ss, aa);
        assert(poll_step_relation(states[n], states[n + 1], answers[n].0, answers[n].1));
        assert(ss.last() == states[n]);
        assert(ss[0] == states[0]);
        assert forall|w: Seq<char>| #[trigger] states.last().count(w) == if exists|i: int|
            0 <= i < answers.len() && (#[trigger] answers[i]).0 == w && answered_terminal(answers[i].1) {
            0
        } else {
            states[0].count(w)
        } by {
            let in_all = exists|i: int| 0 <= i < answers.len() && (#[trigger] answers[i]).0 == w && answered_terminal(answers[i].1);
            let in_rest = exists|i: int| 0 <= i < aa.len() && (#[trigger] aa[i]).0 == w && answered_terminal(aa[i].1);
            if in_rest {
                let i = choose|i: int| 0 <= i < aa.len() && (#[trigger] aa[i]).0 == w && answered_terminal(aa[i].1);
                assert(aa[i] == answers[i]);
            }
            if in_all && !in_rest {
                let i = choose|i: int| 0 <= i < answers.len() && (#[trigger] answers[i]).0 == w && answered_terminal(answers[i].1);
                if i < n {
                    assert(aa[i] == answers[i]);
                }
            }
            if !in_all && answers[n].0 == w && answered_terminal(answers[n].1) {
                assert(answers[n].0 == w);
            }
            assert(states.last() == states[n + 1]);
        }
    }
}

/// The polling schedule of the transaction-status poller.
#[derive(Debug, Clone, Copy, PartialEq, Eq)]
pub struct TxStatusPoller {
    pub interval_ms: u64,
}

impl TxStatusPoller {
    /// A poller whose interval is read from `TX_POLL_INTERVAL_MS` (its value
    /// is `interval_var`), 2000 ms when absent, invalid or zero.
    pub fn new(interval_var: Option<&str>) -> (r: Self)
        ensures
            r.interval_ms == spec_positive_setting(crate::text::opt_str_view(interval_var), u64::MAX as int, 2000),
    {
        TxStatusPoller { interval_ms: parse_poll_interval_ms(interval_var) }
    }

    /// A poller with an explicit interval.
    pub fn with_interval_ms(interval_ms: u64) -> (r: Self)
        ensures
            r.interval_ms == interval_ms,
    {
        TxStatusPoller { interval_ms }
    }

    /// One transaction of a polling round, given what the status query gave:
    /// on an answer, the event to broadcast, and a transaction in a terminal
    /// state stops being watched; a failed query changes nothing and is
    /// retried next round.
    pub fn poll_step(&self, state: &mut AppState, tx_id: &str, status: Result<TransactionStatus, String>, timestamp: String) -> (r: Option<TransactionStatusEvent>)
        requires
            old(state).subscribers.wf(),
        ensures
            final(state).subscribers.wf(),
            final(state).router_core_contract_id == old(state).router_core_contract_id,
            final(state).fee_config == old(state).fee_config,
            poll_step_relation(
                old(state).subscribers.subscriptions(),
                final(state).subscribers.subscriptions(),
                tx_id@,
                match status {
                    Ok(st) => Some(st),
                    Err(_) => None,
                },
            ),
            match status {
                Err(_) => r is None && final(state).subscribers.subscriptions() == old(state).subscribers.subscriptions(),
                Ok(st) => {
                    &&& r matches Some(ev) && ev.tx_id@ == tx_id@ && ev.status == st && ev.timestamp == timestamp
                        && (ev.message matches Some(m) && m@ == spec_status_message(st))
                    &&& if st == TransactionStatus::Confirmed || st == TransactionStatus::Failed {
                        forall|w: Seq<char>| #[trigger] final(state).subscribers.subscriptions().count(w) == if w == tx_id@ {
                            0
                        } else {
                            old(state).subscribers.subscriptions().count(w)
                        }
                    } else {
                        final(state).subscribers.subscriptions() == old(state).subscribers.subscriptions()
                    }
                },
            },
    {
        match status {
            Err(_) => None,
            Ok(st) => {
                let (event, terminal) = poll_outcome(tx_id, st, timestamp);
                if terminal {
                    state.subscribers.forget(tx_id);
                }
                Some(event)
            },
        }
    }
}

} // verus!
