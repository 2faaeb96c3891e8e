use stellar_router::poller::{
    is_terminal, parse_poll_interval_ms, poll_outcome, seconds_to_iso8601, status_message,
    TxStatusPoller, DEFAULT_POLL_INTERVAL_MS,
};
use stellar_router::fees::FeeConfig;
use stellar_router::state::AppState;
use stellar_router::types::TransactionStatus;

#[test]
fn parse_poll_interval_uses_default_for_missing_value() {
    assert_eq!(parse_poll_interval_ms(None), DEFAULT_POLL_INTERVAL_MS);
}

#[test]
fn parse_poll_interval_uses_default_for_zero() {
    assert_eq!(parse_poll_interval_ms(Some("0")), DEFAULT_POLL_INTERVAL_MS);
}

#[test]
fn parse_poll_interval_uses_default_for_invalid_value() {
    assert_eq!(parse_poll_interval_ms(Some("not-a-number")), DEFAULT_POLL_INTERVAL_MS);
}

#[test]
fn parse_poll_interval_accepts_valid_value() {
    assert_eq!(parse_poll_interval_ms(Some("500")), 500);
    assert_eq!(parse_poll_interval_ms(Some("  1000  ")), 1_000);
}

#[test]
fn confirmed_and_failed_are_terminal() {
    assert!(is_terminal(TransactionStatus::Confirmed));
    assert!(is_terminal(TransactionStatus::Failed));
}

#[test]
fn pending_and_submitted_are_not_terminal() {
    assert!(!is_terminal(TransactionStatus::Pending));
    assert!(!is_terminal(TransactionStatus::Submitted));
}

#[test]
fn iso8601_unix_epoch_formats_correctly() {
    assert_eq!(seconds_to_iso8601(0), "1970-01-01T00:00:00Z");
}

#[test]
fn iso8601_known_timestamp_formats_correctly() {
    assert_eq!(seconds_to_iso8601(1_753_142_400), "2025-07-22T00:00:00Z");
    assert_eq!(seconds_to_iso8601(1_784_678_400), "2026-07-22T00:00:00Z");
}

#[test]
fn status_messages_are_present_for_all_variants() {
    for status in [
        TransactionStatus::Pending,
        TransactionStatus::Submitted,
        TransactionStatus::Confirmed,
        TransactionStatus::Failed,
    ] {
        assert!(status_message(status).is_some(), "missing message for {:?}", status);
    }
}

#[test]
fn status_messages_match_each_status() {
    assert_eq!(status_message(TransactionStatus::Pending).unwrap(), "Transaction not yet visible on ledger");
    assert_eq!(status_message(TransactionStatus::Submitted).unwrap(), "Transaction submitted, awaiting inclusion");
    assert_eq!(status_message(TransactionStatus::Confirmed).unwrap(), "Transaction confirmed on ledger");
    assert_eq!(status_message(TransactionStatus::Failed).unwrap(), "Transaction failed");
}

#[test]
fn iso8601_formats_time_of_day_and_leap_day() {
    assert_eq!(seconds_to_iso8601(951_782_400 + 3_661), "2000-02-29T01:01:01Z");
    assert_eq!(seconds_to_iso8601(86_399), "1970-01-01T23:59:59Z");
    assert_eq!(seconds_to_iso8601(4_107_542_400), "2100-03-01T00:00:00Z");
}

#[test]
fn poll_outcome_marks_terminal_statuses() {
    let (event, terminal) = poll_outcome("tx1", TransactionStatus::Confirmed, "t".to_string());
    assert_eq!(event.tx_id, "tx1");
    assert_eq!(event.status, TransactionStatus::Confirmed);
    assert_eq!(event.message.as_deref(), Some("Transaction confirmed on ledger"));
    assert!(terminal);
    let (_, terminal) = poll_outcome("tx1", TransactionStatus::Pending, "t".to_string());
    assert!(!terminal);
}

#[test]
fn poll_step_forgets_terminal_transactions() {
    let mut state = AppState::new("C".to_string(), FeeConfig::default());
    state.add_subscriber("tx1".to_string());
    state.add_subscriber("tx1".to_string());
    state.add_subscriber("tx2".to_string());
    let poller = TxStatusPoller::with_interval_ms(10);
    assert_eq!(poller.interval_ms, 10);
    let ev = poller.poll_step(&mut state, "tx2", Ok(TransactionStatus::Pending), "t".to_string());
    assert!(ev.is_some());
    assert_eq!(state.active_subscriptions(), 3);
    let ev = poller.poll_step(&mut state, "tx1", Ok(TransactionStatus::Failed), "t".to_string());
    assert_eq!(ev.unwrap().status, TransactionStatus::Failed);
    assert_eq!(state.active_subscriptions(), 1);
    assert_eq!(state.unique_tx_ids(), 1);
    let ev = poller.poll_step(&mut state, "tx2", Err("down".to_string()), "t".to_string());
    assert!(ev.is_none());
    assert_eq!(state.active_subscriptions(), 1);
}

#[test]
fn poller_reads_interval_setting() {
    assert_eq!(TxStatusPoller::new(Some("250")).interval_ms, 250);
    assert_eq!(TxStatusPoller::new(None).interval_ms, 2_000);
}
