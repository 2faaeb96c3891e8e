use stellar_router::fees::FeeConfig;
use stellar_router::state::AppState;
use stellar_router::types::{SubscribeMessage, TransactionStatus, TransactionStatusEvent};
use stellar_router::websocket::{
    fan_in_near_capacity, fan_in_warning_threshold, parse_websocket_fan_in_capacity, ClientInput,
    WsAction, WsSession, DEFAULT_WS_FAN_IN_CAPACITY,
};

#[test]
fn parses_configured_websocket_fan_in_capacity() {
    assert_eq!(parse_websocket_fan_in_capacity(Some("2048")), 2048);
    assert_eq!(parse_websocket_fan_in_capacity(Some(" 64 ")), 64);
}

#[test]
fn falls_back_to_default_for_missing_or_invalid_capacity() {
    assert_eq!(parse_websocket_fan_in_capacity(None), DEFAULT_WS_FAN_IN_CAPACITY);
    assert_eq!(parse_websocket_fan_in_capacity(Some("0")), DEFAULT_WS_FAN_IN_CAPACITY);
    assert_eq!(parse_websocket_fan_in_capacity(Some("not-a-number")), DEFAULT_WS_FAN_IN_CAPACITY);
}

#[test]
fn warning_threshold_is_ten_percent_with_minimum_one_slot() {
    assert_eq!(fan_in_warning_threshold(1000), 100);
    assert_eq!(fan_in_warning_threshold(9), 1);
}

#[test]
fn near_capacity_at_or_below_threshold() {
    assert!(fan_in_near_capacity(100, 1000));
    assert!(!fan_in_near_capacity(101, 1000));
    assert!(fan_in_near_capacity(0, 5));
}

fn msg(action: &str, tx: &str) -> ClientInput {
    ClientInput::Message(SubscribeMessage { action: action.to_string(), tx_id: tx.to_string() })
}

fn event(tx: &str) -> TransactionStatusEvent {
    TransactionStatusEvent {
        tx_id: tx.to_string(),
        status: TransactionStatus::Pending,
        timestamp: "t".to_string(),
        message: None,
    }
}

#[test]
fn session_subscribe_starts_one_relay_and_counts_the_session_once() {
    let mut state = AppState::new("C".to_string(), FeeConfig::default());
    let mut session = WsSession::new();
    let actions = session.on_client(&mut state, msg("subscribe", "tx1"));
    assert_eq!(actions, vec![WsAction::StartRelay("tx1".to_string()), WsAction::SendSubscribed("tx1".to_string())]);
    let actions = session.on_client(&mut state, msg("subscribe", "tx1"));
    assert_eq!(actions, vec![WsAction::SendSubscribed("tx1".to_string())]);
    assert_eq!(state.active_subscriptions(), 1);
    assert_eq!(state.unique_tx_ids(), 1);
    assert!(session.on_event(&event("tx1")));
    assert!(!session.on_event(&event("tx2")));
}

#[test]
fn session_unsubscribe_stops_forwarding() {
    let mut state = AppState::new("C".to_string(), FeeConfig::default());
    let mut session = WsSession::new();
    session.on_client(&mut state, msg("subscribe", "tx1"));
    let actions = session.on_client(&mut state, msg("unsubscribe", "tx1"));
    assert_eq!(actions, vec![WsAction::CancelRelay("tx1".to_string()), WsAction::SendUnsubscribed("tx1".to_string())]);
    assert!(!session.on_event(&event("tx1")));
    assert_eq!(state.active_subscriptions(), 0);
    let actions = session.on_client(&mut state, msg("unsubscribe", "tx9"));
    assert_eq!(actions, vec![WsAction::SendUnsubscribed("tx9".to_string())]);
}

#[test]
fn session_close_releases_every_subscription() {
    let mut state = AppState::new("C".to_string(), FeeConfig::default());
    let mut session = WsSession::new();
    session.on_client(&mut state, msg("subscribe", "a"));
    session.on_client(&mut state, msg("subscribe", "b"));
    let actions = session.on_client(&mut state, ClientInput::Closed);
    assert_eq!(
        actions,
        vec![WsAction::CancelRelay("a".to_string()), WsAction::CancelRelay("b".to_string()), WsAction::Close]
    );
    assert_eq!(state.active_subscriptions(), 0);
    assert_eq!(state.unique_tx_ids(), 0);
}

#[test]
fn session_subscribing_twice_then_closing_leaves_table_as_found() {
    let mut state = AppState::new("C".to_string(), FeeConfig::default());
    state.add_subscriber("tx1".to_string());
    let mut session = WsSession::new();
    session.on_client(&mut state, msg("subscribe", "tx1"));
    session.on_client(&mut state, msg("subscribe", "tx1"));
    assert_eq!(state.active_subscriptions(), 2);
    session.on_client(&mut state, ClientInput::Closed);
    assert_eq!(state.active_subscriptions(), 1);
    assert_eq!(state.unique_tx_ids(), 1);
}

#[test]
fn session_ignores_other_input_and_ends_on_error() {
    let mut state = AppState::new("C".to_string(), FeeConfig::default());
    let mut session = WsSession::new();
    assert!(session.on_client(&mut state, msg("ping", "a")).is_empty());
    assert!(session.on_client(&mut state, ClientInput::Unparsable).is_empty());
    assert!(session.on_client(&mut state, ClientInput::Other).is_empty());
    session.on_client(&mut state, msg("subscribe", "a"));
    assert_eq!(session.on_client(&mut state, ClientInput::Error), vec![WsAction::Close]);
    assert_eq!(state.active_subscriptions(), 1);
}

#[test]
fn stats_reflect_subscriber_counts() {
    let mut state = AppState::new("C".to_string(), FeeConfig::default());
    state.add_subscriber("x".to_string());
    state.add_subscriber("y".to_string());
    state.add_subscriber("y".to_string());
    state.remove_subscriber("y");
    state.remove_subscriber("zzz");
    let s = stellar_router::handlers::stats(&state);
    assert_eq!(s.active_subscriptions, 2);
    assert_eq!(s.unique_tx_ids, 2);
    assert_eq!(s.broadcast_channel_capacity, 1000);
    let mut ids = state.subscribers.watched_tx_ids();
    ids.sort();
    assert_eq!(ids, vec!["x".to_string(), "y".to_string()]);
}
