use stellar_router::types::{TransactionStatus, TransactionStatusEvent, WsMessage};

fn field<'a>(msg: &'a WsMessage, key: &str) -> Option<&'a str> {
    msg.data.get(key).and_then(|v| v.as_str())
}

#[test]
fn ws_message_subscribed_creates_correct_structure() {
    let msg = WsMessage::subscribed("tx123".to_string());
    assert_eq!(msg.msg_type, "subscribed");
    assert_eq!(field(&msg, "tx_id"), Some("tx123"));
    assert_eq!(field(&msg, "status"), Some("subscribed"));
}

#[test]
fn ws_message_unsubscribed_creates_correct_structure() {
    let msg = WsMessage::unsubscribed("tx456".to_string());
    assert_eq!(msg.msg_type, "unsubscribed");
    assert_eq!(field(&msg, "tx_id"), Some("tx456"));
}

#[test]
fn ws_message_status_update_creates_correct_structure() {
    let event = TransactionStatusEvent {
        tx_id: "tx789".to_string(),
        status: TransactionStatus::Confirmed,
        timestamp: "2024-01-01T00:00:00Z".to_string(),
        message: Some("Transaction confirmed".to_string()),
    };
    let msg = WsMessage::status_update(&event);
    assert_eq!(msg.msg_type, "status_update");
    assert_eq!(field(&msg, "tx_id"), Some("tx789"));
    assert_eq!(field(&msg, "status"), Some("CONFIRMED"));
    assert_eq!(field(&msg, "timestamp"), Some("2024-01-01T00:00:00Z"));
    assert_eq!(field(&msg, "message"), Some("Transaction confirmed"));
}

#[test]
fn ws_message_error_creates_correct_structure() {
    let msg = WsMessage::error("Something went wrong");
    assert_eq!(msg.msg_type, "error");
    assert_eq!(field(&msg, "message"), Some("Something went wrong"));
}

#[test]
fn status_update_without_message_is_null() {
    let event = TransactionStatusEvent {
        tx_id: "t".to_string(),
        status: TransactionStatus::Pending,
        timestamp: "x".to_string(),
        message: None,
    };
    let msg = WsMessage::status_update(&event);
    assert!(matches!(msg.data.get("message"), Some(stellar_router::json::Json::Null)));
    assert_eq!(field(&msg, "status"), Some("PENDING"));
}
