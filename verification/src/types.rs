//! Request, response and event types of the API server.

use vstd::prelude::*;
use crate::json::{Json, spec_get, spec_as_str};

verus! {

/// A fee-estimation request for a contract call.
#[derive(Debug, Clone)]
pub struct SimulateRequest {
    /// Target contract address (56-character Stellar contract ID).
    pub target: String,
    /// Function name to invoke.
    pub function: String,
    /// Transaction amount in stroops.
    pub amount: i64,
    /// Fee rate in basis points.
    pub fee_bps: u32,
    /// Network load in basis points for surge pricing (0–10000).
    pub network_load_bps: u32,
    pub route_details: Option<RouteDetails>,
}

/// Amount assumed when a request names none: 1 000 000 stroops.
pub fn default_amount() -> (r: i64)
    ensures
        r == 1_000_000,
{
    1_000_000
}

/// Fee rate assumed when a request names none: 30 bps.
pub fn default_fee_bps() -> (r: u32)
    ensures
        r == 30,
{
    30
}

#[derive(Debug, Clone)]
pub struct RouteDetails {
    pub name: String,
    pub version: Option<u32>,
    pub expected_outputs: Option<Vec<String>>,
}

#[derive(Debug, Clone)]
pub struct SimulateResponse {
    pub success: bool,
    pub estimated_fees: FeeEstimate,
    pub simulation: SimulationDetail,
    pub route_breakdown: Option<RouteBreakdown>,
    pub message: String,
    /// Diagnostic events emitted during simulation, as raw JSON text.
    pub simulation_events: Vec<String>,
}

#[derive(Debug, Clone, Copy, PartialEq, Eq)]
pub struct FeeEstimate {
    pub base_fee: i64,
    pub resource_fee: i64,
    pub total_fee: i64,
    pub surge_multiplier: u32,
    pub high_load: bool,
}

#[derive(Debug, Clone)]
pub struct SimulationDetail {
    pub target: String,
    pub function: String,
    pub would_succeed: bool,
}

#[derive(Debug, Clone)]
pub struct RouteBreakdown {
    pub route_name: String,
    pub version: u32,
    pub target_contract: String,
    pub function: String,
}

/// Error body of the API server: `{"error": "<message>"}`.
#[derive(Debug, Clone)]
pub struct ErrorResponse {
    pub error: String,
}

/// A router-core route entry as served by `GET /routes/:name`.
#[derive(Debug, Clone)]
pub struct RouteEntryResponse {
    pub address: String,
    pub name: String,
    pub paused: bool,
    pub updated_by: String,
    pub metadata: Option<RouteMetadataResponse>,
}

#[derive(Debug, Clone)]
pub struct RouteMetadataResponse {
    pub description: String,
    pub tags: Vec<String>,
    pub owner: String,
}

/// Body of `GET /stats`.
#[derive(Debug, Clone, Copy, PartialEq, Eq)]
pub struct StatsResponse {
    /// Total number of active WebSocket subscriptions (sum of all per-tx counts).
    pub active_subscriptions: usize,
    /// Number of distinct transaction IDs currently tracked.
    pub unique_tx_ids: usize,
    /// Capacity of the broadcast channel.
    pub broadcast_channel_capacity: usize,
}

/// Lifecycle of a submitted transaction.
#[derive(Debug, Clone, Copy, PartialEq, Eq)]
pub enum TransactionStatus {
    Pending,
    Submitted,
    Confirmed,
    Failed,
}

/// A status update pushed to WebSocket subscribers.
#[derive(Debug, Clone)]
pub struct TransactionStatusEvent {
    pub tx_id: String,
    pub status: TransactionStatus,
    pub timestamp: String,
    pub message: Option<String>,
}

/// A client request to (un)subscribe from a transaction's updates.
#[derive(Debug, Clone)]
pub struct SubscribeMessage {
    pub action: String,
    pub tx_id: String,
}

/// The name a status has on the wire.
pub open spec fn status_name(status: TransactionStatus) -> Seq<char> {
    match status {
        TransactionStatus::Pending => "PENDING"@,
        TransactionStatus::Submitted => "SUBMITTED"@,
        TransactionStatus::Confirmed => "CONFIRMED"@,
        TransactionStatus::Failed => "FAILED"@,
    }
}

impl TransactionStatus {
    /// The name of the status on the wire.
    pub fn wire_name(&self) -> (r: &'static str)
        ensures
            r@ == status_name(*self),
    {
        match self {
            TransactionStatus::Pending => "PENDING",
            TransactionStatus::Submitted => "SUBMITTED",
            TransactionStatus::Confirmed => "CONFIRMED",
            TransactionStatus::Failed => "FAILED",
        }
    }
}

/// A message of the WebSocket feed: its type and its data object.
#[derive(Debug)]
pub struct WsMessage {
    pub msg_type: String,
    pub data: Json,
}

fn json_str(s: &str) -> (r: Json)
    ensures
        spec_as_str(r) == Some(s@),
{
    Json::Str(s.to_owned())
}

fn object1(k: &str, v: Json) -> (r: Json)
    ensures
        spec_get(r, k@) == Some(v),
        r is Object,
{
    let mut keys: Vec<String> = Vec::new();
    let mut values: Vec<Json> = Vec::new();
    keys.push(k.to_owned());
    values.push(v);
    let r = Json::Object(keys, values);
    assert(spec_get(r, k@) == Some(v));
    r
}

impl WsMessage {
    /// A message of type `msg_type` carrying `data`.
    pub fn new(msg_type: &str, data: Json) -> (r: Self)
        ensures
            r.msg_type@ == msg_type@,
            r.data == data,
    {
        WsMessage { msg_type: msg_type.to_owned(), data }
    }

    /// The confirmation of a subscription: `{"tx_id", "status": "subscribed"}`.
    pub fn subscribed(tx_id: String) -> (r: Self)
        ensures
            r.msg_type@ == "subscribed"@,
            spec_get(r.data, "tx_id"@) matches Some(v) && spec_as_str(v) == Some(tx_id@),
            spec_get(r.data, "status"@) matches Some(v) && spec_as_str(v) == Some("subscribed"@),
    {
        let mut keys: Vec<String> = Vec::new();
        let mut values: Vec<Json> = Vec::new();
        keys.push("tx_id".to_owned());
        values.push(Json::Str(tx_id));
        keys.push("status".to_owned());
        values.push(json_str("subscribed"));
        proof {
            reveal_strlit("tx_id");
            reveal_strlit("status");
        }
        assert(keys@[0]@ == "tx_id"@);
        assert("tx_id"@.len() != "status"@.len());
        let data = Json::Object(keys, values);
        assert(spec_get(data, "status"@) == crate::json::member_from(keys@, values@, "status"@, 1));
        WsMessage::new("subscribed", data)
    }

    /// The confirmation of an unsubscription: `{"tx_id"}`.
    pub fn unsubscribed(tx_id: String) -> (r: Self)
        ensures
            r.msg_type@ == "unsubscribed"@,
            spec_get(r.data, "tx_id"@) matches Some(v) && spec_as_str(v) == Some(tx_id@),
    {
        let data = object1("tx_id", Json::Str(tx_id));
        WsMessage::new("unsubscribed", data)
    }

    /// A status update: `{"tx_id", "status", "timestamp", "message"}`, the
    /// message `null` when the event has none.
    pub fn status_update(event: &TransactionStatusEvent) -> (r: Self)
        ensures
            r.msg_type@ == "status_update"@,
            spec_get(r.data, "tx_id"@) matches Some(v) && spec_as_str(v) == Some(event.tx_id@),
            spec_get(r.data, "status"@) matches Some(v) && spec_as_str(v) == Some(status_name(event.status)),
            spec_get(r.data, "timestamp"@) matches Some(v) && spec_as_str(v) == Some(event.timestamp@),
            spec_get(r.data, "message"@) matches Some(v) && match event.message {
                Some(m) => spec_as_str(v) == Some(m@),
                None => v is Null,
            },
    {
        let mut keys: Vec<String> = Vec::new();
        let mut values: Vec<Json> = Vec::new();
        keys.push("tx_id".to_owned());
        values.push(json_str(event.tx_id.as_str()));
        keys.push("status".to_owned());
        values.push(json_str(event.status.wire_name()));
        keys.push("timestamp".to_owned());
        values.push(json_str(event.timestamp.as_str()));
        keys.push("message".to_owned());
        values.push(match &event.message {
            Some(m) => json_str(m.as_str()),
            None => Json::Null,
        });
        proof {
            reveal_strlit("tx_id");
            reveal_strlit("status");
            reveal_strlit("timestamp");
            reveal_strlit("message");
        }
        assert(keys@[0]@ == "tx_id"@ && keys@[1]@ == "status"@ && keys@[2]@ == "timestamp"@);
        assert("tx_id"@.len() != "status"@.len());
        assert("tx_id"@.len() != "timestamp"@.len() && "status"@.len() != "timestamp"@.len());
        assert("tx_id"@[0] != "message"@[0] && "status"@.len() != "message"@.len() && "timestamp"@.len() != "message"@.len());
        let data = Json::Object(keys, values);
        assert(spec_get(data, "status"@) == crate::json::member_from(keys@, values@, "status"@, 1));
        assert(crate::json::member_from(keys@, values@, "timestamp"@, 1) == crate::json::member_from(keys@, values@, "timestamp"@, 2));
        assert(spec_get(data, "timestamp"@) == crate::json::member_from(keys@, values@, "timestamp"@, 2));
        assert(crate::json::member_from(keys@, values@, "message"@, 2) == crate::json::member_from(keys@, values@, "message"@, 3));
        assert(crate::json::member_from(keys@, values@, "message"@, 1) == crate::json::member_from(keys@, values@, "message"@, 2));
        assert(spec_get(data, "message"@) == crate::json::member_from(keys@, values@, "message"@, 3));
        WsMessage::new("status_update", data)
    }

    /// An error report: `{"message"}`.
    pub fn error(message: &str) -> (r: Self)
        ensures
            r.msg_type@ == "error"@,
            spec_get(r.data, "message"@) matches Some(v) && spec_as_str(v) == Some(message@),
    {
        let data = object1("message", json_str(message));
        WsMessage::new("error", data)
    }
}

} // verus!
