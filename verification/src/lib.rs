//! Verified core of the stellar-router off-chain services and contracts.

pub mod auth;
pub mod calendar;
pub mod common;
pub mod error;
pub mod poller;
pub mod text;
pub mod time;
pub mod types;
pub mod validation;
pub mod fees;
pub mod dash;
pub mod rate_limit;
pub mod replay_protection;
pub mod cardinality_limit;
pub mod json;
pub mod rpc;
pub mod sse;
pub mod state;
pub mod websocket;
pub mod handlers;
pub mod plugin_interface;
pub mod fixed_rate;
pub mod table;
pub mod router_access;
