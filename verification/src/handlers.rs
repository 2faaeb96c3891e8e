//! The decisions of the API server's HTTP handlers and of its RPC client:
//! which requests are refused and with what, and what is answered from what
//! the Soroban RPC server returned.

use vstd::prelude::*;
use crate::fees::{FeeBreakdown, spec_status_from_rpc, status_from_rpc};
use crate::state::AppState;
use crate::text::{opt_view, push_str};
use crate::types::{
    ErrorResponse, FeeEstimate, RouteEntryResponse, SimulateRequest, SimulateResponse,
    SimulationDetail, StatsResponse, TransactionStatus,
};
use crate::validation::{
    FUNCTION_NAME_CHARS, FUNCTION_NAME_EMPTY, FUNCTION_NAME_LENGTH, ROUTE_NAME_CHARS,
    ROUTE_NAME_EMPTY, ROUTE_NAME_LENGTH, contract_id_error, name_error, validate_contract_id,
    validate_function_name, validate_route_name,
};
use vstd::string::StringSliceAdditionalSpecFns;
use vstd::utf8::encode_utf8;

verus! {

pub const TARGET_PREFIX: &'static str = "target must be a 56-character Stellar contract ID starting with C: ";
pub const ROUTE_NAME_PREFIX: &'static str = "invalid route name: ";
pub const SIMULATION_OK: &'static str = "Simulation successful";
pub const SIMULATION_FAILS: &'static str = "Simulation indicates transaction would fail";
pub const CORE_NOT_CONFIGURED: &'static str = "ROUTER_CORE_CONTRACT_ID not configured";
pub const RPC_ERROR_PREFIX: &'static str = "RPC error: ";
pub const CONTRACT_ERROR_PREFIX: &'static str = "contract error: ";
pub const EMPTY_TX_RESULT: &'static str = "empty result for getTransaction";

/// A refusal: HTTP status and body.
pub struct Refusal {
    pub status: u16,
    pub body: ErrorResponse,
}

fn refusal(status: u16, prefix: &str, message: &str) -> (r: Refusal)
    ensures
        r.status == status,
        r.body.error@ == prefix@ + message@,
{
    let mut error = String::new();
    push_str(&mut error, prefix);
    push_str(&mut error, message);
    Refusal { status, body: ErrorResponse { error } }
}

/// Why `POST /simulate` refuses a request, if it does: a target that is not a
/// contract ID, then a function name that is not valid (both with 400).
pub open spec fn spec_simulate_refusal(target: Seq<char>, target_bytes: nat, function: Seq<char>, function_bytes: nat) -> Option<Seq<char>> {
    match contract_id_error(target, target_bytes) {
        Some(m) => Some(TARGET_PREFIX@ + m),
        None => name_error(function, function_bytes, FUNCTION_NAME_EMPTY@, FUNCTION_NAME_LENGTH@, FUNCTION_NAME_CHARS@),
    }
}

/// Checks a `POST /simulate` request before any RPC call.
pub fn check_simulate_request(req: &SimulateRequest) -> (r: Result<(), Refusal>)
    ensures
        match spec_simulate_refusal(req.target@, encode_utf8(req.target@).len(), req.function@, encode_utf8(req.function@).len()) {
            Some(m) => r matches Err(e) && e.status == 400 && e.body.error@ == m,
            None => r is Ok,
        },
{
    if let Err(e) = validate_contract_id(req.target.as_str()) {
        return Err(refusal(400, TARGET_PREFIX, e.message.as_str()));
    }
    if let Err(e) = validate_function_name(req.function.as_str()) {
        proof {
            reveal_strlit("");
        }
        return Err(refusal(400, "", e.message.as_str()));
    }
    Ok(())
}

/// The answer of `POST /simulate` for an accepted request and its fee
/// breakdown.
pub fn simulate_response(req: SimulateRequest, breakdown: FeeBreakdown) -> (r: SimulateResponse)
    ensures
        r.success == breakdown.would_succeed,
        r.estimated_fees == (FeeEstimate {
            base_fee: breakdown.base_fee,
            resource_fee: breakdown.resource_fee,
            total_fee: breakdown.total_fee,
            surge_multiplier: breakdown.surge_multiplier,
            high_load: breakdown.high_load,
        }),
        r.simulation.target@ == req.target@,
        r.simulation.function@ == req.function@,
        r.simulation.would_succeed == breakdown.would_succeed,
        r.route_breakdown is None,
        r.simulation_events@.len() == 0,
        r.message@ == if breakdown.would_succeed {
            SIMULATION_OK@
        } else {
            SIMULATION_FAILS@
        },
{
    let message = if breakdown.would_succeed {
        SIMULATION_OK.to_owned()
    } else {
        SIMULATION_FAILS.to_owned()
    };
    SimulateResponse {
        success: breakdown.would_succeed,
        estimated_fees: FeeEstimate {
            base_fee: breakdown.base_fee,
            resource_fee: breakdown.resource_fee,
            total_fee: breakdown.total_fee,
            surge_multiplier: breakdown.surge_multiplier,
            high_load: breakdown.high_load,
        },
        simulation: SimulationDetail {
            target: req.target,
            function: req.function,
            would_succeed: breakdown.would_succeed,
        },
        route_breakdown: None,
        message,
        simulation_events: Vec::new(),
    }
}

/// Checks the name of `GET /routes/:name` (422 when it is not a valid route
/// name).
pub fn check_route_name(name: &str) -> (r: Result<(), Refusal>)
    ensures
        match name_error(name@, name.spec_bytes().len(), ROUTE_NAME_EMPTY@, ROUTE_NAME_LENGTH@, ROUTE_NAME_CHARS@) {
            Some(m) => r matches Err(e) && e.status == 422 && e.body.error@ == ROUTE_NAME_PREFIX@ + m,
            None => r is Ok,
        },
{
    match validate_route_name(name) {
        Err(e) => Err(refusal(422, ROUTE_NAME_PREFIX, e.message.as_str())),
        Ok(()) => Ok(()),
    }
}

/// The answer of `GET /routes/:name` from the lookup: the entry, 404 when
/// there is none, 500 with the failure otherwise.
pub fn route_lookup_response(name: &str, lookup: Result<Option<RouteEntryResponse>, String>) -> (r: Result<RouteEntryResponse, Refusal>)
    ensures
        match lookup {
            Ok(Some(entry)) => r matches Ok(x) && x == entry,
            Ok(None) => r matches Err(e) && e.status == 404 && e.body.error@ == "route '"@ + name@ + "' not found"@,
            Err(m) => r matches Err(e) && e.status == 500 && e.body.error@ == m@,
        },
{
    match lookup {
        Ok(Some(entry)) => Ok(entry),
        Ok(None) => {
            let mut error = String::new();
            push_str(&mut error, "route '");
            push_str(&mut error, name);
            push_str(&mut error, "' not found");
            Err(Refusal { status: 404, body: ErrorResponse { error } })
        },
        Err(m) => Err(Refusal { status: 500, body: ErrorResponse { error: m } }),
    }
}

/// `GET /routes` needs the router-core contract: 503 when none is configured.
pub fn check_routes_configured(router_core_contract_id: &str) -> (r: Result<(), (u16, String)>)
    ensures
        router_core_contract_id@.len() == 0 ==> (r matches Err((s, m)) && s == 503 && m@ == CORE_NOT_CONFIGURED@),
        router_core_contract_id@.len() > 0 ==> r is Ok,
{
    if router_core_contract_id.is_empty() {
        Err((503, CORE_NOT_CONFIGURED.to_owned()))
    } else {
        Ok(())
    }
}

/// The body of `GET /stats`.
pub fn stats(state: &AppState) -> (r: StatsResponse)
    requires
        state.subscribers.wf(),
    ensures
        r.active_subscriptions == state.subscribers.subscriptions().len(),
        r.unique_tx_ids == state.subscribers.subscriptions().dom().len(),
        r.broadcast_channel_capacity == crate::state::BROADCAST_CHANNEL_CAPACITY,
{
    StatsResponse {
        active_subscriptions: state.active_subscriptions(),
        unique_tx_ids: state.unique_tx_ids(),
        broadcast_channel_capacity: state.broadcast_channel_capacity(),
    }
}

/// The answer of `getTransaction`, as far as the client reads it.
#[derive(Debug, Clone)]
pub struct GetTransactionResult {
    /// Transaction status: `SUCCESS`, `FAILED`, `NOT_FOUND`, `PENDING`, ...
    pub status: String,
    pub envelope_xdr: Option<String>,
    /// Ledger the transaction was included in.
    pub ledger: Option<u32>,
    pub ledger_close_time: Option<String>,
}

/// The status a `getTransaction` answer reports: the RPC error wins, an
/// answer without result is an error, and the status string is mapped.
pub fn transaction_status_from_answer(rpc_error: Option<String>, result: Option<GetTransactionResult>) -> (r: Result<TransactionStatus, String>)
    ensures
        match rpc_error {
            Some(m) => r matches Err(e) && e@ == RPC_ERROR_PREFIX@ + m@,
            None => match result {
                None => r matches Err(e) && e@ == EMPTY_TX_RESULT@,
                Some(res) => r == Ok::<TransactionStatus, String>(spec_status_from_rpc(res.status@)),
            },
        },
{
    match rpc_error {
        Some(m) => {
            let mut e = String::new();
            push_str(&mut e, RPC_ERROR_PREFIX);
            push_str(&mut e, m.as_str());
            Err(e)
        },
        None => match result {
            None => Err(EMPTY_TX_RESULT.to_owned()),
            Some(res) => Ok(status_from_rpc(res.status.as_str())),
        },
    }
}

/// A `simulateTransaction` answer of a view call, as far as the client reads
/// it: the contract error, if any, and the XDR of the return values.
#[derive(Debug, Clone)]
pub struct SimulationReturn {
    pub error: Option<String>,
    pub results_xdr: Vec<String>,
}

fn prefixed(prefix: &str, m: &str) -> (r: String)
    ensures
        r@ == prefix@ + m@,
{
    let mut e = String::new();
    push_str(&mut e, prefix);
    push_str(&mut e, m);
    e
}

/// The return value of `router-core::get_route(name)` to decode, from the
/// answer: the RPC error and then the contract error are failures; an
/// answer without result or without return value means no such route.
pub fn route_return_xdr(rpc_error: Option<String>, result: Option<SimulationReturn>) -> (r: Result<Option<String>, String>)
    ensures
        match rpc_error {
            Some(m) => r matches Err(e) && e@ == RPC_ERROR_PREFIX@ + m@,
            None => match result {
                None => r matches Ok(None),
                Some(res) => match res.error {
                    Some(m) => r matches Err(e) && e@ == CONTRACT_ERROR_PREFIX@ + m@,
                    None => if res.results_xdr@.len() == 0 {
                        r matches Ok(None)
                    } else {
                        r matches Ok(Some(x)) && x@ == res.results_xdr@[0]@
                    },
                },
            },
        },
{
    match rpc_error {
        Some(m) => Err(prefixed(RPC_ERROR_PREFIX, m.as_str())),
        None => match result {
            None => Ok(None),
            Some(res) => match res.error {
                Some(m) => Err(prefixed(CONTRACT_ERROR_PREFIX, m.as_str())),
                None => if res.results_xdr.len() == 0 {
                    Ok(None)
                } else {
                    Ok(Some(res.results_xdr[0].clone()))
                },
            },
        },
    }
}

/// The return value of `router-core::get_all_routes()` to decode, from the
/// answer: `rpc_error` holds the message of a request that failed or of a
/// JSON-RPC error. A failed request, an RPC error, an answer without result,
/// a contract error or an answer without return value all give `None`: the
/// endpoint then lists no routes rather than failing.
pub fn routes_return_xdr(rpc_error: Option<String>, result: Option<SimulationReturn>) -> (r: Option<String>)
    ensures
        match (rpc_error, result) {
            (None, Some(res)) => if res.error is None && res.results_xdr@.len() > 0 {
                r matches Some(x) && x@ == res.results_xdr@[0]@
            } else {
                r is None
            },
            _ => r is None,
        },
{
    match (rpc_error, result) {
        (None, Some(res)) => match res.error {
            None => if res.results_xdr.len() == 0 {
                None
            } else {
                Some(res.results_xdr[0].clone())
            },
            Some(_) => None,
        },
        _ => None,
    }
}

} // verus!
