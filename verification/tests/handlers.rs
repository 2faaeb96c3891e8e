use stellar_router::fees::{FeeBreakdown, FeeConfig};
use stellar_router::handlers::{
    check_route_name, check_routes_configured, check_simulate_request, route_lookup_response,
    route_return_xdr, routes_return_xdr, simulate_response, transaction_status_from_answer,
    GetTransactionResult, SimulationReturn,
};
use stellar_router::types::{
    default_amount, default_fee_bps, RouteEntryResponse, SimulateRequest, TransactionStatus,
};

fn request(target: &str, function: &str) -> SimulateRequest {
    SimulateRequest {
        target: target.to_string(),
        function: function.to_string(),
        amount: default_amount(),
        fee_bps: default_fee_bps(),
        network_load_bps: 0,
        route_details: None,
    }
}

#[test]
fn request_defaults() {
    assert_eq!(default_amount(), 1_000_000);
    assert_eq!(default_fee_bps(), 30);
}

#[test]
fn simulate_requests_are_checked_before_any_call() {
    let good = "C".repeat(56);
    assert!(check_simulate_request(&request(&good, "get_quote")).is_ok());
    let bad = check_simulate_request(&request("short", "get_quote")).err().unwrap();
    assert_eq!(bad.status, 400);
    assert_eq!(
        bad.body.error,
        "target must be a 56-character Stellar contract ID starting with C: contract_id must be exactly 56 characters"
    );
    let bad = check_simulate_request(&request(&good, "")).err().unwrap();
    assert_eq!(bad.status, 400);
    assert_eq!(bad.body.error, "function name must not be empty");
}

#[test]
fn simulate_response_reports_the_breakdown() {
    let config = FeeConfig::default();
    let breakdown: FeeBreakdown = config.heuristic_estimate(1_000_000, 8_000);
    let r = simulate_response(request("T", "f"), breakdown);
    assert!(r.success);
    assert_eq!(r.estimated_fees.total_fee, 2_200);
    assert_eq!(r.simulation.target, "T");
    assert_eq!(r.message, "Simulation successful");
    assert!(r.route_breakdown.is_none());
}

#[test]
fn route_names_are_checked_and_lookups_answered() {
    assert!(check_route_name("oracle").is_ok());
    let bad = check_route_name("bad name").err().unwrap();
    assert_eq!(bad.status, 422);
    assert!(bad.body.error.starts_with("invalid route name: "));
    let missing = route_lookup_response("oracle", Ok(None)).err().unwrap();
    assert_eq!(missing.status, 404);
    assert_eq!(missing.body.error, "route 'oracle' not found");
    let failed = route_lookup_response("oracle", Err("down".to_string())).err().unwrap();
    assert_eq!(failed.status, 500);
    let entry = RouteEntryResponse {
        address: "A".to_string(),
        name: "oracle".to_string(),
        paused: false,
        updated_by: "B".to_string(),
        metadata: None,
    };
    assert_eq!(route_lookup_response("oracle", Ok(Some(entry))).ok().unwrap().name, "oracle");
}

#[test]
fn routes_need_a_configured_contract() {
    assert_eq!(check_routes_configured(""), Err((503, "ROUTER_CORE_CONTRACT_ID not configured".to_string())));
    assert_eq!(check_routes_configured("C"), Ok(()));
}

#[test]
fn rpc_answers_are_read_in_order() {
    assert_eq!(
        transaction_status_from_answer(Some("bad".to_string()), None),
        Err("RPC error: bad".to_string())
    );
    assert_eq!(transaction_status_from_answer(None, None), Err("empty result for getTransaction".to_string()));
    let res = GetTransactionResult { status: "SUCCESS".to_string(), envelope_xdr: None, ledger: Some(5), ledger_close_time: None };
    assert_eq!(transaction_status_from_answer(None, Some(res)), Ok(TransactionStatus::Confirmed));
    let ret = SimulationReturn { error: None, results_xdr: vec!["AAAA".to_string()] };
    assert_eq!(route_return_xdr(None, Some(ret.clone())), Ok(Some("AAAA".to_string())));
    assert_eq!(route_return_xdr(None, None), Ok(None));
    assert_eq!(routes_return_xdr(None, Some(ret.clone())), Some("AAAA".to_string()));
    assert_eq!(routes_return_xdr(None, None), None);
    assert_eq!(routes_return_xdr(Some("request failed".to_string()), Some(ret)), None);
    let err = SimulationReturn { error: Some("trap".to_string()), results_xdr: vec![] };
    assert_eq!(routes_return_xdr(None, Some(err)), None);
    let empty = SimulationReturn { error: None, results_xdr: vec![] };
    assert_eq!(routes_return_xdr(None, Some(empty)), None);
}
