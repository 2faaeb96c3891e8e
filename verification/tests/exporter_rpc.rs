use stellar_router::json::{Json, JsonNumber};
use stellar_router::rpc::{
    build_invoke_xdr, extract_bool_from_sim_result, extract_string_vec_from_sim_result,
    extract_u32_vec_from_sim_result, extract_u64_from_sim_result, hex_encode_arg,
    instance_storage_key_xdr, is_retryable_error, retry_settings, retry_step, Attempt, RetryStep,
    RpcCallError, RpcError, RpcResponse, SimResultError, TransportFailure, XdrError,
};
use stellar_router::time::Duration;

fn num(n: u64) -> Json {
    Json::Number(JsonNumber::PosInt(n))
}

fn s(t: &str) -> Json {
    Json::Str(t.to_string())
}

fn obj(members: Vec<(&str, Json)>) -> Json {
    let mut keys = Vec::new();
    let mut values = Vec::new();
    for (k, v) in members {
        keys.push(k.to_string());
        values.push(v);
    }
    Json::Object(keys, values)
}

fn sim_result(retval: Json) -> Json {
    obj(vec![("results", Json::Array(vec![obj(vec![("retval", retval)])]))])
}

#[test]
fn test_extract_u64_direct() {
    let v = num(42);
    assert_eq!(extract_u64_from_sim_result(&v).unwrap(), 42);
}

#[test]
fn test_extract_u64_nested_retval() {
    let v = sim_result(obj(vec![("u64", num(99))]));
    assert_eq!(extract_u64_from_sim_result(&v).unwrap(), 99);
}

#[test]
fn test_extract_bool_direct() {
    let v = Json::Bool(true);
    assert!(extract_bool_from_sim_result(&v).unwrap());
}

#[test]
fn test_extract_bool_nested() {
    let v = sim_result(obj(vec![("bool", Json::Bool(false))]));
    assert!(!extract_bool_from_sim_result(&v).unwrap());
}

#[test]
fn test_extract_string_vec_empty() {
    let v = Json::Array(vec![]);
    assert!(extract_string_vec_from_sim_result(&v).unwrap().is_empty());
}

#[test]
fn test_extract_string_vec_strings() {
    let v = Json::Array(vec![s("oracle"), s("price_feed")]);
    let result = extract_string_vec_from_sim_result(&v).unwrap();
    assert_eq!(result, vec!["oracle", "price_feed"]);
}

#[test]
fn extraction_failures_and_fallbacks() {
    assert_eq!(extract_u64_from_sim_result(&s("7")), Err(SimResultError::MissingU64));
    assert_eq!(extract_u64_from_sim_result(&Json::Number(JsonNumber::NegInt(-1))), Err(SimResultError::MissingU64));
    assert_eq!(extract_u64_from_sim_result(&sim_result(num(5))), Ok(5));
    assert_eq!(extract_bool_from_sim_result(&Json::Null), Err(SimResultError::MissingBool));
    let mixed = sim_result(Json::Array(vec![s("a"), num(1), obj(vec![("str", s("b"))]), Json::Null]));
    assert_eq!(extract_string_vec_from_sim_result(&mixed).unwrap(), vec!["a", "b"]);
    assert!(extract_string_vec_from_sim_result(&obj(vec![])).unwrap().is_empty());
    let nums = Json::Array(vec![num(1), obj(vec![("u32", num(2))]), num(4_294_967_298), s("x")]);
    assert_eq!(extract_u32_vec_from_sim_result(&nums).unwrap(), vec![1, 2, 2]);
}

#[test]
fn hex_encodes_utf8_bytes() {
    assert_eq!(hex_encode_arg("oracle"), "6f7261636c65");
    assert_eq!(hex_encode_arg(""), "");
    assert_eq!(hex_encode_arg("é"), "c3a9");
}

#[test]
fn xdr_building_is_refused() {
    assert_eq!(build_invoke_xdr("C", "f", &[]), Err(XdrError::EnvelopeUnavailable));
    assert_eq!(instance_storage_key_xdr("C"), Err(XdrError::KeyUnavailable));
    assert!(XdrError::KeyUnavailable.message().contains("stellar-xdr"));
}

#[test]
fn rpc_response_error_wins() {
    let r = RpcResponse { result: Some(num(1)), error: Some(RpcError { code: -32000, message: "boom".to_string() }) };
    match r.into_result() {
        Err(RpcCallError::Rpc { code, message }) => {
            assert_eq!(code, -32000);
            assert_eq!(message, "boom");
        }
        _ => panic!("expected the RPC error"),
    }
    let r = RpcResponse { result: None, error: None };
    assert!(matches!(r.into_result(), Err(RpcCallError::EmptyResult)));
}

#[test]
fn retry_policy_backs_off_exponentially() {
    let base = Duration::from_millis(200);
    match retry_step(Attempt::Answered(503), 2, 3, base) {
        RetryStep::Retry { delay, next } => {
            assert_eq!(delay.as_millis(), 800);
            assert_eq!(next, 3);
        }
        RetryStep::Finish => panic!("expected a retry"),
    }
    assert!(matches!(retry_step(Attempt::Answered(503), 3, 3, base), RetryStep::Finish));
    assert!(matches!(retry_step(Attempt::Answered(404), 0, 3, base), RetryStep::Finish));
    assert!(matches!(retry_step(Attempt::Answered(429), 0, 3, base), RetryStep::Retry { .. }));
    let timeout = TransportFailure { timeout: true, connect: false, status: None };
    assert!(is_retryable_error(&timeout));
    let other = TransportFailure { timeout: false, connect: false, status: Some(400) };
    assert!(!is_retryable_error(&other));
    assert!(matches!(retry_step(Attempt::Failed(other), 0, 3, base), RetryStep::Finish));
}

#[test]
fn retry_settings_read_overrides() {
    let (n, d) = retry_settings(None, None);
    assert_eq!(n, 3);
    assert_eq!(d.as_millis(), 200);
    let (n, d) = retry_settings(Some("5"), Some("50"));
    assert_eq!(n, 5);
    assert_eq!(d.as_millis(), 50);
    let (n, _) = retry_settings(Some("-1"), None);
    assert_eq!(n, 3);
}
