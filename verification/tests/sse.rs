use stellar_router::json::{Json, JsonNumber};
use stellar_router::sse::{
    backoff_delay, dispatch_event_block, handle_event, sse_config_from_args, Args, ConnectStep,
    EventEffect, EventFramer, EventMode, SseConfig, SseEvent, SseSubscriber, StopReason,
};
use stellar_router::time::Duration;

fn obj(members: Vec<(&str, Json)>) -> Json {
    let mut keys = Vec::new();
    let mut values = Vec::new();
    for (k, v) in members {
        keys.push(k.to_string());
        values.push(v);
    }
    Json::Object(keys, values)
}

fn event(topic: Vec<Json>, value: Json) -> SseEvent {
    SseEvent { ledger: 100, contract_id: "C1".to_string(), topic, value, event_type: "contract".to_string() }
}

fn topic(t: &str) -> Vec<Json> {
    vec![Json::Str(t.to_string())]
}

#[test]
fn test_handle_event_quote_generated_increments_counter() {
    assert_eq!(handle_event(&event(topic("quote_generated"), obj(vec![]))), EventEffect::QuoteGenerated);
}

#[test]
fn test_handle_event_fee_estimated_increments_counter() {
    assert_eq!(handle_event(&event(topic("fee_estimated"), obj(vec![]))), EventEffect::FeeEstimated);
}

#[test]
fn test_handle_event_execution_result_increments_counter() {
    assert_eq!(handle_event(&event(topic("execution_result"), obj(vec![]))), EventEffect::ExecutionResult);
}

#[test]
fn test_handle_event_execution_error_increments_counter() {
    assert_eq!(handle_event(&event(topic("execution_error"), obj(vec![]))), EventEffect::ExecutionError);
}

#[test]
fn test_handle_event_post_call_success_increments_calls_not_failures() {
    let value = obj(vec![("success", Json::Bool(true)), ("route", Json::Str("oracle".to_string()))]);
    assert_eq!(
        handle_event(&event(topic("post_call"), value)),
        EventEffect::RouteCall { route: "oracle".to_string(), failed: false }
    );
}

#[test]
fn test_handle_event_post_call_failure_increments_failures() {
    let value = obj(vec![("success", Json::Bool(false)), ("route", Json::Str("oracle".to_string()))]);
    assert_eq!(
        handle_event(&event(topic("post_call"), value)),
        EventEffect::RouteCall { route: "oracle".to_string(), failed: true }
    );
}

#[test]
fn test_handle_event_unknown_topic_is_ignored() {
    assert_eq!(handle_event(&event(topic("something_else"), obj(vec![]))), EventEffect::Ignored);
}

#[test]
fn test_handle_event_empty_topic_is_ignored() {
    assert_eq!(handle_event(&event(vec![], obj(vec![]))), EventEffect::Ignored);
}

#[test]
fn post_call_without_route_counts_as_unknown() {
    let value = obj(vec![("success", Json::Number(JsonNumber::PosInt(0)))]);
    assert_eq!(
        handle_event(&event(topic("post_call"), value)),
        EventEffect::RouteCall { route: "unknown".to_string(), failed: false }
    );
    assert_eq!(handle_event(&event(vec![Json::Bool(true)], obj(vec![]))), EventEffect::Ignored);
}

#[test]
fn test_dispatch_event_block_parses_data_line() {
    let lines = vec![
        "event: contract".to_string(),
        r#"data: {"ledger":100,"contractId":"C1","topic":["quote_generated"],"value":{},"type":"contract"}"#.to_string(),
    ];
    assert_eq!(
        dispatch_event_block(&lines).as_deref(),
        Some(r#"{"ledger":100,"contractId":"C1","topic":["quote_generated"],"value":{},"type":"contract"}"#)
    );
}

#[test]
fn test_dispatch_event_block_skips_empty_data() {
    let lines = vec![": keep-alive".to_string()];
    assert_eq!(dispatch_event_block(&lines), None);
    let lines = vec!["data:   ".to_string(), "data: {}".to_string()];
    assert_eq!(dispatch_event_block(&lines), None);
}

#[test]
fn test_dispatch_event_block_handles_invalid_json() {
    let lines = vec!["data: {not valid json}".to_string()];
    assert_eq!(dispatch_event_block(&lines).as_deref(), Some("{not valid json}"));
}

fn subscriber(url: &str, id: &str) -> SseSubscriber {
    let config = SseConfig { horizon_url: url.to_string(), ..SseConfig::default() };
    SseSubscriber::new(config, id)
}

#[test]
fn test_sse_url_format() {
    assert_eq!(
        subscriber("https://horizon-testnet.stellar.org", "CONTRACT123").sse_url(),
        "https://horizon-testnet.stellar.org/events?contractId=CONTRACT123&cursor=now"
    );
}

#[test]
fn test_sse_url_strips_trailing_slash() {
    assert_eq!(
        subscriber("https://horizon-testnet.stellar.org/", "C1").sse_url(),
        "https://horizon-testnet.stellar.org/events?contractId=C1&cursor=now"
    );
    assert_eq!(subscriber("http://h//", "C1").sse_url(), "http://h/events?contractId=C1&cursor=now");
}

#[test]
fn test_sse_config_from_args() {
    let args = Args {
        rpc_url: "https://soroban-testnet.stellar.org".to_string(),
        network_passphrase: "Test SDF Network ; September 2015".to_string(),
        core_contract_id: String::new(),
        middleware_contract_id: String::new(),
        registry_contract_id: String::new(),
        quote_contract_id: String::new(),
        execution_contract_id: String::new(),
        access_contract_id: String::new(),
        timelock_contract_id: String::new(),
        multicall_contract_id: String::new(),
        scrape_interval_secs: 15,
        listen: "0.0.0.0:9090".to_string(),
        rpc_timeout_secs: 8,
        event_mode: EventMode::Poll,
        horizon_url: "https://horizon-testnet.stellar.org".to_string(),
        sse_max_reconnects: 5,
        sse_reconnect_delay_ms: 500,
        sse_reconnect_max_delay_ms: 15000,
    };
    let config = sse_config_from_args(&args);
    assert_eq!(config.horizon_url, "https://horizon-testnet.stellar.org");
    assert_eq!(config.max_reconnects, 5);
    assert_eq!(config.base_delay, Duration::from_millis(500));
    assert_eq!(config.max_delay, Duration::from_millis(15000));
    assert_eq!(config.connect_timeout, Duration::from_secs(8));
}

#[test]
fn default_config_matches_documentation() {
    let c = SseConfig::default();
    assert_eq!(c.horizon_url, "https://horizon-testnet.stellar.org");
    assert_eq!(c.max_reconnects, 10);
    assert_eq!(c.base_delay, Duration::from_secs(1));
    assert_eq!(c.max_delay, Duration::from_secs(30));
    assert_eq!(c.connect_timeout, Duration::from_secs(10));
    assert_eq!(EventMode::Sse.as_str(), "sse");
    assert_eq!(EventMode::Poll.as_str(), "poll");
}

#[test]
fn backoff_doubles_and_caps() {
    let base = Duration::from_millis(1000);
    let max = Duration::from_millis(30_000);
    assert_eq!(backoff_delay(base, max, 1).as_millis(), 1000);
    assert_eq!(backoff_delay(base, max, 2).as_millis(), 2000);
    assert_eq!(backoff_delay(base, max, 5).as_millis(), 16_000);
    assert_eq!(backoff_delay(base, max, 6).as_millis(), 30_000);
    assert_eq!(backoff_delay(base, max, 0).as_millis(), 1000);
    assert_eq!(backoff_delay(base, max, 40).as_millis(), 30_000);
}

#[test]
fn reconnect_policy_stops_after_the_limit() {
    let sub = SseSubscriber::new(SseConfig { max_reconnects: 2, ..SseConfig::default() }, "C");
    assert_eq!(sub.before_connect(false, 0), ConnectStep::Connect);
    assert_eq!(sub.before_connect(false, 2), ConnectStep::Stop(StopReason::TooManyReconnects));
    assert_eq!(sub.before_connect(true, 0), ConnectStep::Stop(StopReason::Cancelled));
    let (count, delay) = sub.after_disconnect(0);
    assert_eq!(count, 1);
    assert_eq!(delay, Duration::from_secs(1));
    let unlimited = SseSubscriber::new(SseConfig { max_reconnects: 0, ..SseConfig::default() }, "C");
    assert_eq!(unlimited.before_connect(false, 1_000_000), ConnectStep::Connect);
}

#[test]
fn framer_splits_blocks_across_reads() {
    let mut framer = EventFramer::new();
    assert!(framer.feed("data: {\"a\"").is_empty());
    let blocks = framer.feed(":1}\r\n\r\nevent: x\n");
    assert_eq!(blocks, vec![vec!["data: {\"a\":1}".to_string()]]);
    let blocks = framer.feed("data: 2\n\n\n");
    assert_eq!(blocks, vec![vec!["event: x".to_string(), "data: 2".to_string()]]);
}

#[test]
fn framer_gives_the_same_blocks_however_the_stream_is_read() {
    let stream = "event: a\ndata: 1\n\ndata: 2\r\n\r\n: c\n\nevent: b\n";
    let mut whole = EventFramer::new();
    let expected = whole.feed(stream);
    for cut in 0..=stream.len() {
        let mut framer = EventFramer::new();
        let mut got = framer.feed(&stream[..cut]);
        got.extend(framer.feed(&stream[cut..]));
        assert_eq!(got, expected, "cut at {cut}");
    }
    let mut framer = EventFramer::new();
    let mut got = Vec::new();
    for ch in stream.chars() {
        got.extend(framer.feed(&ch.to_string()));
    }
    assert_eq!(got, expected);
}
