use stellar_router::rate_limit::{
    config_from_env, rate_limit_key, rate_limit_message, RateDecision, RateLimitConfig, RateLimiter,
    Setting, MAX_REQUESTS_INVALID, MAX_REQUESTS_ZERO, WINDOW_SECS_INVALID, WINDOW_SECS_ZERO,
};
use stellar_router::time::Duration;

fn limiter(max: u32, window_secs: u64) -> RateLimiter {
    RateLimiter::new(RateLimitConfig { max_requests: max, window: Duration::from_secs(window_secs) })
}

#[test]
fn allows_requests_within_limit() {
    let mut rl = limiter(3, 60);
    assert!(rl.check("127.0.0.1"));
    assert!(rl.check("127.0.0.1"));
    assert!(rl.check("127.0.0.1"));
}

#[test]
fn rejects_request_over_limit() {
    let mut rl = limiter(2, 60);
    rl.check("10.0.0.1");
    rl.check("10.0.0.1");
    assert!(!rl.check("10.0.0.1"));
}

#[test]
fn different_keys_are_independent() {
    let mut rl = limiter(1, 60);
    assert!(rl.check("192.168.1.1"));
    assert!(rl.check("192.168.1.2"));
    assert!(!rl.check("192.168.1.1"));
}

#[test]
fn window_expiry_resets_the_count() {
    let mut rl = limiter(1, 10);
    assert!(rl.check_at("k", Duration::from_secs(0)));
    assert!(!rl.check_at("k", Duration::from_secs(9)));
    assert_eq!(rl.retry_after_secs_at("k", Duration::from_secs(9)), 1);
    assert_eq!(rl.retry_after_secs_at("k", Duration::from_secs(3)), 7);
    assert!(rl.check_at("k", Duration::from_secs(10)));
    assert_eq!(rl.retry_after_secs_at("other", Duration::from_secs(10)), 1);
}

#[test]
fn decision_carries_the_retry_delay() {
    let mut rl = limiter(1, 30);
    assert_eq!(rl.decide_at("k", Duration::from_secs(5)), RateDecision::Allow);
    assert_eq!(rl.decide_at("k", Duration::from_secs(10)), RateDecision::Reject { retry_after_secs: 25 });
    assert_eq!(rate_limit_message(25), "Too many requests. Retry after 25 second(s).");
}

#[test]
fn rate_limit_key_prefers_api_key() {
    assert_eq!(rate_limit_key(Some("abc"), "1.2.3.4"), "api-key:abc");
    assert_eq!(rate_limit_key(Some(""), "1.2.3.4"), "ip:1.2.3.4");
    assert_eq!(rate_limit_key(None, "::1"), "ip:::1");
}

#[test]
fn rate_limit_config_from_settings() {
    let c = RateLimitConfig::from_env(Setting::Absent, Setting::Absent).unwrap();
    assert_eq!(c.max_requests, 60);
    assert_eq!(c.window.as_secs(), 60);
    let c = RateLimitConfig::from_env(Setting::Text("5"), Setting::Text("2")).unwrap();
    assert_eq!(c.max_requests, 5);
    assert_eq!(c.window.as_secs(), 2);
    assert_eq!(RateLimitConfig::from_env(Setting::Text("x"), Setting::Absent).unwrap_err().message, MAX_REQUESTS_INVALID);
    assert_eq!(RateLimitConfig::from_env(Setting::Text("0"), Setting::Absent).unwrap_err().message, MAX_REQUESTS_ZERO);
    assert_eq!(RateLimitConfig::from_env(Setting::Absent, Setting::NotUnicode).unwrap_err().message, WINDOW_SECS_INVALID);
    assert_eq!(RateLimitConfig::from_env(Setting::Absent, Setting::Text("0")).unwrap_err().message, WINDOW_SECS_ZERO);
    assert_eq!(RateLimitConfig::from_env(Setting::Text("4294967296"), Setting::Absent).unwrap_err().message, MAX_REQUESTS_INVALID);
}

#[test]
fn config_from_env_falls_back_to_defaults() {
    let c = config_from_env(Setting::Text("0"), Setting::Text("5"));
    assert_eq!(c.max_requests, 60);
    assert_eq!(c.window.as_secs(), 60);
    let c = config_from_env(Setting::Text("7"), Setting::Text("5"));
    assert_eq!(c.max_requests, 7);
    assert_eq!(c.window.as_secs(), 5);
}

#[test]
fn rate_limit_key_keeps_at_most_256_bytes_of_the_api_key() {
    let long = "a".repeat(300);
    assert_eq!(rate_limit_key(Some(&long), "1.2.3.4"), format!("api-key:{}", "a".repeat(256)));
    let exact = "b".repeat(256);
    assert_eq!(rate_limit_key(Some(&exact), "1.2.3.4"), format!("api-key:{exact}"));
    let multibyte = format!("{}é", "a".repeat(255));
    assert_eq!(rate_limit_key(Some(&multibyte), "1.2.3.4"), format!("api-key:{}", "a".repeat(255)));
}

#[test]
fn refusal_carries_retry_after_of_at_least_one_second() {
    let mut limiter = RateLimiter::new(RateLimitConfig { max_requests: 1, window: Duration::from_millis(500) });
    let t = Duration::from_millis(0);
    assert_eq!(limiter.decide_at("k", t), RateDecision::Allow);
    assert_eq!(limiter.decide_at("k", t), RateDecision::Reject { retry_after_secs: 1 });
}
