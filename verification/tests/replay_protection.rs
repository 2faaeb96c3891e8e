use stellar_router::replay_protection::{
    extract_nonce, nonce_is_live, replay_decision_at, NonceCache, ReplayError, ReplayProtectionConfig,
};

fn config(cache_size: usize) -> ReplayProtectionConfig {
    ReplayProtectionConfig { enabled: true, cache_size, nonce_ttl_secs: 3600 }
}

#[test]
fn accepts_new_nonce() {
    let mut cache = NonceCache::new(config(100));
    assert!(cache.check_and_add("nonce-1"));
}

#[test]
fn rejects_duplicate_nonce() {
    let mut cache = NonceCache::new(config(100));
    assert!(cache.check_and_add("nonce-1"));
    assert!(!cache.check_and_add("nonce-1"));
}

#[test]
fn respects_cache_size_limit() {
    let mut cache = NonceCache::new(config(2));
    assert!(cache.check_and_add("nonce-1"));
    assert!(cache.check_and_add("nonce-2"));
    assert!(!cache.check_and_add("nonce-3"));
}

#[test]
fn expired_nonces_are_dropped_before_the_check() {
    let mut cache = NonceCache::new(ReplayProtectionConfig { enabled: true, cache_size: 1, nonce_ttl_secs: 10 });
    assert!(cache.check_and_add_at("n", 100));
    assert!(!cache.check_and_add_at("n", 109));
    assert!(!cache.check_and_add_at("m", 109));
    assert!(cache.check_and_add_at("n", 110));
}

#[test]
fn nonce_age_wraps_like_the_cache() {
    assert!(nonce_is_live(105, 100, 10));
    assert!(!nonce_is_live(110, 100, 10));
    assert!(!nonce_is_live(99, 100, 10));
    assert!(!nonce_is_live(99, 100, u64::MAX));

}

#[test]
fn replay_config_from_settings() {
    let c = ReplayProtectionConfig::from_env(None, None, None);
    assert!(!c.enabled);
    assert_eq!(c.cache_size, 10_000);
    assert_eq!(c.nonce_ttl_secs, 3_600);
    let c = ReplayProtectionConfig::from_env(Some("True"), Some("5"), Some("60"));
    assert!(c.enabled);
    assert_eq!(c.cache_size, 5);
    assert_eq!(c.nonce_ttl_secs, 60);
    let c = ReplayProtectionConfig::from_env(Some("1"), Some(" 5"), Some("-1"));
    assert!(!c.enabled);
    assert_eq!(c.cache_size, 10_000);
    assert_eq!(c.nonce_ttl_secs, 3_600);
}

#[test]
fn replay_middleware_decisions() {
    let mut off = NonceCache::new(ReplayProtectionConfig { enabled: false, cache_size: 10, nonce_ttl_secs: 10 });
    assert_eq!(replay_decision_at(&mut off, None, 1), Ok(()));
    let mut on = NonceCache::new(config(10));
    assert_eq!(replay_decision_at(&mut on, None, 1), Err(ReplayError::MissingNonce));
    assert_eq!(replay_decision_at(&mut on, Some("a"), 1), Ok(()));
    assert_eq!(replay_decision_at(&mut on, Some("a"), 2), Err(ReplayError::DuplicateNonce));
    assert_eq!(ReplayError::MissingNonce.status_and_message(), (400, "Missing X-Nonce header"));
    assert_eq!(ReplayError::DuplicateNonce.status_and_message(), (409, "Duplicate nonce detected (replay attack)"));
}

#[test]
fn extracts_nonce_from_header() {
    assert_eq!(extract_nonce(Some("test-nonce-123")), Some("test-nonce-123".to_string()));
}

#[test]
fn returns_none_when_nonce_missing() {
    assert_eq!(extract_nonce(None), None);
}
