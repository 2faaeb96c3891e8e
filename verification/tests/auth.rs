use stellar_router::auth::{api_keys_equal, authorize, extract_api_key, AuthConfig, AuthError, AUTH_KEY_MISSING};

#[test]
fn test_api_keys_equal_matching_keys() {
    assert!(api_keys_equal("secret-api-key-123", "secret-api-key-123"));
}

#[test]
fn test_api_keys_equal_mismatch_at_start() {
    assert!(!api_keys_equal("aaaa", "bbbb"));
}

#[test]
fn test_api_keys_equal_mismatch_at_end() {
    assert!(!api_keys_equal("abcX", "abcY"));
}

#[test]
fn test_api_keys_equal_different_lengths() {
    assert!(!api_keys_equal("short", "shortlong"));
    assert!(!api_keys_equal("longlong", "long"));
}

#[test]
fn test_api_keys_equal_empty_keys() {
    assert!(api_keys_equal("", ""));
    assert!(!api_keys_equal("", "not-empty"));
    assert!(!api_keys_equal("not-empty", ""));
}

#[test]
fn test_from_env_auth_disabled_by_default() {
    let config = AuthConfig::from_env(None, None).expect("should succeed when auth is disabled");
    assert!(!config.enabled);
    assert!(config.api_key.is_none());
}

#[test]
fn test_from_env_auth_enabled_with_key() {
    let config = AuthConfig::from_env(Some("true"), Some("my-secret-key".to_string()))
        .expect("should succeed when auth is enabled and key is set");
    assert!(config.enabled);
    assert_eq!(config.api_key.as_deref(), Some("my-secret-key"));
}

#[test]
fn test_from_env_auth_enabled_without_key_fails() {
    let result = AuthConfig::from_env(Some("true"), None);
    let err = result.unwrap_err().message;
    assert!(err.contains("ROUTER_AUTH_ENABLED=true") && err.contains("ROUTER_API_KEY"));
    assert_eq!(err, AUTH_KEY_MISSING);
}

#[test]
fn test_from_env_auth_explicitly_disabled_no_key() {
    let config = AuthConfig::from_env(Some("false"), None).expect("should succeed when auth is explicitly disabled");
    assert!(!config.enabled);
}

#[test]
fn test_from_env_key_set_but_auth_disabled() {
    let config = AuthConfig::from_env(None, Some("unused-key".to_string())).expect("should succeed");
    assert!(!config.enabled);
}

#[test]
fn auth_flag_is_case_insensitive() {
    assert!(AuthConfig::from_env(Some("TRUE"), Some("k".to_string())).unwrap().enabled);
    assert!(!AuthConfig::from_env(Some("yes"), Some("k".to_string())).unwrap().enabled);
}

#[test]
fn test_extract_bearer_token() {
    assert_eq!(extract_api_key(Some("Bearer test-key-123"), None), Some("test-key-123".to_string()));
}

#[test]
fn test_extract_api_key_header() {
    assert_eq!(extract_api_key(None, Some("test-key-456")), Some("test-key-456".to_string()));
}

#[test]
fn test_extract_api_key_missing() {
    assert_eq!(extract_api_key(None, None), None);
}

#[test]
fn test_bearer_token_takes_precedence() {
    assert_eq!(extract_api_key(Some("Bearer bearer-key"), Some("header-key")), Some("bearer-key".to_string()));
}

#[test]
fn non_bearer_authorization_falls_back_to_header() {
    assert_eq!(extract_api_key(Some("Basic abc"), Some("header-key")), Some("header-key".to_string()));
    assert_eq!(extract_api_key(Some("Basic abc"), None), None);
}

#[test]
fn authorize_answers_each_failure() {
    let on = AuthConfig::from_env(Some("true"), Some("k1".to_string())).unwrap();
    assert_eq!(authorize(&on, Some("k1")), Ok(()));
    assert_eq!(authorize(&on, Some("k2")), Err(AuthError::InvalidKey));
    assert_eq!(authorize(&on, None), Err(AuthError::MissingKey));
    assert_eq!(AuthError::InvalidKey.status_and_message(), (401, "Invalid API key"));
    assert_eq!(AuthError::MissingKey.status_and_message(), (401, "Missing API key"));
    assert_eq!(AuthError::Unauthorized.status_and_message(), (403, "Unauthorized"));
    let off = AuthConfig::from_env(None, None).unwrap();
    assert_eq!(authorize(&off, None), Ok(()));
}
