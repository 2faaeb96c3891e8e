use std::collections::HashMap;
use stellar_router::fees::{
    FeeConfig, SimulateTransactionResult, BASE_FEE_ENV, DEFAULT_BASE_FEE, DEFAULT_NORMAL_MULTIPLIER,
    DEFAULT_RESOURCE_FEE_DIVISOR, DEFAULT_RESOURCE_FEE_FLOOR, DEFAULT_SURGE_LOAD_THRESHOLD_BPS,
    DEFAULT_SURGE_MULTIPLIER, NORMAL_MULTIPLIER_ENV, RESOURCE_FEE_DIVISOR_ENV,
    RESOURCE_FEE_FLOOR_ENV, SURGE_LOAD_THRESHOLD_BPS_ENV, SURGE_MULTIPLIER_ENV,
};
use stellar_router::fees::status_from_rpc;
use stellar_router::types::TransactionStatus;

#[test]
fn fee_config_defaults_when_env_absent() {
    let config = FeeConfig::from_lookup(|_| None);
    assert_eq!(config, FeeConfig::default());
    assert_eq!(config.base_fee, DEFAULT_BASE_FEE);
    assert_eq!(config.resource_fee_floor, DEFAULT_RESOURCE_FEE_FLOOR);
    assert_eq!(config.resource_fee_divisor, DEFAULT_RESOURCE_FEE_DIVISOR);
    assert_eq!(config.surge_load_threshold_bps, DEFAULT_SURGE_LOAD_THRESHOLD_BPS);
    assert_eq!(config.surge_multiplier, DEFAULT_SURGE_MULTIPLIER);
    assert_eq!(config.normal_multiplier, DEFAULT_NORMAL_MULTIPLIER);
}

#[test]
fn fee_config_reads_overrides() {
    let env = HashMap::from([
        (BASE_FEE_ENV, "250"),
        (RESOURCE_FEE_FLOOR_ENV, "500"),
        (RESOURCE_FEE_DIVISOR_ENV, "2000"),
        (SURGE_LOAD_THRESHOLD_BPS_ENV, "9000"),
        (SURGE_MULTIPLIER_ENV, "300"),
        (NORMAL_MULTIPLIER_ENV, "110"),
    ]);
    let config = FeeConfig::from_lookup(|key| env.get(key).map(|v| v.to_string()));
    assert_eq!(config.base_fee, 250);
    assert_eq!(config.resource_fee_floor, 500);
    assert_eq!(config.resource_fee_divisor, 2_000);
    assert_eq!(config.surge_load_threshold_bps, 9_000);
    assert_eq!(config.surge_multiplier, 300);
    assert_eq!(config.normal_multiplier, 110);
}

#[test]
fn fee_config_rejects_invalid_or_nonpositive_values() {
    let env = HashMap::from([
        (BASE_FEE_ENV, "not-a-number"),
        (RESOURCE_FEE_FLOOR_ENV, "0"),
        (RESOURCE_FEE_DIVISOR_ENV, "-5"),
        (SURGE_MULTIPLIER_ENV, "   "),
    ]);
    let config = FeeConfig::from_lookup(|key| env.get(key).map(|v| v.to_string()));
    assert_eq!(config, FeeConfig::default());
}

#[test]
fn fee_config_trims_whitespace() {
    let env = HashMap::from([(BASE_FEE_ENV, "  175  ")]);
    let config = FeeConfig::from_lookup(|key| env.get(key).map(|v| v.to_string()));
    assert_eq!(config.base_fee, 175);
}

#[test]
fn heuristic_estimate_uses_defaults() {
    let config = FeeConfig::default();
    let fee = config.heuristic_estimate(50_000, 0);
    assert_eq!(fee.base_fee, 100);
    assert_eq!(fee.resource_fee, 100);
    assert_eq!(fee.surge_multiplier, 100);
    assert!(!fee.high_load);
    assert_eq!(fee.total_fee, 200);
}

#[test]
fn heuristic_estimate_applies_surge_above_threshold() {
    let config = FeeConfig::default();
    let fee = config.heuristic_estimate(1_000_000, 8_000);
    assert_eq!(fee.resource_fee, 1_000);
    assert_eq!(fee.surge_multiplier, 200);
    assert!(fee.high_load);
    assert_eq!(fee.total_fee, 2_200);
}

#[test]
fn heuristic_estimate_honours_custom_config() {
    let config = FeeConfig {
        base_fee: 200,
        resource_fee_floor: 50,
        resource_fee_divisor: 500,
        surge_load_threshold_bps: 5_000,
        surge_multiplier: 150,
        normal_multiplier: 100,
    };
    let fee = config.heuristic_estimate(100_000, 5_000);
    assert_eq!(fee.base_fee, 200);
    assert_eq!(fee.resource_fee, 200);
    assert_eq!(fee.surge_multiplier, 150);
    assert!(fee.high_load);
    assert_eq!(fee.total_fee, 600);
}

#[test]
fn heuristic_estimate_truncates_negative_amounts_toward_zero() {
    let config = FeeConfig::default();
    let fee = config.heuristic_estimate(-5_500, 0);
    assert_eq!(fee.resource_fee, 100);
    assert_eq!(config.apply_surge(-101, 0, 150), -151);
}

#[test]
fn simulate_uses_the_reported_fee_or_falls_back() {
    let config = FeeConfig::default();
    let ok = SimulateTransactionResult { min_resource_fee: " 2500 ".to_string(), error: None, events: vec![] };
    let fee = config.simulate(Ok(ok), 1, 0);
    assert_eq!(fee.resource_fee, 2_500);
    assert_eq!(fee.total_fee, 2_600);
    assert!(fee.would_succeed);
    let failing = SimulateTransactionResult { min_resource_fee: "abc".to_string(), error: Some("trap".to_string()), events: vec![] };
    let fee = config.simulate(Ok(failing), 1, 9_000);
    assert_eq!(fee.resource_fee, 1_000);
    assert_eq!(fee.total_fee, 2_200);
    assert!(!fee.would_succeed);
    let fee = config.simulate(Err("unreachable".to_string()), 1_000_000, 0);
    assert_eq!(fee.resource_fee, 1_000);
    assert!(fee.would_succeed);
}

#[test]
fn rpc_statuses_map_to_transaction_statuses() {
    assert_eq!(status_from_rpc("SUCCESS"), TransactionStatus::Confirmed);
    assert_eq!(status_from_rpc("FAILED"), TransactionStatus::Failed);
    assert_eq!(status_from_rpc("NOT_FOUND"), TransactionStatus::Pending);
    assert_eq!(status_from_rpc("PENDING"), TransactionStatus::Submitted);
}
