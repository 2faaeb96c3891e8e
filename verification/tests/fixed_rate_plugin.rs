use stellar_router::fixed_rate::{
    FixedRateLiquidityPlugin, PluginError, PluginEvent, DEFAULT_FEE_BPS, PLUGIN_NAME, PLUGIN_VERSION,
};
use stellar_router::plugin_interface::AccountId;

fn setup_initialized() -> (AccountId, FixedRateLiquidityPlugin) {
    let admin = AccountId(1);
    let mut plugin = FixedRateLiquidityPlugin::new();
    plugin.initialize(admin).unwrap();
    (admin, plugin)
}

#[test]
fn test_name_and_version() {
    let plugin = FixedRateLiquidityPlugin::new();
    assert_eq!(plugin.name(), PLUGIN_NAME);
    assert_eq!(plugin.name(), "liquidity/example-fixed-rate");
    assert_eq!(plugin.version(), PLUGIN_VERSION);
}

#[test]
fn test_get_quote_default_fee() {
    let plugin = FixedRateLiquidityPlugin::new();
    assert_eq!(plugin.get_quote(AccountId(10), AccountId(11), 1_000).unwrap().0, 997);
}

#[test]
fn test_get_quote_custom_fee() {
    let (admin, mut plugin) = setup_initialized();
    plugin.set_fee(admin, 100).unwrap();
    assert_eq!(plugin.get_quote(AccountId(10), AccountId(11), 1_000).unwrap().0, 990);
    assert_eq!(plugin.fee_bps(), 100);
}

#[test]
fn test_get_quote_same_token_fails() {
    let plugin = FixedRateLiquidityPlugin::new();
    assert_eq!(plugin.get_quote(AccountId(10), AccountId(10), 1_000), Err(PluginError::SameToken));
}

#[test]
fn test_get_quote_invalid_amount_fails() {
    let plugin = FixedRateLiquidityPlugin::new();
    assert_eq!(plugin.get_quote(AccountId(10), AccountId(11), 0), Err(PluginError::InvalidAmount));
}

#[test]
fn test_execute_swap_success() {
    let (_admin, mut plugin) = setup_initialized();
    let (out, events) = plugin.execute_swap(AccountId(5), AccountId(10), AccountId(11), 1_000, 997).unwrap();
    assert_eq!(out, 997);
    assert_eq!(plugin.swap_count(), 1);
    assert!(events.iter().any(|e| matches!(e, PluginEvent::SwapExecuted { .. })));
    assert_eq!(
        events[0],
        PluginEvent::QuoteGenerated {
            token_in: AccountId(10),
            token_out: AccountId(11),
            amount_in: 1_000,
            amount_out: 997,
            fee_bps: 30
        }
    );
}

#[test]
fn test_execute_swap_min_amount_out_fails() {
    let (_admin, mut plugin) = setup_initialized();
    let result = plugin.execute_swap(AccountId(5), AccountId(10), AccountId(11), 1_000, 998);
    assert_eq!(result, Err(PluginError::InsufficientOutput));
    assert_eq!(plugin.swap_count(), 0);
}

#[test]
fn test_initialize_twice_fails() {
    let (admin, mut plugin) = setup_initialized();
    assert_eq!(plugin.initialize(admin), Err(PluginError::AlreadyInitialized));
}

#[test]
fn test_set_fee_unauthorized_fails() {
    let (_admin, mut plugin) = setup_initialized();
    assert_eq!(plugin.set_fee(AccountId(99), 50), Err(PluginError::Unauthorized));
    assert_eq!(plugin.fee_bps(), DEFAULT_FEE_BPS);
}

#[test]
fn test_set_fee_invalid_fails() {
    let (admin, mut plugin) = setup_initialized();
    assert_eq!(plugin.set_fee(admin, 10_000), Err(PluginError::InvalidFeeBps));
    assert_eq!(plugin.set_fee(admin, -1), Err(PluginError::InvalidFeeBps));
    assert_eq!(plugin.set_fee(admin, 0), Ok(PluginEvent::FeeUpdated { admin, fee_bps: 0 }));
}

#[test]
fn test_transfer_admin() {
    let (admin, mut plugin) = setup_initialized();
    let new_admin = AccountId(2);
    assert_eq!(
        plugin.transfer_admin(admin, new_admin),
        Ok(PluginEvent::AdminTransferred { old_admin: admin, new_admin })
    );
    assert_eq!(plugin.admin(), Ok(new_admin));
    assert_eq!(plugin.transfer_admin(admin, admin), Err(PluginError::Unauthorized));
}

#[test]
fn test_admin_missing_returns_not_initialized() {
    let plugin = FixedRateLiquidityPlugin::new();
    assert_eq!(plugin.admin(), Err(PluginError::NotInitialized));
    let mut plugin = plugin;
    assert_eq!(plugin.set_fee(AccountId(1), 10), Err(PluginError::NotInitialized));
}

#[test]
fn error_codes_are_stable() {
    assert_eq!(PluginError::AlreadyInitialized.code(), 1);
    assert_eq!(PluginError::InvalidFeeBps.code(), 6);
    assert_eq!(PluginError::InsufficientOutput.code(), 7);
}

#[test]
fn quote_never_exceeds_input_and_grows_with_it() {
    let (admin, mut plugin) = setup_initialized();
    plugin.set_fee(admin, 9_999).unwrap();
    assert_eq!(plugin.get_quote(AccountId(1), AccountId(2), 9_999).unwrap().0, 0);
    assert_eq!(plugin.get_quote(AccountId(1), AccountId(2), 10_000).unwrap().0, 1);
}
