use stellar_router::plugin_interface::{
    AccountId, LiquidityPlugin, NoopLiquidityPlugin, PluginError, NOOP_PLUGIN_NAME, NOOP_PLUGIN_VERSION,
};

fn quote_through_interface<P: LiquidityPlugin>(plugin: &P, amount: i128) -> Result<i128, PluginError> {
    plugin.get_quote(AccountId(1), AccountId(2), amount)
}

#[test]
fn lib_test_name_and_version() {
    let plugin = NoopLiquidityPlugin;
    assert_eq!(plugin.name(), NOOP_PLUGIN_NAME);
    assert_eq!(plugin.name(), "liquidity/noop");
    assert_eq!(plugin.version(), NOOP_PLUGIN_VERSION);
}

#[test]
fn test_get_quote_is_one_for_one() {
    assert_eq!(NoopLiquidityPlugin.get_quote(AccountId(1), AccountId(2), 1_000), Ok(1_000));
}

#[test]
fn lib_test_get_quote_same_token_fails() {
    assert_eq!(NoopLiquidityPlugin.get_quote(AccountId(1), AccountId(1), 1_000), Err(PluginError::SameToken));
}

#[test]
fn lib_test_get_quote_invalid_amount_fails() {
    assert_eq!(NoopLiquidityPlugin.get_quote(AccountId(1), AccountId(2), 0), Err(PluginError::InvalidAmount));
}

#[test]
fn lib_test_execute_swap_success() {
    let mut plugin = NoopLiquidityPlugin;
    assert_eq!(plugin.execute_swap(AccountId(9), AccountId(1), AccountId(2), 1_000, 1_000), Ok(1_000));
}

#[test]
fn lib_test_execute_swap_min_amount_out_fails() {
    let mut plugin = NoopLiquidityPlugin;
    assert_eq!(
        plugin.execute_swap(AccountId(9), AccountId(1), AccountId(2), 1_000, 1_001),
        Err(PluginError::InsufficientOutput)
    );
}

#[test]
fn test_generic_client_calls_any_implementation() {
    let plugin = NoopLiquidityPlugin;
    assert_eq!(quote_through_interface(&plugin, 500), Ok(500));
    assert_eq!(plugin.name(), NOOP_PLUGIN_NAME);
    assert_eq!(plugin.version(), NOOP_PLUGIN_VERSION);
}

#[test]
fn interface_error_codes_are_stable() {
    assert_eq!(PluginError::NotInitialized.code(), 2);
    assert_eq!(PluginError::Unauthorized.code(), 3);
    assert_eq!(PluginError::SameToken.code(), 4);
    assert_eq!(PluginError::InvalidAmount.code(), 5);
    assert_eq!(PluginError::InsufficientOutput.code(), 7);
}
