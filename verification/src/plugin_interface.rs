//! The liquidity plugin interface of the router, and its pass-through
//! reference implementation.
//!
//! Accounts and tokens are identified by [`AccountId`]; the host checks the
//! caller's authorization before a swap reaches the plugin.

use vstd::prelude::*;

verus! {

/// An account or token address.
#[derive(Debug, Clone, Copy, PartialEq, Eq, Structural)]
pub struct AccountId(pub u64);

/// Errors every liquidity plugin reports through the interface; the codes
/// are what callers observe on-chain.
#[derive(Debug, Clone, Copy, PartialEq, Eq, Structural)]
pub enum PluginError {
    /// The plugin requires initialization before it can serve this call.
    NotInitialized,
    /// The caller is not permitted to perform this operation.
    Unauthorized,
    /// `token_in` and `token_out` must be different addresses.
    SameToken,
    /// `amount_in` must be positive.
    InvalidAmount,
    /// The computed `amount_out` is below the caller's `min_amount_out`.
    InsufficientOutput,
}

impl PluginError {
    /// The numeric code of the error.
    pub fn code(&self) -> (r: u32)
        ensures
            r == (match self {
                PluginError::NotInitialized => 2u32,
                PluginError::Unauthorized => 3u32,
                PluginError::SameToken => 4u32,
                PluginError::InvalidAmount => 5u32,
                PluginError::InsufficientOutput => 7u32,
            }),
    {
        match self {
            PluginError::NotInitialized => 2,
            PluginError::Unauthorized => 3,
            PluginError::SameToken => 4,
            PluginError::InvalidAmount => 5,
            PluginError::InsufficientOutput => 7,
        }
    }
}

/// What every liquidity plugin checks first: distinct tokens, then a
/// positive amount.
pub open spec fn pair_error(token_in: AccountId, token_out: AccountId, amount_in: i128) -> Option<PluginError> {
    if token_in == token_out {
        Some(PluginError::SameToken)
    } else if amount_in <= 0 {
        Some(PluginError::InvalidAmount)
    } else {
        None
    }
}

/// The interface every liquidity plugin exposes.
pub trait LiquidityPlugin {
    /// The quote a plugin gives on a valid request.
    spec fn spec_quote(&self, token_in: AccountId, token_out: AccountId, amount_in: i128) -> i128;

    /// Quotes `amount_in` of `token_in` in `token_out`, after the plugin's
    /// fees: refused for a single token or a non-positive amount.
    fn get_quote(&self, token_in: AccountId, token_out: AccountId, amount_in: i128) -> (r: Result<i128, PluginError>)
        ensures
            match pair_error(token_in, token_out, amount_in) {
                Some(e) => r == Err::<i128, PluginError>(e),
                None => r == Ok::<i128, PluginError>(self.spec_quote(token_in, token_out, amount_in)),
            };

    /// Executes the swap the quote describes; the output is never below
    /// `min_amount_out`.
    fn execute_swap(&mut self, caller: AccountId, token_in: AccountId, token_out: AccountId, amount_in: i128, min_amount_out: i128) -> (r: Result<i128, PluginError>)
        ensures
            match pair_error(token_in, token_out, amount_in) {
                Some(e) => r == Err::<i128, PluginError>(e),
                None => {
                    let q = old(self).spec_quote(token_in, token_out, amount_in);
                    if q < min_amount_out {
                        r == Err::<i128, PluginError>(PluginError::InsufficientOutput)
                    } else {
                        r == Ok::<i128, PluginError>(q)
                    }
                },
            },
            r matches Ok(out) ==> out >= min_amount_out;

    /// The well-known name the plugin registers under.
    fn name(&self) -> (r: &'static str);

    /// The plugin version.
    fn version(&self) -> (r: u32);
}

/// The well-known name of the pass-through plugin.
pub const NOOP_PLUGIN_NAME: &'static str = "liquidity/noop";

/// The version of the pass-through plugin.
pub const NOOP_PLUGIN_VERSION: u32 = 1;

/// The pass-through plugin: quotes one for one, with no fee and no state.
#[derive(Debug, Clone, Copy)]
pub struct NoopLiquidityPlugin;

impl LiquidityPlugin for NoopLiquidityPlugin {
    open spec fn spec_quote(&self, token_in: AccountId, token_out: AccountId, amount_in: i128) -> i128 {
        amount_in
    }

    fn get_quote(&self, token_in: AccountId, token_out: AccountId, amount_in: i128) -> (r: Result<i128, PluginError>) {
        if token_in == token_out {
            return Err(PluginError::SameToken);
        }
        if amount_in <= 0 {
            return Err(PluginError::InvalidAmount);
        }
        Ok(amount_in)
    }

    fn execute_swap(&mut self, caller: AccountId, token_in: AccountId, token_out: AccountId, amount_in: i128, min_amount_out: i128) -> (r: Result<i128, PluginError>) {
        let amount_out = match self.get_quote(token_in, token_out, amount_in) {
            Ok(q) => q,
            Err(e) => return Err(e),
        };
        if amount_out < min_amount_out {
            return Err(PluginError::InsufficientOutput);
        }
        Ok(amount_out)
    }

    fn name(&self) -> (r: &'static str)
        ensures
            r@ == NOOP_PLUGIN_NAME@,
    {
        NOOP_PLUGIN_NAME
    }

    fn version(&self) -> (r: u32)
        ensures
            r == NOOP_PLUGIN_VERSION,
    {
        NOOP_PLUGIN_VERSION
    }
}

} // verus!
