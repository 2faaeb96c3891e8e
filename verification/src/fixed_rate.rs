//! The fixed-rate liquidity plugin: quotes with a fixed fee in basis points,
//! executes swaps with slippage protection, counts them, and lets its admin
//! change the fee or hand over the admin role.
//!
//! The plugin's storage is modelled by [`FixedRateLiquidityPlugin`]; each
//! entry point returns the events it publishes. The host checks the
//! caller's authorization before an entry point runs.

use vstd::prelude::*;
use crate::plugin_interface::AccountId;

verus! {

/// Fee applied when the admin has set none: 30 bps (0.30%).
pub const DEFAULT_FEE_BPS: i128 = 30;

/// The well-known name the plugin registers under.
pub const PLUGIN_NAME: &'static str = "liquidity/example-fixed-rate";

/// The plugin version.
pub const PLUGIN_VERSION: u32 = 1;

/// Errors of the fixed-rate plugin.
#[derive(Debug, Clone, Copy, PartialEq, Eq, Structural)]
pub enum PluginError {
    AlreadyInitialized,
    NotInitialized,
    Unauthorized,
    /// `token_in` and `token_out` must be different addresses.
    SameToken,
    /// `amount_in` must be positive.
    InvalidAmount,
    /// `fee_bps` must be within `[0, 10_000)`.
    InvalidFeeBps,
    /// The computed `amount_out` is below the caller's `min_amount_out`.
    InsufficientOutput,
}

impl PluginError {
    /// The numeric code of the error.
    pub fn code(&self) -> (r: u32)
        ensures
            r == (match self {
                PluginError::AlreadyInitialized => 1u32,
                PluginError::NotInitialized => 2u32,
                PluginError::Unauthorized => 3u32,
                PluginError::SameToken => 4u32,
                PluginError::InvalidAmount => 5u32,
                PluginError::InvalidFeeBps => 6u32,
                PluginError::InsufficientOutput => 7u32,
            }),
    {
        match self {
            PluginError::AlreadyInitialized => 1,
            PluginError::NotInitialized => 2,
            PluginError::Unauthorized => 3,
            PluginError::SameToken => 4,
            PluginError::InvalidAmount => 5,
            PluginError::InvalidFeeBps => 6,
            PluginError::InsufficientOutput => 7,
        }
    }
}

/// An event the plugin publishes.
#[derive(Debug, Clone, Copy, PartialEq, Eq, Structural)]
pub enum PluginEvent {
    QuoteGenerated { token_in: AccountId, token_out: AccountId, amount_in: i128, amount_out: i128, fee_bps: i128 },
    SwapExecuted { caller: AccountId, token_in: AccountId, token_out: AccountId, amount_in: i128, amount_out: i128 },
    FeeUpdated { admin: AccountId, fee_bps: i128 },
    AdminTransferred { old_admin: AccountId, new_admin: AccountId },
}

/// The storage of the plugin.
#[derive(Debug, Clone, Copy)]
pub struct FixedRateLiquidityPlugin {
    admin: Option<AccountId>,
    fee_bps: Option<i128>,
    swap_count: Option<u64>,
}

/// `amount_in` after a fee of `fee_bps` basis points, rounded down.
pub open spec fn spec_amount_out(amount_in: int, fee_bps: int) -> int {
    amount_in * (10_000 - fee_bps) / 10_000
}

/// Whether `fee_bps` is an accepted fee.
pub open spec fn valid_fee(fee_bps: int) -> bool {
    0 <= fee_bps < 10_000
}

impl FixedRateLiquidityPlugin {
    /// A stored fee is always accepted.
    pub open spec fn wf(&self) -> bool {
        self.spec_fee_bps_opt() matches Some(f) ==> valid_fee(f as int)
    }

    pub closed spec fn spec_admin(&self) -> Option<AccountId> {
        self.admin
    }

    pub closed spec fn spec_fee_bps_opt(&self) -> Option<i128> {
        self.fee_bps
    }

    /// The fee in force.
    pub open spec fn spec_fee_bps(&self) -> i128 {
        match self.spec_fee_bps_opt() {
            Some(f) => f,
            None => DEFAULT_FEE_BPS,
        }
    }

    pub closed spec fn spec_swap_count(&self) -> u64 {
        match self.swap_count {
            Some(n) => n,
            None => 0,
        }
    }

    /// A freshly deployed plugin: no admin, the default fee, no swaps.
    pub fn new() -> (r: Self)
        ensures
            r.wf(),
            r.spec_admin() is None,
            r.spec_fee_bps() == DEFAULT_FEE_BPS,
            r.spec_swap_count() == 0,
    {
        FixedRateLiquidityPlugin { admin: None, fee_bps: None, swap_count: None }
    }

    /// Sets the admin of the plugin, once.
    pub fn initialize(&mut self, admin: AccountId) -> (r: Result<(), PluginError>)
        requires
            old(self).wf(),
        ensures
            final(self).wf(),
            old(self).spec_admin() is Some ==> r == Err::<(), PluginError>(PluginError::AlreadyInitialized)
                && *final(self) == *old(self),
            old(self).spec_admin() is None ==> r is Ok && final(self).spec_admin() == Some(admin)
                && final(self).spec_fee_bps_opt() == old(self).spec_fee_bps_opt() && final(self).spec_swap_count() == 0,
    {
        if self.admin.is_some() {
            return Err(PluginError::AlreadyInitialized);
        }
        self.admin = Some(admin);
        self.swap_count = Some(0);
        Ok(())
    }

    /// The registration name.
    pub fn name(&self) -> (r: &'static str)
        ensures
            r@ == PLUGIN_NAME@,
    {
        PLUGIN_NAME
    }

    /// The plugin version.
    pub fn version(&self) -> (r: u32)
        ensures
            r == PLUGIN_VERSION,
    {
        PLUGIN_VERSION
    }

    /// The fee in force, in basis points.
    pub fn fee_bps(&self) -> (r: i128)
        ensures
            r == self.spec_fee_bps(),
    {
        match self.fee_bps {
            Some(f) => f,
            None => DEFAULT_FEE_BPS,
        }
    }

    /// The number of swaps executed.
    pub fn swap_count(&self) -> (r: u64)
        ensures
            r == self.spec_swap_count(),
    {
        match self.swap_count {
            Some(n) => n,
            None => 0,
        }
    }

    /// The admin.
    pub fn admin(&self) -> (r: Result<AccountId, PluginError>)
        ensures
            match self.spec_admin() {
                Some(a) => r == Ok::<AccountId, PluginError>(a),
                None => r == Err::<AccountId, PluginError>(PluginError::NotInitialized),
            },
    {
        match self.admin {
            Some(a) => Ok(a),
            None => Err(PluginError::NotInitialized),
        }
    }

    /// Quotes `amount_in`: `amount_in * (10 000 - fee_bps) / 10 000`, with a
    /// `quote_generated` event. Refused for a single token or a non-positive
    /// amount.
    pub fn get_quote(&self, token_in: AccountId, token_out: AccountId, amount_in: i128) -> (r: Result<(i128, PluginEvent), PluginError>)
        requires
            self.wf(),
            token_in != token_out && amount_in > 0 ==> amount_in * (10_000 - self.spec_fee_bps()) <= i128::MAX,
        ensures
            token_in == token_out ==> r == Err::<(i128, PluginEvent), PluginError>(PluginError::SameToken),
            token_in != token_out && amount_in <= 0 ==> r == Err::<(i128, PluginEvent), PluginError>(PluginError::InvalidAmount),
            token_in != token_out && amount_in > 0 ==> {
                let out = spec_amount_out(amount_in as int, self.spec_fee_bps() as int);
                &&& r matches Ok((q, ev))
                &&& q == out
                &&& ev == PluginEvent::QuoteGenerated { token_in, token_out, amount_in, amount_out: q, fee_bps: self.spec_fee_bps() }
            },
    {
        if token_in == token_out {
            return Err(PluginError::SameToken);
        }
        if amount_in <= 0 {
            return Err(PluginError::InvalidAmount);
        }
        let fee_bps = self.fee_bps();
        assert(amount_in * (10_000 - fee_bps) > 0) by (nonlinear_arith)
            requires
                amount_in > 0,
                0 <= fee_bps < 10_000,
        ;
        let amount_out = amount_in * (10_000 - fee_bps) / 10_000;
        Ok((amount_out, PluginEvent::QuoteGenerated { token_in, token_out, amount_in, amount_out, fee_bps }))
    }

    /// Executes a swap: the quoted output, refused below `min_amount_out`;
    /// a success counts one more swap and publishes `swap_executed` after
    /// the quote's event. A refusal changes nothing.
    pub fn execute_swap(
        &mut self,
        caller: AccountId,
        token_in: AccountId,
        token_out: AccountId,
        amount_in: i128,
        min_amount_out: i128,
    ) -> (r: Result<(i128, Vec<PluginEvent>), PluginError>)
        requires
            old(self).wf(),
            token_in != token_out && amount_in > 0 ==> amount_in * (10_000 - old(self).spec_fee_bps()) <= i128::MAX,
            old(self).spec_swap_count() < u64::MAX,
        ensures
            final(self).wf(),
            final(self).spec_admin() == old(self).spec_admin(),
            final(self).spec_fee_bps_opt() == old(self).spec_fee_bps_opt(),
            token_in == token_out ==> r == Err::<(i128, Vec<PluginEvent>), PluginError>(PluginError::SameToken),
            token_in != token_out && amount_in <= 0 ==> r == Err::<(i128, Vec<PluginEvent>), PluginError>(PluginError::InvalidAmount),
            token_in != token_out && amount_in > 0 ==> {
                let out = spec_amount_out(amount_in as int, old(self).spec_fee_bps() as int);
                if out < min_amount_out {
                    r == Err::<(i128, Vec<PluginEvent>), PluginError>(PluginError::InsufficientOutput)
                } else {
                    &&& r matches Ok((q, events))
                    &&& q == out
                    &&& events@ == seq![
                        PluginEvent::QuoteGenerated { token_in, token_out, amount_in, amount_out: q, fee_bps: old(self).spec_fee_bps() },
                        PluginEvent::SwapExecuted { caller, token_in, token_out, amount_in, amount_out: q },
                    ]
                }
            },
            r is Ok ==> final(self).spec_swap_count() == old(self).spec_swap_count() + 1,
            r is Err ==> final(self).spec_swap_count() == old(self).spec_swap_count(),
            r matches Ok((q, _)) ==> q >= min_amount_out,
    {
        let (amount_out, quoted) = match self.get_quote(token_in, token_out, amount_in) {
            Ok(x) => x,
            Err(e) => return Err(e),
        };
        if amount_out < min_amount_out {
            return Err(PluginError::InsufficientOutput);
        }
        let count = self.swap_count();
        self.swap_count = Some(count + 1);
        let mut events: Vec<PluginEvent> = Vec::new();
        events.push(quoted);
        events.push(PluginEvent::SwapExecuted { caller, token_in, token_out, amount_in, amount_out });
        Ok((amount_out, events))
    }

    /// The admin check of the plugin: the admin must be set and be `caller`.
    pub fn require_admin(&self, caller: AccountId) -> (r: Result<(), PluginError>)
        ensures
            match self.spec_admin() {
                None => r == Err::<(), PluginError>(PluginError::NotInitialized),
                Some(a) => if a == caller {
                    r == Ok::<(), PluginError>(())
                } else {
                    r == Err::<(), PluginError>(PluginError::Unauthorized)
                },
            },
    {
        match self.admin {
            None => Err(PluginError::NotInitialized),
            Some(a) => if a == caller {
                Ok(())
            } else {
                Err(PluginError::Unauthorized)
            },
        }
    }

    /// Sets the fee; only the admin may, and only to a value in
    /// `[0, 10 000)`. Publishes `fee_updated`.
    pub fn set_fee(&mut self, caller: AccountId, fee_bps: i128) -> (r: Result<PluginEvent, PluginError>)
        requires
            old(self).wf(),
        ensures
            final(self).wf(),
            final(self).spec_admin() == old(self).spec_admin(),
            final(self).spec_swap_count() == old(self).spec_swap_count(),
            match old(self).spec_admin() {
                None => r == Err::<PluginEvent, PluginError>(PluginError::NotInitialized),
                Some(a) => if a != caller {
                    r == Err::<PluginEvent, PluginError>(PluginError::Unauthorized)
                } else if !valid_fee(fee_bps as int) {
                    r == Err::<PluginEvent, PluginError>(PluginError::InvalidFeeBps)
                } else {
                    r == Ok::<PluginEvent, PluginError>(PluginEvent::FeeUpdated { admin: caller, fee_bps })
                },
            },
            r is Ok ==> final(self).spec_fee_bps() == fee_bps,
            r is Err ==> final(self).spec_fee_bps_opt() == old(self).spec_fee_bps_opt(),
    {
        match self.require_admin(caller) {
            Err(e) => return Err(e),
            Ok(()) => {},
        }
        if !(0 <= fee_bps && fee_bps < 10_000) {
            return Err(PluginError::InvalidFeeBps);
        }
        self.fee_bps = Some(fee_bps);
        Ok(PluginEvent::FeeUpdated { admin: caller, fee_bps })
    }

    /// Hands the admin role from `current` to `new_admin`. Publishes
    /// `admin_transferred`.
    pub fn transfer_admin(&mut self, current: AccountId, new_admin: AccountId) -> (r: Result<PluginEvent, PluginError>)
        requires
            old(self).wf(),
        ensures
            final(self).wf(),
            final(self).spec_fee_bps_opt() == old(self).spec_fee_bps_opt(),
            final(self).spec_swap_count() == old(self).spec_swap_count(),
            match old(self).spec_admin() {
                None => r == Err::<PluginEvent, PluginError>(PluginError::NotInitialized)
                    && final(self).spec_admin() == old(self).spec_admin(),
                Some(a) => if a != current {
                    r == Err::<PluginEvent, PluginError>(PluginError::Unauthorized)
                        && final(self).spec_admin() == old(self).spec_admin()
                } else {
                    r == Ok::<PluginEvent, PluginError>(PluginEvent::AdminTransferred { old_admin: current, new_admin })
                        && final(self).spec_admin() == Some(new_admin)
                },
            },
    {
        match self.require_admin(current) {
            Err(e) => return Err(e),
            Ok(()) => {},
        }
        self.admin = Some(new_admin);
        Ok(PluginEvent::AdminTransferred { old_admin: current, new_admin })
    }
}

/// A quote never exceeds the amount put in, and never falls below zero.
pub proof fn lemma_quote_within_input(amount_in: int, fee_bps: int)
    requires
        amount_in > 0,
        valid_fee(fee_bps),
    ensures
        0 <= spec_amount_out(amount_in, fee_bps) <= amount_in,
{
    assert(0 <= amount_in * (10_000 - fee_bps) <= amount_in * 10_000) by (nonlinear_arith)
        requires
            amount_in > 0,
            0 <= fee_bps < 10_000,
    ;
    assert(amount_in * (10_000 - fee_bps) / 10_000 <= amount_in * 10_000 / 10_000) by (nonlinear_arith)
        requires
            0 <= amount_in * (10_000 - fee_bps) <= amount_in * 10_000,
    ;
    assert(amount_in * 10_000 / 10_000 == amount_in) by (nonlinear_arith);
}

/// A larger input never gets a smaller quote.
pub proof fn lemma_quote_monotone(a: int, b: int, fee_bps: int)
    requires
        0 < a <= b,
        valid_fee(fee_bps),
    ensures
        spec_amount_out(a, fee_bps) <= spec_amount_out(b, fee_bps),
{
    assert(a * (10_000 - fee_bps) <= b * (10_000 - fee_bps)) by (nonlinear_arith)
        requires
            0 < a <= b,
            0 <= fee_bps < 10_000,
    ;
    assert(a * (10_000 - fee_bps) / 10_000 <= b * (10_000 - fee_bps) / 10_000) by (nonlinear_arith)
        requires
            0 <= a * (10_000 - fee_bps) <= b * (10_000 - fee_bps),
    ;
}

/// A higher fee never gives a larger quote.
pub proof fn lemma_quote_antitone_in_fee(amount_in: int, f: int, g: int)
    requires
        amount_in > 0,
        valid_fee(f),
        valid_fee(g),
        f <= g,
    ensures
        spec_amount_out(amount_in, g) <= spec_amount_out(amount_in, f),
{
    assert(amount_in * (10_000 - g) <= amount_in * (10_000 - f)) by (nonlinear_arith)
        requires
            amount_in > 0,
            f <= g,
    ;
    assert(amount_in * (10_000 - g) / 10_000 <= amount_in * (10_000 - f) / 10_000) by (nonlinear_arith)
        requires
            0 <= amount_in * (10_000 - g) <= amount_in * (10_000 - f),
    ;
}

} // verus!
