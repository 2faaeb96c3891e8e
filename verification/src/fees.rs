//! The fee-estimation model of the API server.
//!
//! Constants are read from `ROUTER_*` settings; a missing, unparseable or
//! non-positive setting falls back to its default.

use vstd::prelude::*;
use crate::poller::{parse_positive_setting, spec_positive_setting};
use crate::text::{chars_of, trim_chars, parse_i64, spec_parse_i64, spec_trim, str_eq, opt_view, opt_str_view};
use crate::types::TransactionStatus;

verus! {

pub const DEFAULT_BASE_FEE: i64 = 100;
pub const DEFAULT_RESOURCE_FEE_FLOOR: i64 = 100;
pub const DEFAULT_RESOURCE_FEE_DIVISOR: i64 = 1_000;
pub const DEFAULT_SURGE_LOAD_THRESHOLD_BPS: u32 = 8_000;
pub const DEFAULT_SURGE_MULTIPLIER: u32 = 200;
pub const DEFAULT_NORMAL_MULTIPLIER: u32 = 100;
/// Resource fee assumed when the RPC reports none that is usable.
pub const FALLBACK_RESOURCE_FEE: i64 = 1_000;

pub const BASE_FEE_ENV: &'static str = "ROUTER_BASE_FEE";
pub const RESOURCE_FEE_FLOOR_ENV: &'static str = "ROUTER_RESOURCE_FEE_FLOOR";
pub const RESOURCE_FEE_DIVISOR_ENV: &'static str = "ROUTER_RESOURCE_FEE_DIVISOR";
pub const SURGE_LOAD_THRESHOLD_BPS_ENV: &'static str = "ROUTER_SURGE_LOAD_THRESHOLD_BPS";
pub const SURGE_MULTIPLIER_ENV: &'static str = "ROUTER_SURGE_MULTIPLIER";
pub const NORMAL_MULTIPLIER_ENV: &'static str = "ROUTER_NORMAL_MULTIPLIER";

/// Integer division rounding toward zero, as Rust's `/` does.
pub open spec fn trunc_div(a: int, b: int) -> int
    recommends
        b != 0,
{
    let q = abs(a) / abs(b);
    if (a < 0) != (b < 0) {
        -q
    } else {
        q
    }
}

pub open spec fn abs(a: int) -> int {
    if a < 0 {
        -a
    } else {
        a
    }
}

/// `a / b` on `i64`, which rounds toward zero.
pub fn div_i64(a: i64, b: i64) -> (r: i64)
    requires
        b != 0,
        !(a == i64::MIN && b == -1),
    ensures
        r == trunc_div(a as int, b as int),
{
    let ua: u64 = if a < 0 {
        (0u64.wrapping_sub(a as u64))
    } else {
        a as u64
    };
    let ub: u64 = if b < 0 {
        (0u64.wrapping_sub(b as u64))
    } else {
        b as u64
    };
    assert(ua == abs(a as int)) by (bit_vector)
        requires
            ua == if a < 0 { 0u64.wrapping_sub(a as u64) } else { a as u64 },
    ;
    assert(ub == abs(b as int)) by (bit_vector)
        requires
            ub == if b < 0 { 0u64.wrapping_sub(b as u64) } else { b as u64 },
    ;
    assert(ua <= 0x8000_0000_0000_0000);
    assert(ub == 1 && ((a < 0) == (b < 0)) ==> ua <= i64::MAX);
    let q = ua / ub;
    if (a < 0) != (b < 0) {
        assert(q <= 0x8000_0000_0000_0000) by (nonlinear_arith)
            requires
                q == ua / ub,
                ub >= 1,
                ua <= 0x8000_0000_0000_0000,
        ;
        if q == 0x8000_0000_0000_0000u64 {
            i64::MIN
        } else {
            -(q as i64)
        }
    } else {
        assert(q <= i64::MAX) by (nonlinear_arith)
            requires
                q == ua / ub,
                ub >= 1,
                ua <= 0x8000_0000_0000_0000,
                ub == 1 ==> ua <= i64::MAX,
        {
            if ub >= 2 {
                assert(ua / ub <= ua / 2);
            }
        }
        q as i64
    }
}

/// Tunable constants of the heuristic fee model.
#[derive(Debug, Clone, Copy, PartialEq, Eq)]
pub struct FeeConfig {
    /// Flat base fee, in stroops.
    pub base_fee: i64,
    /// Lower bound of the derived resource fee.
    pub resource_fee_floor: i64,
    /// Divisor scaling `amount` into a resource fee.
    pub resource_fee_divisor: i64,
    /// Network load, in bps, from which surge pricing applies.
    pub surge_load_threshold_bps: u32,
    /// Multiplier (percent) applied under surge.
    pub surge_multiplier: u32,
    /// Multiplier (percent) applied under normal load.
    pub normal_multiplier: u32,
}

/// The fees estimated for one call.
#[derive(Debug, Clone, Copy, PartialEq, Eq)]
pub struct FeeBreakdown {
    pub base_fee: i64,
    pub resource_fee: i64,
    pub total_fee: i64,
    pub surge_multiplier: u32,
    pub high_load: bool,
    pub would_succeed: bool,
}

pub open spec fn default_fee_config() -> FeeConfig {
    FeeConfig {
        base_fee: 100,
        resource_fee_floor: 100,
        resource_fee_divisor: 1_000,
        surge_load_threshold_bps: 8_000,
        surge_multiplier: 200,
        normal_multiplier: 100,
    }
}

impl Default for FeeConfig {
    fn default() -> (r: Self)
        ensures
            r == default_fee_config(),
    {
        FeeConfig {
            base_fee: DEFAULT_BASE_FEE,
            resource_fee_floor: DEFAULT_RESOURCE_FEE_FLOOR,
            resource_fee_divisor: DEFAULT_RESOURCE_FEE_DIVISOR,
            surge_load_threshold_bps: DEFAULT_SURGE_LOAD_THRESHOLD_BPS,
            surge_multiplier: DEFAULT_SURGE_MULTIPLIER,
            normal_multiplier: DEFAULT_NORMAL_MULTIPLIER,
        }
    }
}

/// A strictly positive `i64` read from a trimmed setting, else `default`.
pub open spec fn spec_positive_i64(value: Option<Seq<char>>, default: int) -> int {
    match value {
        Some(v) => match spec_parse_i64(spec_trim(v)) {
            Some(n) => if n > 0 {
                n
            } else {
                default
            },
            None => default,
        },
        None => default,
    }
}

/// Parses a strictly positive `i64`, falling back to `default` when the value
/// is absent, unparseable, or not positive.
pub fn parse_positive_i64(value: Option<&str>, default: i64) -> (r: i64)
    ensures
        r == spec_positive_i64(opt_str_view(value), default as int),
{
    match value {
        None => default,
        Some(v) => {
            let c = chars_of(v);
            let t = trim_chars(&c);
            match parse_i64(&t) {
                Some(n) => if n > 0 {
                    n
                } else {
                    default
                },
                None => default,
            }
        },
    }
}

/// Parses a strictly positive `u32`, falling back to `default` when the value
/// is absent, unparseable, or zero.
pub fn parse_positive_u32(value: Option<&str>, default: u32) -> (r: u32)
    ensures
        r == spec_positive_setting(opt_str_view(value), u32::MAX as int, default as int),
{
    let n = parse_positive_setting(value, u32::MAX as u64, default as u64);
    n as u32
}

/// Borrows the text of an optional owned string.
pub fn as_str_opt(v: &Option<String>) -> (r: Option<&str>)
    ensures
        opt_str_view(r) == opt_view(*v),
{
    match v {
        Some(s) => Some(s.as_str()),
        None => None,
    }
}

fn lookup_value<F: Fn(&str) -> Option<String>>(lookup: &F, key: &str) -> (r: Option<String>)
    requires
        forall|k: &str| lookup.requires((k,)),
    ensures
        lookup.ensures((key,), r),
{
    lookup(key)
}

impl FeeConfig {
    /// Resolves the configuration through `lookup`, a reader of settings by
    /// name. Each setting that is missing, unparseable or not strictly
    /// positive falls back to its default.
    pub fn from_lookup<F: Fn(&str) -> Option<String>>(lookup: F) -> (r: Self)
        requires
            forall|k: &str| lookup.requires((k,)),
        ensures
            exists|v: Option<String>|
                lookup.ensures((BASE_FEE_ENV,), v) && r.base_fee == spec_positive_i64(opt_view(v), 100),
            exists|v: Option<String>|
                lookup.ensures((RESOURCE_FEE_FLOOR_ENV,), v) && r.resource_fee_floor
                    == spec_positive_i64(opt_view(v), 100),
            exists|v: Option<String>|
                lookup.ensures((RESOURCE_FEE_DIVISOR_ENV,), v) && r.resource_fee_divisor
                    == spec_positive_i64(opt_view(v), 1_000),
            exists|v: Option<String>|
                lookup.ensures((SURGE_LOAD_THRESHOLD_BPS_ENV,), v) && r.surge_load_threshold_bps
                    == spec_positive_setting(opt_view(v), u32::MAX as int, 8_000),
            exists|v: Option<String>|
                lookup.ensures((SURGE_MULTIPLIER_ENV,), v) && r.surge_multiplier
                    == spec_positive_setting(opt_view(v), u32::MAX as int, 200),
            exists|v: Option<String>|
                lookup.ensures((NORMAL_MULTIPLIER_ENV,), v) && r.normal_multiplier
                    == spec_positive_setting(opt_view(v), u32::MAX as int, 100),
    {
        let v1 = lookup_value(&lookup, BASE_FEE_ENV);
        let v2 = lookup_value(&lookup, RESOURCE_FEE_FLOOR_ENV);
        let v3 = lookup_value(&lookup, RESOURCE_FEE_DIVISOR_ENV);
        let v4 = lookup_value(&lookup, SURGE_LOAD_THRESHOLD_BPS_ENV);
        let v5 = lookup_value(&lookup, SURGE_MULTIPLIER_ENV);
        let v6 = lookup_value(&lookup, NORMAL_MULTIPLIER_ENV);
        let r = FeeConfig {
            base_fee: parse_positive_i64(as_str_opt(&v1), DEFAULT_BASE_FEE),
            resource_fee_floor: parse_positive_i64(as_str_opt(&v2), DEFAULT_RESOURCE_FEE_FLOOR),
            resource_fee_divisor: parse_positive_i64(as_str_opt(&v3), DEFAULT_RESOURCE_FEE_DIVISOR),
            surge_load_threshold_bps: parse_positive_u32(
                as_str_opt(&v4),
                DEFAULT_SURGE_LOAD_THRESHOLD_BPS,
            ),
            surge_multiplier: parse_positive_u32(as_str_opt(&v5), DEFAULT_SURGE_MULTIPLIER),
            normal_multiplier: parse_positive_u32(as_str_opt(&v6), DEFAULT_NORMAL_MULTIPLIER),
        };
        r
    }

    /// `(surge_multiplier, high_load)` for the given network load.
    pub fn surge(&self, network_load_bps: u32) -> (r: (u32, bool))
        ensures
            r == if network_load_bps >= self.surge_load_threshold_bps {
                (self.surge_multiplier, true)
            } else {
                (self.normal_multiplier, false)
            },
    {
        if network_load_bps >= self.surge_load_threshold_bps {
            (self.surge_multiplier, true)
        } else {
            (self.normal_multiplier, false)
        }
    }

    /// Applies a surge multiplier (in percent) to the fee total.
    pub fn apply_surge(&self, base_fee: i64, resource_fee: i64, surge_multiplier: u32) -> (r: i64)
        requires
            i64::MIN <= base_fee + resource_fee <= i64::MAX,
            i64::MIN <= (base_fee + resource_fee) * surge_multiplier <= i64::MAX,
        ensures
            r == trunc_div((base_fee + resource_fee) * surge_multiplier, 100),
    {
        let sum = base_fee + resource_fee;
        let product = sum * (surge_multiplier as i64);
        div_i64(product, 100)
    }

    /// The fees predicted without asking the network: the resource fee is
    /// `amount / resource_fee_divisor`, raised to the floor.
    pub fn heuristic_estimate(&self, amount: i64, network_load_bps: u32) -> (r: FeeBreakdown)
        requires
            self.resource_fee_divisor != 0,
            !(amount == i64::MIN && self.resource_fee_divisor == -1),
            i64::MIN <= self.base_fee + heuristic_resource_fee(*self, amount as int) <= i64::MAX,
            i64::MIN <= (self.base_fee + heuristic_resource_fee(*self, amount as int))
                * spec_multiplier(*self, network_load_bps) <= i64::MAX,
        ensures
            r == spec_fee_breakdown(*self, heuristic_resource_fee(*self, amount as int), network_load_bps, true),
    {
        let scaled = div_i64(amount, self.resource_fee_divisor);
        let resource_fee = if scaled > self.resource_fee_floor {
            scaled
        } else {
            self.resource_fee_floor
        };
        self.breakdown(resource_fee, network_load_bps, true)
    }

    fn breakdown(&self, resource_fee: i64, network_load_bps: u32, would_succeed: bool) -> (r: FeeBreakdown)
        requires
            i64::MIN <= self.base_fee + resource_fee <= i64::MAX,
            i64::MIN <= (self.base_fee + resource_fee) * spec_multiplier(*self, network_load_bps) <= i64::MAX,
        ensures
            r == spec_fee_breakdown(*self, resource_fee as int, network_load_bps, would_succeed),
    {
        let (surge_multiplier, high_load) = self.surge(network_load_bps);
        let total_fee = self.apply_surge(self.base_fee, resource_fee, surge_multiplier);
        FeeBreakdown {
            base_fee: self.base_fee,
            resource_fee,
            total_fee,
            surge_multiplier,
            high_load,
            would_succeed,
        }
    }

    /// The fees for a simulation the network answered: its
    /// `minResourceFee` is used when it is a positive integer, else 1000.
    pub fn simulated_estimate(&self, min_resource_fee: &str, simulation_failed: bool, network_load_bps: u32) -> (r: FeeBreakdown)
        requires
            i64::MIN <= self.base_fee + reported_resource_fee(min_resource_fee@) <= i64::MAX,
            i64::MIN <= (self.base_fee + reported_resource_fee(min_resource_fee@)) * spec_multiplier(*self, network_load_bps) <= i64::MAX,
        ensures
            r == spec_fee_breakdown(*self, reported_resource_fee(min_resource_fee@), network_load_bps, !simulation_failed),
    {
        let resource_fee = parse_positive_i64(Some(min_resource_fee), FALLBACK_RESOURCE_FEE);
        self.breakdown(resource_fee, network_load_bps, !simulation_failed)
    }
}

/// A `simulateTransaction` answer used for fee estimation.
#[derive(Debug, Clone)]
pub struct SimulateTransactionResult {
    /// The `minResourceFee` field, as text (empty when absent).
    pub min_resource_fee: String,
    /// The error the simulation reports, if any.
    pub error: Option<String>,
    /// Diagnostic events, as raw JSON text.
    pub events: Vec<String>,
}

impl FeeConfig {
    /// The fee breakdown of `POST /simulate` from what the simulation call
    /// gave: the network's figures when it answered (the call would succeed
    /// when no error is reported), the heuristic model when it failed.
    pub fn simulate(&self, answer: Result<SimulateTransactionResult, String>, amount: i64, network_load_bps: u32) -> (r: FeeBreakdown)
        requires
            answer matches Ok(res) ==> {
                &&& i64::MIN <= self.base_fee + reported_resource_fee(res.min_resource_fee@) <= i64::MAX
                &&& i64::MIN <= (self.base_fee + reported_resource_fee(res.min_resource_fee@)) * spec_multiplier(*self, network_load_bps) <= i64::MAX
            },
            answer is Err ==> {
                &&& self.resource_fee_divisor != 0
                &&& !(amount == i64::MIN && self.resource_fee_divisor == -1)
                &&& i64::MIN <= self.base_fee + heuristic_resource_fee(*self, amount as int) <= i64::MAX
                &&& i64::MIN <= (self.base_fee + heuristic_resource_fee(*self, amount as int)) * spec_multiplier(*self, network_load_bps) <= i64::MAX
            },
        ensures
            match answer {
                Ok(res) => r == spec_fee_breakdown(*self, reported_resource_fee(res.min_resource_fee@), network_load_bps, res.error is None),
                Err(_) => r == spec_fee_breakdown(*self, heuristic_resource_fee(*self, amount as int), network_load_bps, true),
            },
    {
        match answer {
            Ok(res) => self.simulated_estimate(res.min_resource_fee.as_str(), res.error.is_some(), network_load_bps),
            Err(_) => self.heuristic_estimate(amount, network_load_bps),
        }
    }
}

/// Multiplier (percent) applied at the given network load.
pub open spec fn spec_multiplier(c: FeeConfig, load: u32) -> u32 {
    if load >= c.surge_load_threshold_bps {
        c.surge_multiplier
    } else {
        c.normal_multiplier
    }
}

/// Resource fee of the heuristic model.
pub open spec fn heuristic_resource_fee(c: FeeConfig, amount: int) -> int {
    let scaled = trunc_div(amount, c.resource_fee_divisor as int);
    if scaled > c.resource_fee_floor {
        scaled
    } else {
        c.resource_fee_floor as int
    }
}

/// Resource fee taken from the simulation's `minResourceFee` field.
pub open spec fn reported_resource_fee(min_resource_fee: Seq<char>) -> int {
    spec_positive_i64(Some(min_resource_fee), 1_000)
}

pub open spec fn spec_fee_breakdown(c: FeeConfig, resource_fee: int, load: u32, would_succeed: bool) -> FeeBreakdown {
    let multiplier = if load >= c.surge_load_threshold_bps {
        c.surge_multiplier
    } else {
        c.normal_multiplier
    };
    FeeBreakdown {
        base_fee: c.base_fee,
        resource_fee: resource_fee as i64,
        total_fee: trunc_div((c.base_fee + resource_fee) * multiplier, 100) as i64,
        surge_multiplier: multiplier,
        high_load: load >= c.surge_load_threshold_bps,
        would_succeed,
    }
}

/// The heuristic resource fee never falls below the configured floor, and
/// the surge multiplier applies exactly from the load threshold on.
pub proof fn lemma_heuristic_fee_floor(c: FeeConfig, amount: int, load: u32)
    ensures
        heuristic_resource_fee(c, amount) >= c.resource_fee_floor,
        spec_multiplier(c, load) == if load >= c.surge_load_threshold_bps {
            c.surge_multiplier
        } else {
            c.normal_multiplier
        },
{
}

/// The total fee is the sum of the base and resource fees scaled by the
/// multiplier in force, as a percentage rounded down: for a non-negative
/// sum `t`, `total * 100 <= t * multiplier < (total + 1) * 100`, and a
/// multiplier of 100 leaves the sum as it is.
pub proof fn lemma_total_fee_is_surged_sum(c: FeeConfig, resource_fee: int, load: u32, would_succeed: bool)
    requires
        0 <= c.base_fee + resource_fee,
        (c.base_fee + resource_fee) * spec_multiplier(c, load) <= i64::MAX,
    ensures
        ({
            let f = spec_fee_breakdown(c, resource_fee, load, would_succeed);
            let t = c.base_fee + resource_fee;
            &&& f.total_fee * 100 <= t * f.surge_multiplier < (f.total_fee + 1) * 100
            &&& f.surge_multiplier == 100 ==> f.total_fee == t
        }),
{
    let t = c.base_fee + resource_fee;
    let m = spec_multiplier(c, load);
    let p = t * m;
    assert(p >= 0) by (nonlinear_arith)
        requires
            t >= 0,
            m >= 0,
            p == t * m,
    ;
    let q = p / 100;
    assert(q * 100 <= p < (q + 1) * 100) by {
        vstd::arithmetic::div_mod::lemma_fundamental_div_mod(p, 100);
        vstd::arithmetic::div_mod::lemma_mod_bound(p, 100);
    }
    assert(trunc_div(p, 100) == q);
    assert(0 <= q <= p);
    if m == 100 {
        assert(p == t * 100);
        assert(q == t) by {
            vstd::arithmetic::div_mod::lemma_div_by_multiple(t, 100);
        }
    }
}

pub open spec fn spec_status_from_rpc(status: Seq<char>) -> TransactionStatus {
    if status == "SUCCESS"@ {
        TransactionStatus::Confirmed
    } else if status == "FAILED"@ {
        TransactionStatus::Failed
    } else if status == "NOT_FOUND"@ {
        TransactionStatus::Pending
    } else {
        TransactionStatus::Submitted
    }
}

/// Maps the `status` of a `getTransaction` answer: `SUCCESS` is confirmed,
/// `FAILED` failed, `NOT_FOUND` still pending, anything else submitted.
pub fn status_from_rpc(status: &str) -> (r: TransactionStatus)
    ensures
        r == spec_status_from_rpc(status@),
{
    proof {
        reveal_strlit("SUCCESS");
        reveal_strlit("FAILED");
        reveal_strlit("NOT_FOUND");
    }
    if str_eq(status, "SUCCESS") {
        TransactionStatus::Confirmed
    } else if str_eq(status, "FAILED") {
        TransactionStatus::Failed
    } else if str_eq(status, "NOT_FOUND") {
        TransactionStatus::Pending
    } else {
        TransactionStatus::Submitted
    }
}

} // verus!
