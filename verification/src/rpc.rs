//! The Soroban JSON-RPC client of the metrics exporter: what it reads out of
//! the answers, when it retries a request, and the arguments it builds.
//!
//! Sending the requests is the caller's part; the functions here take what
//! came back.

use vstd::prelude::*;
use crate::json::{Json, JsonNumber, spec_get, spec_at, spec_as_u64, spec_as_bool, spec_as_str};
use crate::text::{opt_str_view, number_or, spec_number_or};
use crate::time::Duration;
use vstd::arithmetic::power2::{pow2, lemma_pow2_unfold};
use vstd::string::StringSliceAdditionalSpecFns;

verus! {

/// `results[0].retval` of a `simulateTransaction` answer.
pub open spec fn spec_retval(result: Json) -> Option<Json> {
    match spec_get(result, "results"@) {
        Some(results) => match spec_at(results, 0) {
            Some(first) => spec_get(first, "retval"@),
            None => None,
        },
        None => None,
    }
}

fn retval(result: &Json) -> (r: Option<&Json>)
    ensures
        r matches Some(v) ==> spec_retval(*result) == Some(*v),
        r is None ==> spec_retval(*result) is None,
{
    match result.get("results") {
        Some(results) => match results.at(0) {
            Some(first) => first.get("retval"),
            None => None,
        },
        None => None,
    }
}

/// A value the simulation result does not hold.
#[derive(Debug, Clone, Copy, PartialEq, Eq, Structural)]
pub enum SimResultError {
    /// No `u64` was found.
    MissingU64,
    /// No `bool` was found.
    MissingBool,
}

/// The `u64` of a simulation result: `results[0].retval` as a number or as
/// `{"u64": n}`, else the result itself as a number.
pub open spec fn spec_extract_u64(result: Json) -> Option<u64> {
    let from_retval = match spec_retval(result) {
        Some(v) => match spec_as_u64(v) {
            Some(n) => Some(n),
            None => match spec_get(v, "u64"@) {
                Some(x) => spec_as_u64(x),
                None => None,
            },
        },
        None => None,
    };
    match from_retval {
        Some(n) => Some(n),
        None => spec_as_u64(result),
    }
}

/// Extracts a `u64` from a `simulateTransaction` result.
pub fn extract_u64_from_sim_result(result: &Json) -> (r: Result<u64, SimResultError>)
    ensures
        match spec_extract_u64(*result) {
            Some(n) => r == Ok::<u64, SimResultError>(n),
            None => r == Err::<u64, SimResultError>(SimResultError::MissingU64),
        },
{
    if let Some(v) = retval(result) {
        if let Some(n) = v.as_u64() {
            return Ok(n);
        }
        if let Some(x) = v.get("u64") {
            if let Some(n) = x.as_u64() {
                return Ok(n);
            }
        }
    }
    match result.as_u64() {
        Some(n) => Ok(n),
        None => Err(SimResultError::MissingU64),
    }
}

/// The `bool` of a simulation result: `results[0].retval` as a boolean or as
/// `{"bool": b}`, else the result itself as a boolean.
pub open spec fn spec_extract_bool(result: Json) -> Option<bool> {
    let from_retval = match spec_retval(result) {
        Some(v) => match spec_as_bool(v) {
            Some(b) => Some(b),
            None => match spec_get(v, "bool"@) {
                Some(x) => spec_as_bool(x),
                None => None,
            },
        },
        None => None,
    };
    match from_retval {
        Some(b) => Some(b),
        None => spec_as_bool(result),
    }
}

/// Extracts a `bool` from a `simulateTransaction` result.
pub fn extract_bool_from_sim_result(result: &Json) -> (r: Result<bool, SimResultError>)
    ensures
        match spec_extract_bool(*result) {
            Some(b) => r == Ok::<bool, SimResultError>(b),
            None => r == Err::<bool, SimResultError>(SimResultError::MissingBool),
        },
{
    if let Some(v) = retval(result) {
        if let Some(b) = v.as_bool() {
            return Ok(b);
        }
        if let Some(x) = v.get("bool") {
            if let Some(b) = x.as_bool() {
                return Ok(b);
            }
        }
    }
    match result.as_bool() {
        Some(b) => Ok(b),
        None => Err(SimResultError::MissingBool),
    }
}

/// The list a simulation result returns: `results[0].retval`, or the result
/// itself when it has none.
pub open spec fn spec_list_value(result: Json) -> Json {
    match spec_retval(result) {
        Some(v) => v,
        None => result,
    }
}

/// An element of a string list: a string, or `{"str": s}`.
pub open spec fn item_str(v: Json) -> Option<Seq<char>> {
    match spec_as_str(v) {
        Some(s) => Some(s),
        None => match spec_get(v, "str"@) {
            Some(x) => spec_as_str(x),
            None => None,
        },
    }
}

/// The strings among `items`, in order; other elements are skipped.
pub open spec fn strings_of(items: Seq<Json>) -> Seq<Seq<char>>
    decreases items.len(),
{
    if items.len() == 0 {
        Seq::empty()
    } else {
        let rest = strings_of(items.drop_last());
        match item_str(items.last()) {
            Some(s) => rest.push(s),
            None => rest,
        }
    }
}

/// The string list of a simulation result: empty unless the list value is
/// an array.
pub open spec fn spec_extract_strings(result: Json) -> Seq<Seq<char>> {
    match spec_list_value(result) {
        Json::Array(items) => strings_of(items@),
        _ => Seq::empty(),
    }
}

fn list_value(result: &Json) -> (r: &Json)
    ensures
        *r == spec_list_value(*result),
{
    match retval(result) {
        Some(v) => v,
        None => result,
    }
}

/// Extracts a `Vec<String>` from a `simulateTransaction` result; elements
/// that are not strings are skipped, and a result without a list gives the
/// empty list.
pub fn extract_string_vec_from_sim_result(result: &Json) -> (r: Result<Vec<String>, SimResultError>)
    ensures
        r matches Ok(v) && v@.map_values(|s: String| s@) == spec_extract_strings(*result),
{
    let list = list_value(result);
    let mut out: Vec<String> = Vec::new();
    if let Some(items) = list.as_array() {
        for i in 0..items.len()
            invariant
                *list == Json::Array(*items),
                out@.map_values(|s: String| s@) == strings_of(items@.take(i as int)),
        {
            let v = &items[i];
            assert(items@.take(i + 1).drop_last() == items@.take(i as int));
            let found: Option<&str> = match v.as_str() {
                Some(s) => Some(s),
                None => match v.get("str") {
                    Some(x) => x.as_str(),
                    None => None,
                },
            };
            match found {
                Some(s) => {
                    let ghost before = out@;
                    out.push(s.to_owned());
                    assert(out@.map_values(|s: String| s@) == before.map_values(|s: String| s@).push(s@));
                },
                None => {},
            }
        }
        assert(items@.take(items@.len() as int) == items@);
    }
    Ok(out)
}

/// An element of a number list: a non-negative integer, or `{"u32": n}`,
/// truncated to 32 bits.
pub open spec fn item_u32(v: Json) -> Option<u32> {
    match spec_as_u64(v) {
        Some(n) => Some(n as u32),
        None => match spec_get(v, "u32"@) {
            Some(x) => match spec_as_u64(x) {
                Some(n) => Some(n as u32),
                None => None,
            },
            None => None,
        },
    }
}

/// The numbers among `items`, in order; other elements are skipped.
pub open spec fn u32s_of(items: Seq<Json>) -> Seq<u32>
    decreases items.len(),
{
    if items.len() == 0 {
        Seq::empty()
    } else {
        let rest = u32s_of(items.drop_last());
        match item_u32(items.last()) {
            Some(n) => rest.push(n),
            None => rest,
        }
    }
}

/// The number list of a simulation result: empty unless the list value is
/// an array.
pub open spec fn spec_extract_u32s(result: Json) -> Seq<u32> {
    match spec_list_value(result) {
        Json::Array(items) => u32s_of(items@),
        _ => Seq::empty(),
    }
}

/// Extracts a `Vec<u32>` from a `simulateTransaction` result (the answer of
/// `versions(name)`); elements that are not numbers are skipped.
pub fn extract_u32_vec_from_sim_result(result: &Json) -> (r: Result<Vec<u32>, SimResultError>)
    ensures
        r matches Ok(v) && v@ == spec_extract_u32s(*result),
{
    let list = list_value(result);
    let mut out: Vec<u32> = Vec::new();
    if let Some(items) = list.as_array() {
        for i in 0..items.len()
            invariant
                *list == Json::Array(*items),
                out@ == u32s_of(items@.take(i as int)),
        {
            let v = &items[i];
            assert(items@.take(i + 1).drop_last() == items@.take(i as int));
            let found: Option<u32> = match v.as_u64() {
                Some(n) => Some(n as u32),
                None => match v.get("u32") {
                    Some(x) => match x.as_u64() {
                        Some(n) => Some(n as u32),
                        None => None,
                    },
                    None => None,
                },
            };
            match found {
                Some(n) => out.push(n),
                None => {},
            }
        }
        assert(items@.take(items@.len() as int) == items@);
    }
    Ok(out)
}

/// The lower-case hexadecimal digit of `d` (below 16).
pub open spec fn hex_digit(d: u8) -> char {
    if d < 10 {
        ((48 + d) as u8) as char
    } else {
        ((87 + d) as u8) as char
    }
}

/// Two lower-case hexadecimal digits per byte.
pub open spec fn hex_of(bytes: Seq<u8>) -> Seq<char>
    decreases bytes.len(),
{
    if bytes.len() == 0 {
        Seq::empty()
    } else {
        hex_of(bytes.drop_last()).push(hex_digit(bytes.last() / 16)).push(hex_digit(bytes.last() % 16))
    }
}

fn hex_char(d: u8) -> (c: char)
    requires
        d < 16,
    ensures
        c == hex_digit(d),
{
    if d < 10 {
        (48 + d) as char
    } else {
        (87 + d) as char
    }
}

/// Hex-encodes the UTF-8 bytes of `s`, as the placeholder for an
/// `ScVal::String` argument.
pub fn hex_encode_arg(s: &str) -> (r: String)
    ensures
        r@ == hex_of(s.spec_bytes()),
{
    let bytes = s.as_bytes();
    let mut out = String::new();
    for i in 0..bytes.len()
        invariant
            bytes@ == s.spec_bytes(),
            out@ == hex_of(bytes@.take(i as int)),
    {
        let b = bytes[i];
        assert(bytes@.take(i + 1).drop_last() == bytes@.take(i as int));
        crate::text::push_char(&mut out, hex_char(b / 16));
        crate::text::push_char(&mut out, hex_char(b % 16));
    }
    assert(bytes@.take(bytes@.len() as int) == bytes@);
    out
}

/// The hexadecimal text has two characters per byte.
pub proof fn lemma_hex_length(bytes: Seq<u8>)
    ensures
        hex_of(bytes).len() == 2 * bytes.len(),
    decreases bytes.len(),
{
    if bytes.len() > 0 {
        lemma_hex_length(bytes.drop_last());
    }
}

/// Why an XDR value could not be built.
#[derive(Debug, Clone, Copy, PartialEq, Eq, Structural)]
pub enum XdrError {
    /// Building invoke envelopes needs an XDR library this exporter does not
    /// carry.
    EnvelopeUnavailable,
    /// Building ledger keys needs an XDR library this exporter does not
    /// carry.
    KeyUnavailable,
}

impl XdrError {
    /// The explanation reported to the operator.
    pub fn message(&self) -> (r: &'static str)
        ensures
            r@ == (match self {
                XdrError::EnvelopeUnavailable => ENVELOPE_UNAVAILABLE@,
                XdrError::KeyUnavailable => KEY_UNAVAILABLE@,
            }),
    {
        match self {
            XdrError::EnvelopeUnavailable => ENVELOPE_UNAVAILABLE,
            XdrError::KeyUnavailable => KEY_UNAVAILABLE,
        }
    }
}

pub const ENVELOPE_UNAVAILABLE: &'static str = "XDR transaction building is not implemented in this reference exporter. Use getLedgerEntries-based scraping (the default) or integrate the stellar-xdr crate to build InvokeHostFunction envelopes.";
pub const KEY_UNAVAILABLE: &'static str = "Direct XDR key construction not implemented. Use the simulation path or integrate stellar-xdr.";

/// The transaction envelope for simulating a call of `function_name` on
/// `contract_id`. This exporter scrapes through `getLedgerEntries` and does
/// not build envelopes: the answer is always the same refusal.
pub fn build_invoke_xdr(contract_id: &str, function_name: &str, args_xdr: &[String]) -> (r: Result<String, XdrError>)
    ensures
        r == Err::<String, XdrError>(XdrError::EnvelopeUnavailable),
{
    Err(XdrError::EnvelopeUnavailable)
}

/// The ledger key of the instance storage of `contract_id`. Not built by
/// this exporter: the answer is always the same refusal.
pub fn instance_storage_key_xdr(contract_id: &str) -> (r: Result<String, XdrError>)
    ensures
        r == Err::<String, XdrError>(XdrError::KeyUnavailable),
{
    Err(XdrError::KeyUnavailable)
}

/// An error object of a JSON-RPC answer.
#[derive(Debug, Clone)]
pub struct RpcError {
    pub code: i64,
    pub message: String,
}

/// A JSON-RPC answer.
#[derive(Debug)]
pub struct RpcResponse {
    pub result: Option<Json>,
    pub error: Option<RpcError>,
}

/// Why a JSON-RPC call gave no result.
#[derive(Debug, Clone)]
pub enum RpcCallError {
    /// The server answered with an error object.
    Rpc { code: i64, message: String },
    /// The server answered with neither result nor error.
    EmptyResult,
}

impl RpcResponse {
    /// The result of the call: the error object wins over a result.
    pub fn into_result(self) -> (r: Result<Json, RpcCallError>)
        ensures
            match self.error {
                Some(e) => r matches Err(RpcCallError::Rpc { code, message }) && code == e.code && message@ == e.message@,
                None => match self.result {
                    Some(v) => r matches Ok(x) && x == v,
                    None => r matches Err(RpcCallError::EmptyResult),
                },
            },
    {
        match self.error {
            Some(e) => Err(RpcCallError::Rpc { code: e.code, message: e.message }),
            None => match self.result {
                Some(v) => Ok(v),
                None => Err(RpcCallError::EmptyResult),
            },
        }
    }
}

/// Retry settings of the client: `ROUTER_RPC_MAX_RETRIES` (default 3) and
/// `ROUTER_RPC_BACKOFF_MS` (default 200), each falling back to its default
/// when it does not parse.
pub fn retry_settings(max_retries_var: Option<&str>, backoff_ms_var: Option<&str>) -> (r: (u32, Duration))
    ensures
        r.0 == spec_number_or(opt_str_view(max_retries_var), u32::MAX as int, 3),
        r.1.view_nanos() == spec_number_or(opt_str_view(backoff_ms_var), u64::MAX as int, 200) * 1_000_000,
{
    let max_retries = number_or(max_retries_var, u32::MAX as u64, 3);
    let backoff_ms = number_or(backoff_ms_var, u64::MAX, 200);
    (max_retries as u32, Duration::from_millis(backoff_ms))
}

/// How an HTTP attempt failed before any answer arrived.
#[derive(Debug, Clone, Copy)]
pub struct TransportFailure {
    pub timeout: bool,
    pub connect: bool,
    /// The HTTP status the failure carries, if any.
    pub status: Option<u16>,
}

/// Whether an HTTP status asks for a retry: a server error (5xx) or 429.
pub open spec fn spec_retryable_status(status: u16) -> bool {
    (500 <= status && status <= 599) || status == 429
}

/// Whether a failed attempt may be retried: timeouts, connection failures,
/// and failures carrying a 5xx or 429 status.
pub open spec fn spec_retryable_failure(f: TransportFailure) -> bool {
    f.timeout || f.connect || (f.status matches Some(s) && spec_retryable_status(s))
}

pub fn is_retryable_status(status: u16) -> (b: bool)
    ensures
        b == spec_retryable_status(status),
{
    (500 <= status && status <= 599) || status == 429
}

/// Whether a failed attempt may be retried.
pub fn is_retryable_error(f: &TransportFailure) -> (b: bool)
    ensures
        b == spec_retryable_failure(*f),
{
    if f.timeout || f.connect {
        return true;
    }
    match f.status {
        Some(s) => is_retryable_status(s),
        None => false,
    }
}

/// What an HTTP attempt gave.
#[derive(Debug, Clone, Copy)]
pub enum Attempt {
    /// An answer with this status.
    Answered(u16),
    /// No answer.
    Failed(TransportFailure),
}

/// What the client does after an attempt.
#[derive(Debug, Clone, Copy)]
pub enum RetryStep {
    /// Wait this long, then make attempt number `next`.
    Retry { delay: Duration, next: u32 },
    /// Use this attempt's outcome: parse the answer, or report the failure.
    Finish,
}

/// Whether attempt `attempt` (counted from 0) is followed by another: when it
/// failed in a retryable way and fewer than `max_retries` retries were made.
pub open spec fn spec_should_retry(outcome: Attempt, attempt: u32, max_retries: u32) -> bool {
    attempt < max_retries && match outcome {
        Attempt::Answered(s) => spec_retryable_status(s),
        Attempt::Failed(f) => spec_retryable_failure(f),
    }
}

/// `2^attempt` times the base backoff, in nanoseconds.
pub open spec fn backoff_nanos(base: nat, attempt: nat) -> nat
    decreases attempt,
{
    if attempt == 0 {
        base
    } else {
        2 * backoff_nanos(base, (attempt - 1) as nat)
    }
}

/// The decision after attempt `attempt`: retry after `base_backoff * 2^attempt`
/// or finish. The delay is computed as the client computes it, with
/// `2u32.pow(attempt)`; a retry whose delay leaves that range is not in the
/// domain of this function.
pub fn retry_step(outcome: Attempt, attempt: u32, max_retries: u32, base_backoff: Duration) -> (r: RetryStep)
    requires
        spec_should_retry(outcome, attempt, max_retries) ==> attempt < 32 && backoff_nanos(
            base_backoff.view_nanos(),
            attempt as nat,
        ) <= crate::time::MAX_NANOS,
    ensures
        match r {
            RetryStep::Retry { delay, next } => spec_should_retry(outcome, attempt, max_retries)
                && next == attempt + 1 && delay.view_nanos() == backoff_nanos(base_backoff.view_nanos(), attempt as nat),
            RetryStep::Finish => !spec_should_retry(outcome, attempt, max_retries),
        },
{
    let retryable = match outcome {
        Attempt::Answered(s) => is_retryable_status(s),
        Attempt::Failed(f) => is_retryable_error(&f),
    };
    if retryable && attempt < max_retries {
        let mut delay = base_backoff;
        let mut k: u32 = 0;
        while k < attempt
            invariant
                k <= attempt,
                attempt < 32,
                backoff_nanos(base_backoff.view_nanos(), attempt as nat) <= crate::time::MAX_NANOS,
                delay.view_nanos() == backoff_nanos(base_backoff.view_nanos(), k as nat),
            decreases attempt - k,
        {
            proof {
                lemma_backoff_monotone(base_backoff.view_nanos(), (k + 1) as nat, attempt as nat);
            }
            delay = match delay.checked_mul(2) {
                Some(d) => d,
                None => delay,
            };
            k = k + 1;
        }
        RetryStep::Retry { delay, next: attempt + 1 }
    } else {
        RetryStep::Finish
    }
}

/// The backoff grows with the attempt number.
pub proof fn lemma_backoff_monotone(base: nat, i: nat, j: nat)
    requires
        i <= j,
    ensures
        backoff_nanos(base, i) <= backoff_nanos(base, j),
    decreases j,
{
    if i < j {
        lemma_backoff_monotone(base, i, (j - 1) as nat);
    }
}

/// Which attempts are retried: while fewer than `max_retries` retries were
/// made, an answer is retried exactly when its status is in the server-error
/// class (its hundreds digit is 5) or is 429 Too Many Requests, and a failed
/// attempt exactly when it timed out, could not connect, or carries such a
/// status; once `max_retries` retries were made nothing is retried.
pub proof fn lemma_retry_policy(attempt: u32, max_retries: u32, status: u16, f: TransportFailure)
    ensures
        spec_should_retry(Attempt::Answered(status), attempt, max_retries)
            == (attempt < max_retries && (status / 100 == 5 || status == 429)),
        spec_should_retry(Attempt::Failed(f), attempt, max_retries) == (attempt < max_retries && (f.timeout
            || f.connect || (f.status matches Some(s) && (s / 100 == 5 || s == 429)))),
{
}

/// The backoff before retry number `attempt + 1` is the base backoff times
/// `2^attempt`: the base after the first attempt, twice it after the second,
/// and so on.
pub proof fn lemma_backoff_is_exponential(base: nat, attempt: nat)
    ensures
        backoff_nanos(base, attempt) == base * pow2(attempt),
    decreases attempt,
{
    if attempt == 0 {
        assert(pow2(0) == 1) by {
            vstd::arithmetic::power2::lemma2_to64();
        }
    } else {
        lemma_backoff_is_exponential(base, (attempt - 1) as nat);
        lemma_pow2_unfold(attempt);
        let x = pow2((attempt - 1) as nat);
        assert(base * (2 * x) == 2 * (base * x)) by (nonlinear_arith);
    }
}

} // verus!
