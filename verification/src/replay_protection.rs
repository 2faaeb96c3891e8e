//! Replay protection: each request carries a nonce, and a nonce seen within
//! the time-to-live is refused.

use vstd::prelude::*;
use dashmap::DashMap;
use crate::auth::{flag_is_true, is_true_flag};
use crate::text::{chars_of, opt_str_view, opt_view, string_from_chars};
use crate::text::{number_or, spec_number_or};

verus! {

/// Replay-protection configuration.
#[derive(Clone, Copy, Debug)]
pub struct ReplayProtectionConfig {
    /// Whether replay protection is enabled.
    pub enabled: bool,
    /// Maximum number of nonces to hold in memory.
    pub cache_size: usize,
    /// Time-to-live for nonces in seconds.
    pub nonce_ttl_secs: u64,
}

impl ReplayProtectionConfig {
    /// Builds the configuration from the values of
    /// `ROUTER_REPLAY_PROTECTION_ENABLED` (on when it reads `true` in any
    /// case), `ROUTER_NONCE_CACHE_SIZE` (default 10 000) and
    /// `ROUTER_NONCE_TTL_SECS` (default 3600). A value that does not parse
    /// falls back to the default.
    pub fn from_env(enabled_var: Option<&str>, cache_size_var: Option<&str>, ttl_var: Option<&str>) -> (r: Self)
        ensures
            r.enabled == (enabled_var matches Some(v) && is_true_flag(v@)),
            r.cache_size == spec_number_or(opt_str_view(cache_size_var), usize::MAX as int, 10_000),
            r.nonce_ttl_secs == spec_number_or(opt_str_view(ttl_var), u64::MAX as int, 3_600),
    {
        let enabled = flag_is_true(enabled_var);
        let cache_size = number_or(cache_size_var, usize::MAX as u64, 10_000);
        let nonce_ttl_secs = number_or(ttl_var, u64::MAX, 3_600);
        ReplayProtectionConfig { enabled, cache_size: cache_size as usize, nonce_ttl_secs }
    }
}

/// The cache's map: per nonce, the second it was recorded at.
pub type NonceMap = DashMap<String, u64>;

/// What the nonce map holds.
pub uninterp spec fn nonces_of(m: NonceMap) -> Map<Seq<char>, u64>;

/// `now - recorded` as the cache computes it on `u64` (wrapping when the
/// clock went back), compared with the time-to-live.
pub open spec fn spec_nonce_live(now: u64, recorded: u64, ttl: u64) -> bool {
    let age: int = if now >= recorded {
        now - recorded
    } else {
        now - recorded + 0x1_0000_0000_0000_0000
    };
    age < ttl
}

/// Whether a nonce recorded at `recorded` is still live at `now`.
pub fn nonce_is_live(now: u64, recorded: u64, ttl: u64) -> (b: bool)
    ensures
        b == spec_nonce_live(now, recorded, ttl),
{
    now.wrapping_sub(recorded) < ttl
}

/// The entries of `m` still live at `now`.
pub open spec fn live_entries(m: Map<Seq<char>, u64>, now: u64, ttl: u64) -> Map<Seq<char>, u64> {
    Map::new(|k: Seq<char>| m.contains_key(k) && spec_nonce_live(now, m[k], ttl), |k: Seq<char>| m[k])
}

/// `DashMap::new`: an empty map.
#[verifier::external_body]
fn nonces_new() -> (r: NonceMap)
    ensures
        nonces_of(r).dom() == Set::<Seq<char>>::empty(),
{
    DashMap::new()
}

/// `DashMap::contains_key`: whether `key` has an entry.
#[verifier::external_body]
fn nonces_contains(m: &NonceMap, key: &str) -> (r: bool)
    ensures
        r == nonces_of(*m).contains_key(key@),
{
    m.contains_key(key)
}

/// `DashMap::len`: the number of entries.
#[verifier::external_body]
fn nonces_len(m: &NonceMap) -> (r: usize)
    ensures
        r == nonces_of(*m).dom().len(),
{
    m.len()
}

/// `DashMap::insert`: `key` now holds `value`; other keys are unchanged.
#[verifier::external_body]
fn nonces_insert(m: &mut NonceMap, key: String, value: u64)
    ensures
        nonces_of(*final(m)) == nonces_of(*old(m)).insert(key@, value),
{
    m.insert(key, value);
}

/// `DashMap::retain` with the test [`nonce_is_live`]: keeps exactly the
/// entries live at `now`, with their values.
#[verifier::external_body]
fn nonces_retain_live(m: &mut NonceMap, now: u64, ttl: u64)
    ensures
        nonces_of(*final(m)) == live_entries(nonces_of(*old(m)), now, ttl),
{
    m.retain(|_, recorded| nonce_is_live(now, *recorded, ttl));
}

/// Nonce cache for replay-attack detection.
pub struct NonceCache {
    cache: NonceMap,
    config: ReplayProtectionConfig,
}

/// What a request carrying `nonce` at `now` does to the recorded nonces, and
/// whether it is accepted: expired nonces are dropped first; the nonce is
/// then refused if it is still recorded or if the cache is full, and else
/// recorded at `now`.
pub open spec fn spec_check_and_add(
    nonces: Map<Seq<char>, u64>,
    config: ReplayProtectionConfig,
    nonce: Seq<char>,
    now: u64,
) -> (Map<Seq<char>, u64>, bool) {
    let live = live_entries(nonces, now, config.nonce_ttl_secs);
    if live.contains_key(nonce) || live.dom().len() >= config.cache_size {
        (live, false)
    } else {
        (live.insert(nonce, now), true)
    }
}

impl NonceCache {
    /// Creates a cache with no recorded nonces.
    pub fn new(config: ReplayProtectionConfig) -> (r: Self)
        ensures
            r.wf(),
            r.config() == config,
            r.nonces().dom() == Set::<Seq<char>>::empty(),
    {
        NonceCache { cache: nonces_new(), config }
    }

    pub closed spec fn config(&self) -> ReplayProtectionConfig {
        self.config
    }

    /// Per recorded nonce, the second it was recorded at.
    pub closed spec fn nonces(&self) -> Map<Seq<char>, u64> {
        nonces_of(self.cache)
    }

    /// The cache holds finitely many nonces, never more than its size.
    pub open spec fn wf(&self) -> bool {
        &&& self.nonces().dom().finite()
        &&& self.nonces().dom().len() <= self.config().cache_size
    }

    /// Whether the replay checks apply.
    pub fn enabled(&self) -> (b: bool)
        ensures
            b == self.config().enabled,
    {
        self.config.enabled
    }

    /// Checks `nonce` at second `now` and records it when it is fresh.
    /// Returns `true` when the nonce is fresh, `false` when it is a replay or
    /// when the cache is full.
    pub fn check_and_add_at(&mut self, nonce: &str, now: u64) -> (accepted: bool)
        requires
            old(self).wf(),
        ensures
            final(self).wf(),
            final(self).config() == old(self).config(),
            (final(self).nonces(), accepted) == spec_check_and_add(old(self).nonces(), old(self).config(), nonce@, now),
    {
        let ghost before = nonces_of(self.cache);
        nonces_retain_live(&mut self.cache, now, self.config.nonce_ttl_secs);
        proof {
            let live = nonces_of(self.cache);
            assert(live.dom().subset_of(before.dom()));
            vstd::set_lib::lemma_len_subset(live.dom(), before.dom());
        }
        if nonces_contains(&self.cache, nonce) {
            return false;
        }
        if nonces_len(&self.cache) >= self.config.cache_size {
            return false;
        }
        nonces_insert(&mut self.cache, nonce.to_owned(), now);
        true
    }

    /// Checks `nonce` against the current time and records it when it is
    /// fresh.
    pub fn check_and_add(&mut self, nonce: &str) -> (accepted: bool)
        requires
            old(self).wf(),
        ensures
            final(self).wf(),
            final(self).config() == old(self).config(),
            exists|now: u64|
                #![trigger spec_check_and_add(old(self).nonces(), old(self).config(), nonce@, now)]
                (final(self).nonces(), accepted) == spec_check_and_add(old(self).nonces(), old(self).config(), nonce@, now),
    {
        let now = current_timestamp();
        self.check_and_add_at(nonce, now)
    }
}

/// Seconds since the Unix epoch from `SystemTime::now()`, 0 when the clock
/// reads before the epoch. Nothing is claimed of the reading.
#[verifier::external_body]
pub fn current_timestamp() -> u64 {
    std::time::SystemTime::now().duration_since(std::time::UNIX_EPOCH).map(|d| d.as_secs()).unwrap_or(0)
}

/// Why a request was refused.
#[derive(Debug, Clone, Copy, PartialEq, Eq, Structural)]
pub enum ReplayError {
    /// The `X-Nonce` header is missing from the request.
    MissingNonce,
    /// The nonce has been seen before (replay attack detected).
    DuplicateNonce,
}

impl ReplayError {
    /// HTTP status and body text of the refusal.
    pub fn status_and_message(&self) -> (r: (u16, &'static str))
        ensures
            r.0 == (match self {
                ReplayError::MissingNonce => 400u16,
                ReplayError::DuplicateNonce => 409u16,
            }),
            r.1@ == (match self {
                ReplayError::MissingNonce => MISSING_NONCE_MESSAGE@,
                ReplayError::DuplicateNonce => DUPLICATE_NONCE_MESSAGE@,
            }),
    {
        match self {
            ReplayError::MissingNonce => (400, MISSING_NONCE_MESSAGE),
            ReplayError::DuplicateNonce => (409, DUPLICATE_NONCE_MESSAGE),
        }
    }
}

pub const MISSING_NONCE_MESSAGE: &'static str = "Missing X-Nonce header";
pub const DUPLICATE_NONCE_MESSAGE: &'static str = "Duplicate nonce detected (replay attack)";

/// The nonce a request carries: the text of its `X-Nonce` header, handed in
/// as `x_nonce` (`None` when the header is absent or not text).
pub fn extract_nonce(x_nonce: Option<&str>) -> (r: Option<String>)
    ensures
        opt_view(r) == opt_str_view(x_nonce),
{
    match x_nonce {
        Some(n) => Some(string_from_chars(&chars_of(n))),
        None => None,
    }
}

/// The decision of the replay middleware on a request whose `X-Nonce` header
/// reads `nonce` (`None` when it is absent or not text), taken at second
/// `now`: pass it on, or refuse it.
pub fn replay_decision_at(cache: &mut NonceCache, nonce: Option<&str>, now: u64) -> (r: Result<(), ReplayError>)
    requires
        old(cache).wf(),
    ensures
        final(cache).wf(),
        final(cache).config() == old(cache).config(),
        !old(cache).config().enabled ==> r == Ok::<(), ReplayError>(()) && final(cache).nonces() == old(cache).nonces(),
        old(cache).config().enabled ==> match nonce {
            None => r == Err::<(), ReplayError>(ReplayError::MissingNonce) && final(cache).nonces() == old(cache).nonces(),
            Some(n) => {
                let (after, accepted) = spec_check_and_add(old(cache).nonces(), old(cache).config(), n@, now);
                &&& final(cache).nonces() == after
                &&& r == if accepted { Ok::<(), ReplayError>(()) } else { Err(ReplayError::DuplicateNonce) }
            },
        },
{
    if !cache.enabled() {
        return Ok(());
    }
    match nonce {
        None => Err(ReplayError::MissingNonce),
        Some(n) => {
            if cache.check_and_add_at(n, now) {
                Ok(())
            } else {
                Err(ReplayError::DuplicateNonce)
            }
        },
    }
}

/// A nonce that was accepted is refused when it comes again while it is
/// still live, whatever else came in between.
pub proof fn lemma_replay_within_ttl_is_refused(
    nonces: Map<Seq<char>, u64>,
    config: ReplayProtectionConfig,
    nonce: Seq<char>,
    first: u64,
    later: u64,
)
    requires
        spec_check_and_add(nonces, config, nonce, first).1,
        spec_nonce_live(later, first, config.nonce_ttl_secs),
    ensures
        !spec_check_and_add(spec_check_and_add(nonces, config, nonce, first).0, config, nonce, later).1,
{
    let after = spec_check_and_add(nonces, config, nonce, first).0;
    assert(after.contains_key(nonce) && after[nonce] == first);
    assert(live_entries(after, later, config.nonce_ttl_secs).contains_key(nonce));
}

/// A refused nonce is not recorded: the recorded nonces are only those still
/// live.
pub proof fn lemma_refusal_records_nothing(
    nonces: Map<Seq<char>, u64>,
    config: ReplayProtectionConfig,
    nonce: Seq<char>,
    now: u64,
)
    requires
        !spec_check_and_add(nonces, config, nonce, now).1,
    ensures
        spec_check_and_add(nonces, config, nonce, now).0 == live_entries(nonces, now, config.nonce_ttl_secs),
{
}

/// The cache never holds more nonces than its configured size.
pub proof fn lemma_cache_within_size(cache: &NonceCache)
    requires
        cache.wf(),
    ensures
        cache.nonces().dom().len() <= cache.config().cache_size,
{
}

/// A nonce lives exactly `nonce_ttl_secs` seconds: once accepted at `first`,
/// it is refused at any later second less than the TTL after `first`, and
/// from the TTL on it is forgotten, so the next check, of any nonce, no
/// longer holds it.
pub proof fn lemma_nonce_lives_for_ttl(
    nonces: Map<Seq<char>, u64>,
    config: ReplayProtectionConfig,
    nonce: Seq<char>,
    first: u64,
    later: u64,
    other: Seq<char>,
)
    requires
        spec_check_and_add(nonces, config, nonce, first).1,
        first <= later,
    ensures
        later - first < config.nonce_ttl_secs ==> !spec_check_and_add(
            spec_check_and_add(nonces, config, nonce, first).0,
            config,
            nonce,
            later,
        ).1,
        later - first >= config.nonce_ttl_secs ==> !spec_check_and_add(
            spec_check_and_add(nonces, config, nonce, first).0,
            config,
            other,
            later,
        ).0.contains_key(nonce) || (other == nonce && spec_check_and_add(
            spec_check_and_add(nonces, config, nonce, first).0,
            config,
            other,
            later,
        ).1),
{
    let after = spec_check_and_add(nonces, config, nonce, first).0;
    assert(after.contains_key(nonce) && after[nonce] == first);
    if later - first < config.nonce_ttl_secs {
        assert(live_entries(after, later, config.nonce_ttl_secs).contains_key(nonce));
    } else {
        assert(!live_entries(after, later, config.nonce_ttl_secs).contains_key(nonce));
    }
}

} // verus!
