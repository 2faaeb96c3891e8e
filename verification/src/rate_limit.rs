//! Fixed-window rate limiting per client key.
//!
//! Each key (an API key or a remote IP) gets `max_requests` requests per
//! window; the count starts over once a window has passed since the first
//! request of the current window.

use vstd::prelude::*;
use dashmap::DashMap;
use crate::time::Duration;
use crate::poller::{parse_positive_setting, spec_positive_setting};
use crate::text::opt_str_view;
use crate::text::{chars_of, trim_chars, parse_unsigned, spec_parse_unsigned, push_str};

verus! {

/// Rate-limit configuration.
#[derive(Debug, Clone, Copy)]
pub struct RateLimitConfig {
    /// Maximum requests allowed per window.
    pub max_requests: u32,
    /// Length of the window.
    pub window: Duration,
}

impl Default for RateLimitConfig {
    /// 60 requests per 60 seconds.
    fn default() -> (r: Self)
        ensures
            r.max_requests == 60,
            r.window.view_nanos() == 60_000_000_000,
    {
        RateLimitConfig { max_requests: 60, window: Duration::from_secs(60) }
    }
}

pub const MAX_REQUESTS_ENV: &'static str = "ROUTER_RATE_LIMIT_MAX_REQUESTS";
pub const WINDOW_SECS_ENV: &'static str = "ROUTER_RATE_LIMIT_WINDOW_SECS";
pub const MAX_REQUESTS_INVALID: &'static str = "ROUTER_RATE_LIMIT_MAX_REQUESTS must be a positive integer";
pub const MAX_REQUESTS_ZERO: &'static str = "ROUTER_RATE_LIMIT_MAX_REQUESTS must be greater than 0";
pub const WINDOW_SECS_INVALID: &'static str = "ROUTER_RATE_LIMIT_WINDOW_SECS must be a positive integer";
pub const WINDOW_SECS_ZERO: &'static str = "ROUTER_RATE_LIMIT_WINDOW_SECS must be greater than 0";

/// Why a rate-limit setting was refused.
#[derive(Debug, Clone)]
pub struct RateLimitConfigError {
    pub message: String,
}

/// How a setting was read: absent, present as text, or present but not text.
pub enum Setting<'a> {
    Absent,
    Text(&'a str),
    NotUnicode,
}

/// The outcome of reading the two settings, as messages and values.
pub open spec fn spec_rate_limit_config(
    max_var: Option<Option<Seq<char>>>,
    window_var: Option<Option<Seq<char>>>,
) -> Result<(int, int), Seq<char>> {
    let max = match max_var {
        None => Ok(60int),
        Some(None) => Err(MAX_REQUESTS_INVALID@),
        Some(Some(t)) => match spec_parse_unsigned(t, u32::MAX as int) {
            Some(n) => Ok(n),
            None => Err(MAX_REQUESTS_INVALID@),
        },
    };
    match max {
        Err(m) => Err(m),
        Ok(mx) => if mx == 0 {
            Err(MAX_REQUESTS_ZERO@)
        } else {
            let window = match window_var {
                None => Ok(60int),
                Some(None) => Err(WINDOW_SECS_INVALID@),
                Some(Some(t)) => match spec_parse_unsigned(t, u64::MAX as int) {
                    Some(n) => Ok(n),
                    None => Err(WINDOW_SECS_INVALID@),
                },
            };
            match window {
                Err(m) => Err(m),
                Ok(w) => if w == 0 {
                    Err(WINDOW_SECS_ZERO@)
                } else {
                    Ok((mx, w))
                },
            }
        },
    }
}

pub open spec fn setting_view(s: Setting) -> Option<Option<Seq<char>>> {
    match s {
        Setting::Absent => None,
        Setting::Text(t) => Some(Some(t@)),
        Setting::NotUnicode => Some(None),
    }
}

fn read_setting(s: &Setting, max: u64) -> (r: Result<Option<u64>, ()>)
    ensures
        match setting_view(*s) {
            None => r == Ok::<Option<u64>, ()>(None),
            Some(None) => r is Err,
            Some(Some(t)) => match spec_parse_unsigned(t, max as int) {
                Some(n) => r == Ok::<Option<u64>, ()>(Some(n as u64)),
                None => r is Err,
            },
        },
{
    match s {
        Setting::Absent => Ok(None),
        Setting::NotUnicode => Err(()),
        Setting::Text(t) => {
            let c = chars_of(t);
            match parse_unsigned(&c, max) {
                Some(n) => Ok(Some(n)),
                None => Err(()),
            }
        },
    }
}

impl RateLimitConfig {
    /// Builds the configuration from the values of
    /// `ROUTER_RATE_LIMIT_MAX_REQUESTS` and `ROUTER_RATE_LIMIT_WINDOW_SECS`,
    /// with 60 for an absent one. A value that is not an integer, or zero, is
    /// refused.
    pub fn from_env(max_var: Setting, window_var: Setting) -> (r: Result<Self, RateLimitConfigError>)
        ensures
            match (r, spec_rate_limit_config(setting_view(max_var), setting_view(window_var))) {
                (Ok(c), Ok((m, w))) => c.max_requests == m && c.window.view_nanos() == w * 1_000_000_000,
                (Err(e), Err(m)) => e.message@ == m,
                _ => false,
            },
    {
        let max_requests: u64 = match read_setting(&max_var, u32::MAX as u64) {
            Err(_) => return Err(RateLimitConfigError { message: MAX_REQUESTS_INVALID.to_owned() }),
            Ok(None) => 60,
            Ok(Some(n)) => n,
        };
        if max_requests == 0 {
            return Err(RateLimitConfigError { message: MAX_REQUESTS_ZERO.to_owned() });
        }
        let window_secs: u64 = match read_setting(&window_var, u64::MAX) {
            Err(_) => return Err(RateLimitConfigError { message: WINDOW_SECS_INVALID.to_owned() }),
            Ok(None) => 60,
            Ok(Some(n)) => n,
        };
        if window_secs == 0 {
            return Err(RateLimitConfigError { message: WINDOW_SECS_ZERO.to_owned() });
        }
        Ok(RateLimitConfig { max_requests: max_requests as u32, window: Duration::from_secs(window_secs) })
    }
}

/// The configuration the metrics exporter runs with: the settings when they
/// are valid, else the defaults.
pub fn config_from_env(max_var: Setting, window_var: Setting) -> (r: RateLimitConfig)
    ensures
        match spec_rate_limit_config(setting_view(max_var), setting_view(window_var)) {
            Ok((m, w)) => r.max_requests == m && r.window.view_nanos() == w * 1_000_000_000,
            Err(_) => r.max_requests == 60 && r.window.view_nanos() == 60_000_000_000,
        },
{
    match RateLimitConfig::from_env(max_var, window_var) {
        Ok(c) => c,
        Err(_) => RateLimitConfig::default(),
    }
}

/// The limiter's map: per key, the request count of the current window and
/// the start of that window.
pub type BucketMap = DashMap<String, (u32, u128)>;

/// What the limiter's map holds: per key, the request count of the current
/// window and the start of that window (nanoseconds since the limiter began).
pub uninterp spec fn buckets_of(m: BucketMap) -> Map<Seq<char>, (u32, u128)>;

/// `DashMap::new`: an empty map.
#[verifier::external_body]
fn buckets_new() -> (r: BucketMap)
    ensures
        buckets_of(r).dom() == Set::<Seq<char>>::empty(),
{
    DashMap::new()
}

/// `DashMap::get`, copying the entry out: the value held for `key`, if any.
#[verifier::external_body]
fn buckets_get(m: &BucketMap, key: &str) -> (r: Option<(u32, u128)>)
    ensures
        r == (if buckets_of(*m).contains_key(key@) {
            Some(buckets_of(*m)[key@])
        } else {
            None
        }),
{
    m.get(key).map(|e| *e.value())
}

/// `DashMap::insert`: `key` now holds `value`; other keys are unchanged.
#[verifier::external_body]
fn buckets_insert(m: &mut BucketMap, key: String, value: (u32, u128))
    ensures
        buckets_of(*final(m)) == buckets_of(*old(m)).insert(key@, value),
{
    m.insert(key, value);
}

/// Shared fixed-window limiter state.
pub struct RateLimiter {
    config: RateLimitConfig,
    buckets: BucketMap,
    origin: std::time::Instant,
}

/// What a request for `key` at time `now` does to the per-key state, and
/// whether it is allowed.
pub open spec fn spec_check(
    buckets: Map<Seq<char>, (u32, u128)>,
    max_requests: u32,
    window: nat,
    key: Seq<char>,
    now: nat,
) -> (Map<Seq<char>, (u32, u128)>, bool) {
    let (count, start) = if buckets.contains_key(key) {
        buckets[key]
    } else {
        (0u32, now as u128)
    };
    let elapsed: nat = if now >= start {
        (now - start) as nat
    } else {
        0
    };
    let (count, start) = if elapsed >= window {
        (0u32, now as u128)
    } else {
        (count, start)
    };
    let count = if count < u32::MAX {
        (count + 1) as u32
    } else {
        count
    };
    (buckets.insert(key, (count, start)), count <= max_requests)
}

/// Seconds a rejected client is told to wait: what remains of its window,
/// at least 1.
pub open spec fn spec_retry_after(
    buckets: Map<Seq<char>, (u32, u128)>,
    window: nat,
    key: Seq<char>,
    now: nat,
) -> nat {
    if buckets.contains_key(key) {
        let start = buckets[key].1;
        let elapsed: nat = if now >= start {
            (now - start) as nat
        } else {
            0
        };
        if elapsed < window {
            let rest = (window - elapsed) as nat / 1_000_000_000;
            if rest >= 1 {
                rest
            } else {
                1
            }
        } else {
            1
        }
    } else {
        1
    }
}

impl RateLimiter {
    /// Creates a limiter with no recorded requests.
    pub fn new(config: RateLimitConfig) -> (r: Self)
        ensures
            r.config() == config,
            r.buckets().dom() == Set::<Seq<char>>::empty(),
    {
        RateLimiter { config, buckets: buckets_new(), origin: crate::dash::instant_now() }
    }

    pub closed spec fn config(&self) -> RateLimitConfig {
        self.config
    }

    /// Per key: the request count of the current window and its start.
    pub closed spec fn buckets(&self) -> Map<Seq<char>, (u32, u128)> {
        buckets_of(self.buckets)
    }

    /// Records a request for `key` made `now` nanoseconds after the limiter
    /// was created, and tells whether it is within the limit.
    pub fn check_at(&mut self, key: &str, now: Duration) -> (allowed: bool)
        ensures
            final(self).config() == old(self).config(),
            (final(self).buckets(), allowed) == spec_check(
                old(self).buckets(),
                old(self).config().max_requests,
                old(self).config().window.view_nanos(),
                key@,
                now.view_nanos(),
            ),
    {
        let now_n = now.as_nanos();
        let (count, start) = match buckets_get(&self.buckets, key) {
            Some(e) => e,
            None => (0u32, now_n),
        };
        let elapsed: u128 = if now_n >= start {
            now_n - start
        } else {
            0
        };
        let (count, start) = if elapsed >= self.config.window.as_nanos() {
            (0u32, now_n)
        } else {
            (count, start)
        };
        let count = if count < u32::MAX {
            count + 1
        } else {
            count
        };
        buckets_insert(&mut self.buckets, key.to_owned(), (count, start));
        count <= self.config.max_requests
    }

    /// Records a request for `key` now, and tells whether it is within the
    /// configured limit.
    pub fn check(&mut self, key: &str) -> (allowed: bool)
        ensures
            final(self).config() == old(self).config(),
            exists|now: nat|
                #![trigger spec_check(old(self).buckets(), old(self).config().max_requests, old(self).config().window.view_nanos(), key@, now)]
                (final(self).buckets(), allowed) == spec_check(
                    old(self).buckets(),
                    old(self).config().max_requests,
                    old(self).config().window.view_nanos(),
                    key@,
                    now,
                ),
    {
        let n = crate::dash::elapsed_nanos(&self.origin);
        let now = Duration::from_nanos_u128(n).unwrap();
        self.check_at(key, now)
    }

    /// Seconds until the current window of `key` ends, at least 1, as of
    /// `now`.
    pub fn retry_after_secs_at(&self, key: &str, now: Duration) -> (r: u64)
        ensures
            r == spec_retry_after(self.buckets(), self.config().window.view_nanos(), key@, now.view_nanos()),
            r >= 1,
    {
        let now_n = now.as_nanos();
        match buckets_get(&self.buckets, key) {
            Some((_, start)) => {
                let elapsed: u128 = if now_n >= start {
                    now_n - start
                } else {
                    0
                };
                let window = self.config.window.as_nanos();
                if elapsed < window {
                    let rest = (window - elapsed) / 1_000_000_000;
                    assert(rest <= u64::MAX);
                    if rest >= 1 {
                        rest as u64
                    } else {
                        1
                    }
                } else {
                    1
                }
            },
            None => 1,
        }
    }
}

/// Bytes of an API key that a rate-limit key keeps at most.
pub const MAX_API_KEY_BYTES: u32 = 256;

/// The number of bytes `c` takes in UTF-8.
pub open spec fn utf8_width(c: char) -> int {
    if (c as u32) < 0x80 {
        1
    } else if (c as u32) < 0x800 {
        2
    } else if (c as u32) < 0x10000 {
        3
    } else {
        4
    }
}

/// The number of bytes `s` takes in UTF-8.
pub open spec fn utf8_len(s: Seq<char>) -> int
    decreases s.len(),
{
    if s.len() == 0 {
        0
    } else {
        utf8_width(s[0]) + utf8_len(s.drop_first())
    }
}

/// The longest prefix of `s` that fits in `budget` bytes of UTF-8: `s` cut
/// at a character boundary.
pub open spec fn utf8_prefix(s: Seq<char>, budget: int) -> Seq<char>
    decreases s.len(),
{
    if s.len() == 0 || utf8_width(s[0]) > budget {
        Seq::empty()
    } else {
        seq![s[0]] + utf8_prefix(s.drop_first(), budget - utf8_width(s[0]))
    }
}

/// The key a request is limited under: its `X-API-Key` header when present
/// and not empty, cut to its first [`MAX_API_KEY_BYTES`] bytes at a
/// character boundary, else its remote IP address.
pub open spec fn spec_rate_limit_key(api_key: Option<Seq<char>>, ip: Seq<char>) -> Seq<char> {
    match api_key {
        Some(k) => if k.len() > 0 {
            "api-key:"@ + utf8_prefix(k, MAX_API_KEY_BYTES as int)
        } else {
            "ip:"@ + ip
        },
        None => "ip:"@ + ip,
    }
}

/// The part of an API key that a rate-limit key keeps is a prefix of the key
/// and takes at most the given number of bytes; a key that fits is kept
/// whole.
pub proof fn lemma_utf8_prefix_fits(s: Seq<char>, budget: int)
    requires
        budget >= 0,
    ensures
        utf8_prefix(s, budget).len() <= s.len(),
        utf8_prefix(s, budget) == s.take(utf8_prefix(s, budget).len() as int),
        utf8_len(utf8_prefix(s, budget)) <= budget,
        utf8_len(s) <= budget ==> utf8_prefix(s, budget) == s,
    decreases s.len(),
{
    if s.len() == 0 {
        assert(s.take(0) =~= s);
    } else {
        lemma_utf8_len_nonneg(s.drop_first());
        if utf8_width(s[0]) <= budget {
            let rest = s.drop_first();
            lemma_utf8_prefix_fits(rest, budget - utf8_width(s[0]));
            let p = utf8_prefix(s, budget);
            let q = utf8_prefix(rest, budget - utf8_width(s[0]));
            assert(p == seq![s[0]] + q);
            assert(p.drop_first() =~= q);
            assert(p[0] == s[0]);
            assert(p =~= s.take(p.len() as int));
            if utf8_len(s) <= budget {
                assert(q == rest);
                assert(p =~= s);
            }
        } else {
            assert(utf8_prefix(s, budget) == Seq::<char>::empty());
            assert(s.take(0) =~= Seq::<char>::empty());
            if utf8_len(s) <= budget {
                assert(false);
            }
        }
    }
}

proof fn lemma_utf8_len_nonneg(s: Seq<char>)
    ensures
        utf8_len(s) >= 0,
    decreases s.len(),
{
    if s.len() > 0 {
        lemma_utf8_len_nonneg(s.drop_first());
    }
}

fn utf8_width_of(c: char) -> (w: u32)
    ensures
        w == utf8_width(c),
{
    let n = c as u32;
    if n < 0x80 {
        1
    } else if n < 0x800 {
        2
    } else if n < 0x10000 {
        3
    } else {
        4
    }
}

proof fn lemma_utf8_prefix_step(s: Seq<char>, i: int, budget: int)
    requires
        0 <= i < s.len(),
        utf8_width(s[i]) <= budget,
    ensures
        utf8_prefix(s.skip(i), budget) == seq![s[i]] + utf8_prefix(s.skip(i + 1), budget - utf8_width(s[i])),
{
    assert(s.skip(i)[0] == s[i]);
    assert(s.skip(i).drop_first() =~= s.skip(i + 1));
}

/// The first [`MAX_API_KEY_BYTES`] bytes of `k`, cut at a character boundary.
fn api_key_prefix(k: &str) -> (r: Vec<char>)
    ensures
        r@ == utf8_prefix(k@, MAX_API_KEY_BYTES as int),
{
    let c = crate::text::chars_of(k);
    let mut out: Vec<char> = Vec::new();
    let mut budget: u32 = MAX_API_KEY_BYTES;
    let mut i: usize = 0;
    assert(c@.skip(0) =~= c@);
    while i < c.len()
        invariant_except_break
            i <= c@.len(),
            budget <= MAX_API_KEY_BYTES,
            out@ + utf8_prefix(c@.skip(i as int), budget as int) == utf8_prefix(c@, MAX_API_KEY_BYTES as int),
        ensures
            out@ == utf8_prefix(c@, MAX_API_KEY_BYTES as int),
        decreases c@.len() - i,
    {
        let w = utf8_width_of(c[i]);
        if w > budget {
            proof {
                assert(c@.skip(i as int)[0] == c@[i as int]);
                assert(utf8_prefix(c@.skip(i as int), budget as int) == Seq::<char>::empty());
                assert(out@ + Seq::<char>::empty() =~= out@);
            }
            break;
        }
        proof {
            lemma_utf8_prefix_step(c@, i as int, budget as int);
            assert(out@.push(c@[i as int]) + utf8_prefix(c@.skip(i + 1), budget - w)
                =~= out@ + (seq![c@[i as int]] + utf8_prefix(c@.skip(i + 1), budget - w)));
        }
        out.push(c[i]);
        budget = budget - w;
        i = i + 1;
        proof {
            if i == c.len() {
                assert(c@.skip(i as int).len() == 0);
                assert(out@ + Seq::<char>::empty() =~= out@);
            }
        }
    }
    out
}

/// The key a request is limited under.
pub fn rate_limit_key(api_key: Option<&str>, ip: &str) -> (r: String)
    ensures
        r@ == spec_rate_limit_key(crate::text::opt_str_view(api_key), ip@),
{
    let mut key = String::new();
    match api_key {
        Some(k) => if !k.is_empty() {
            push_str(&mut key, "api-key:");
            let kept = api_key_prefix(k);
            crate::text::push_chars(&mut key, &kept);
        } else {
            push_str(&mut key, "ip:");
            push_str(&mut key, ip);
        },
        None => {
            push_str(&mut key, "ip:");
            push_str(&mut key, ip);
        },
    }
    key
}

/// What the rate-limit middleware does with a request.
#[derive(Debug, Clone, Copy, PartialEq, Eq, Structural)]
pub enum RateDecision {
    /// Pass the request on.
    Allow,
    /// Answer 429 with this `Retry-After`.
    Reject { retry_after_secs: u64 },
}

impl RateLimiter {
    /// The middleware's decision for a request under `key` at `now`: the
    /// request is recorded; when it is over the limit the client is told
    /// how long its window still runs.
    pub fn decide_at(&mut self, key: &str, now: Duration) -> (r: RateDecision)
        ensures
            final(self).config() == old(self).config(),
            ({
                let (after, allowed) = spec_check(
                    old(self).buckets(),
                    old(self).config().max_requests,
                    old(self).config().window.view_nanos(),
                    key@,
                    now.view_nanos(),
                );
                &&& final(self).buckets() == after
                &&& allowed ==> r == RateDecision::Allow
                &&& !allowed ==> (r matches RateDecision::Reject { retry_after_secs }
                    && retry_after_secs == spec_retry_after(after, old(self).config().window.view_nanos(), key@, now.view_nanos())
                    && retry_after_secs >= 1)
            }),
    {
        if self.check_at(key, now) {
            RateDecision::Allow
        } else {
            RateDecision::Reject { retry_after_secs: self.retry_after_secs_at(key, now) }
        }
    }

    /// The middleware's decision for a request under `key`, at the current
    /// reading of the monotonic clock.
    pub fn decide(&mut self, key: &str) -> (r: RateDecision)
        ensures
            final(self).config() == old(self).config(),
            exists|now: nat|
                #![trigger spec_check(old(self).buckets(), old(self).config().max_requests, old(self).config().window.view_nanos(), key@, now)]
                {
                    let (after, allowed) = spec_check(
                        old(self).buckets(),
                        old(self).config().max_requests,
                        old(self).config().window.view_nanos(),
                        key@,
                        now,
                    );
                    &&& final(self).buckets() == after
                    &&& allowed ==> r == RateDecision::Allow
                    &&& !allowed ==> (r matches RateDecision::Reject { retry_after_secs }
                        && retry_after_secs == spec_retry_after(after, old(self).config().window.view_nanos(), key@, now)
                        && retry_after_secs >= 1)
                },
    {
        let n = crate::dash::elapsed_nanos(&self.origin);
        let now = Duration::from_nanos_u128(n).unwrap();
        self.decide_at(key, now)
    }
}

/// The error word of a 429 answer.
pub const RATE_LIMIT_EXCEEDED: &'static str = "rate_limit_exceeded";

/// The message of a 429 answer.
pub fn rate_limit_message(retry_after_secs: u64) -> (r: String)
    ensures
        r@ == "Too many requests. Retry after "@ + crate::text::spec_decimal(retry_after_secs as nat) + " second(s)."@,
{
    let mut m = String::new();
    push_str(&mut m, "Too many requests. Retry after ");
    let digits = crate::text::decimal_chars(retry_after_secs);
    crate::text::push_chars(&mut m, &digits);
    push_str(&mut m, " second(s).");
    m
}

/// Within one window a key gets at most `max_requests` allowed requests: a
/// request made before the window of its key has passed, once the count has
/// reached the limit, is refused.
pub proof fn lemma_over_limit_is_refused(
    buckets: Map<Seq<char>, (u32, u128)>,
    max_requests: u32,
    window: nat,
    key: Seq<char>,
    now: nat,
)
    requires
        max_requests < u32::MAX,
        buckets.contains_key(key),
        buckets[key].0 >= max_requests,
        now >= buckets[key].1,
        now - buckets[key].1 < window,
    ensures
        !spec_check(buckets, max_requests, window, key, now).1,
{
}

/// A key seen for the first time, or whose window has passed, is allowed
/// whenever the limit is at least one, and starts a new window at `now`.
pub proof fn lemma_new_window_is_allowed(
    buckets: Map<Seq<char>, (u32, u128)>,
    max_requests: u32,
    window: nat,
    key: Seq<char>,
    now: nat,
)
    requires
        max_requests >= 1,
        now <= u128::MAX,
        !buckets.contains_key(key) || (now >= buckets[key].1 && now - buckets[key].1 >= window),
    ensures
        spec_check(buckets, max_requests, window, key, now).1,
        spec_check(buckets, max_requests, window, key, now).0[key] == (1u32, now as u128),
{
}

/// Requests under one key leave the state of every other key unchanged.
pub proof fn lemma_keys_are_independent(
    buckets: Map<Seq<char>, (u32, u128)>,
    max_requests: u32,
    window: nat,
    key: Seq<char>,
    now: nat,
    other: Seq<char>,
)
    requires
        other != key,
    ensures
        spec_check(buckets, max_requests, window, key, now).0.contains_key(other) == buckets.contains_key(other),
        buckets.contains_key(other) ==> spec_check(buckets, max_requests, window, key, now).0[other] == buckets[other],
{
}

/// The state after a run of requests, each a key and the time it was made,
/// and whether each was allowed, in order.
pub open spec fn spec_check_all(
    buckets: Map<Seq<char>, (u32, u128)>,
    max_requests: u32,
    window: nat,
    requests: Seq<(Seq<char>, nat)>,
) -> (Map<Seq<char>, (u32, u128)>, Seq<bool>)
    decreases requests.len(),
{
    if requests.len() == 0 {
        (buckets, Seq::empty())
    } else {
        let (before, allowed) = spec_check_all(buckets, max_requests, window, requests.drop_last());
        let (after, ok) = spec_check(before, max_requests, window, requests.last().0, requests.last().1);
        (after, allowed.push(ok))
    }
}

/// Whether a request is made under `key`.
pub open spec fn under_key(key: Seq<char>) -> spec_fn((Seq<char>, nat)) -> bool {
    |r: (Seq<char>, nat)| r.0 == key
}

/// The answers to the requests under `key`, in order, in a run of requests.
pub open spec fn spec_allowed_under(
    buckets: Map<Seq<char>, (u32, u128)>,
    max_requests: u32,
    window: nat,
    requests: Seq<(Seq<char>, nat)>,
    key: Seq<char>,
) -> Seq<bool>
    decreases requests.len(),
{
    if requests.len() == 0 {
        Seq::empty()
    } else {
        let earlier = spec_allowed_under(buckets, max_requests, window, requests.drop_last(), key);
        if requests.last().0 == key {
            earlier.push(spec_check_all(buckets, max_requests, window, requests).1.last())
        } else {
            earlier
        }
    }
}

/// A key seen for the first time gets exactly its first `max_requests`
/// requests allowed while they all fall within the window opened by the
/// first of them: the `i`-th is allowed exactly when `i < max_requests`.
pub proof fn lemma_first_requests_in_window_are_allowed(
    buckets: Map<Seq<char>, (u32, u128)>,
    max_requests: u32,
    window: nat,
    key: Seq<char>,
    requests: Seq<(Seq<char>, nat)>,
)
    requires
        !buckets.contains_key(key),
        requests.len() < u32::MAX,
        requests.len() > 0 ==> requests[0].1 <= u128::MAX,
        forall|i: int| 0 <= i < requests.len() ==> (#[trigger] requests[i]).0 == key,
        forall|i: int| 0 <= i < requests.len() ==> requests[0].1 <= (#[trigger] requests[i]).1
            && requests[i].1 < requests[0].1 + window,
    ensures
        spec_check_all(buckets, max_requests, window, requests).1.len() == requests.len(),
        forall|i: int| 0 <= i < requests.len() ==> (#[trigger] spec_check_all(buckets, max_requests, window, requests).1[i])
            == (i < max_requests),
        requests.len() > 0 ==> spec_check_all(buckets, max_requests, window, requests).0[key]
            == (requests.len() as u32, requests[0].1 as u128),
    decreases requests.len(),
{
    if requests.len() > 0 {
        let rest = requests.drop_last();
        assert forall|i: int| 0 <= i < rest.len() implies (#[trigger] rest[i]).0 == key by {
            assert(rest[i] == requests[i]);
        }
        assert forall|i: int| 0 <= i < rest.len() implies rest[0].1 <= (#[trigger] rest[i]).1
            && rest[i].1 < rest[0].1 + window by {
            assert(rest[i] == requests[i]);
            assert(rest[0] == requests[0]);
        }
        lemma_first_requests_in_window_are_allowed(buckets, max_requests, window, key, rest);
        let n = rest.len();
        let last = requests[n as int];
        assert(last == requests.last());
        assert(last.0 == key);
        let (before, allowed) = spec_check_all(buckets, max_requests, window, rest);
        if n == 0 {
            assert(before == buckets);
        } else {
            assert(rest[0] == requests[0]);
            assert(before[key] == (n as u32, requests[0].1 as u128));
        }
    }
}

/// Requests under other keys change nothing for a key: the answers to the
/// requests under `key` in a run, and the state of `key` after it, are those
/// of the run of its own requests alone.
pub proof fn lemma_run_keys_are_independent(
    buckets: Map<Seq<char>, (u32, u128)>,
    max_requests: u32,
    window: nat,
    requests: Seq<(Seq<char>, nat)>,
    key: Seq<char>,
)
    ensures
        spec_allowed_under(buckets, max_requests, window, requests, key)
            == spec_check_all(buckets, max_requests, window, requests.filter(under_key(key))).1,
        spec_check_all(buckets, max_requests, window, requests).0.contains_key(key)
            == spec_check_all(buckets, max_requests, window, requests.filter(under_key(key))).0.contains_key(key),
        spec_check_all(buckets, max_requests, window, requests).0.contains_key(key)
            ==> spec_check_all(buckets, max_requests, window, requests).0[key]
            == spec_check_all(buckets, max_requests, window, requests.filter(under_key(key))).0[key],
    decreases requests.len(),
{
    reveal(Seq::filter);
    if requests.len() > 0 {
        let rest = requests.drop_last();
        lemma_run_keys_are_independent(buckets, max_requests, window, rest, key);
        let last = requests.last();
        let own = requests.filter(under_key(key));
        let own_rest = rest.filter(under_key(key));
        let (before, _) = spec_check_all(buckets, max_requests, window, rest);
        if last.0 == key {
            assert(own == own_rest.push(last));
            assert(own.drop_last() == own_rest);
            assert(own.last() == last);
            let (before_own, _) = spec_check_all(buckets, max_requests, window, own_rest);
            if before.contains_key(key) {
                assert(before[key] == before_own[key]);
            }
        } else {
            assert(own == own_rest);
            lemma_keys_are_independent(before, max_requests, window, last.0, last.1, key);
        }
    }
}

/// The Retry-After of a refused request is what remains of its key's window
/// in whole seconds, at least one: when `r` seconds are answered with a
/// window still open, at least `r` seconds of it remain and less than
/// `r + 1`; a request made `r + 1` seconds later opens a new window, and
/// (when a second or more remains) one made a nanosecond before `r` seconds
/// later still falls in the current window.
pub proof fn lemma_retry_after_is_remaining_window(
    buckets: Map<Seq<char>, (u32, u128)>,
    max_requests: u32,
    window: nat,
    key: Seq<char>,
    now: nat,
)
    requires
        buckets.contains_key(key),
        buckets[key].1 <= now,
    ensures
        ({
            let start = buckets[key].1 as nat;
            let remaining = window - (now - start);
            let r = spec_retry_after(buckets, window, key, now);
            &&& r >= 1
            &&& remaining >= 1_000_000_000 ==> r * 1_000_000_000 <= remaining < (r + 1) * 1_000_000_000
            &&& remaining < 1_000_000_000 ==> r == 1
            &&& now + (r + 1) * 1_000_000_000 <= u128::MAX ==> spec_check(
                buckets,
                max_requests,
                window,
                key,
                (now + (r + 1) * 1_000_000_000) as nat,
            ).0[key].1 == now + (r + 1) * 1_000_000_000
            &&& remaining >= 1_000_000_000 ==> spec_check(
                buckets,
                max_requests,
                window,
                key,
                (now + r * 1_000_000_000 - 1) as nat,
            ).0[key].1 == start
        }),
{
    let start = buckets[key].1 as nat;
    let elapsed = (now - start) as nat;
    let r = spec_retry_after(buckets, window, key, now);
    if elapsed < window {
        let rem = (window - elapsed) as nat;
        let q = rem / 1_000_000_000;
        assert(q * 1_000_000_000 <= rem < (q + 1) * 1_000_000_000) by {
            vstd::arithmetic::div_mod::lemma_fundamental_div_mod(rem as int, 1_000_000_000);
            vstd::arithmetic::div_mod::lemma_mod_bound(rem as int, 1_000_000_000);
        }
        if rem >= 1_000_000_000 {
            assert(q >= 1) by {
                vstd::arithmetic::div_mod::lemma_div_is_ordered(1_000_000_000, rem as int, 1_000_000_000);
            }
            assert(r == q);
        } else {
            assert(q == 0) by {
                vstd::arithmetic::div_mod::lemma_basic_div(rem as int, 1_000_000_000);
            }
        }
    }
}

} // verus!
