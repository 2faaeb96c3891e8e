//! The Horizon event-stream subscriber of the metrics exporter: its
//! configuration, the stream URL, the reconnect policy, the framing of the
//! `text/event-stream` body into event blocks, and which metric an event
//! updates.
//!
//! The caller performs the connection, the reads, the sleeps and the metric
//! updates; the functions here decide.

use vstd::prelude::*;
use crate::json::{Json, spec_get, spec_as_bool, spec_as_str};
use crate::text::{chars_of, push_str, push_chars, string_from_chars, trim_chars, spec_trim, str_eq};
use crate::time::{Duration, MAX_NANOS};
use vstd::arithmetic::power2::{pow2, lemma2_to64, lemma_pow2_strictly_increases, lemma_pow2_unfold};

verus! {

/// Configuration of the subscriber.
#[derive(Debug, Clone)]
pub struct SseConfig {
    /// Horizon base URL, e.g. `https://horizon-testnet.stellar.org`.
    pub horizon_url: String,
    /// Maximum reconnect attempts (0 = unlimited).
    pub max_reconnects: u32,
    /// Base reconnect delay (doubles each attempt).
    pub base_delay: Duration,
    /// Ceiling for exponential back-off.
    pub max_delay: Duration,
    /// HTTP request timeout for each connection attempt.
    pub connect_timeout: Duration,
}

pub const DEFAULT_HORIZON_URL: &'static str = "https://horizon-testnet.stellar.org";

impl Default for SseConfig {
    /// The testnet Horizon, 10 reconnects, back-off from 1 s up to 30 s, and a
    /// 10 s connect timeout.
    fn default() -> (r: Self)
        ensures
            r.horizon_url@ == DEFAULT_HORIZON_URL@,
            r.max_reconnects == 10,
            r.base_delay.view_nanos() == 1_000_000_000,
            r.max_delay.view_nanos() == 30_000_000_000,
            r.connect_timeout.view_nanos() == 10_000_000_000,
    {
        SseConfig {
            horizon_url: DEFAULT_HORIZON_URL.to_owned(),
            max_reconnects: 10,
            base_delay: Duration::from_secs(1),
            max_delay: Duration::from_secs(30),
            connect_timeout: Duration::from_secs(10),
        }
    }
}

/// Event ingestion mode of the exporter.
#[derive(Debug, Clone, Copy, PartialEq, Eq, Structural)]
pub enum EventMode {
    /// Poll the Soroban RPC on a fixed interval.
    Poll,
    /// Subscribe to the Horizon event stream.
    Sse,
}

impl EventMode {
    /// The name of the mode, as the command line spells it.
    pub fn as_str(&self) -> (r: &'static str)
        ensures
            r@ == (match self {
                EventMode::Poll => "poll"@,
                EventMode::Sse => "sse"@,
            }),
    {
        match self {
            EventMode::Poll => "poll",
            EventMode::Sse => "sse",
        }
    }
}

/// The exporter's settings, from the command line or the environment.
#[derive(Debug, Clone)]
pub struct Args {
    pub rpc_url: String,
    pub network_passphrase: String,
    pub core_contract_id: String,
    pub middleware_contract_id: String,
    pub registry_contract_id: String,
    pub quote_contract_id: String,
    pub execution_contract_id: String,
    pub access_contract_id: String,
    pub timelock_contract_id: String,
    pub multicall_contract_id: String,
    pub scrape_interval_secs: u64,
    pub listen: String,
    pub rpc_timeout_secs: u64,
    pub event_mode: EventMode,
    pub horizon_url: String,
    pub sse_max_reconnects: u32,
    pub sse_reconnect_delay_ms: u64,
    pub sse_reconnect_max_delay_ms: u64,
}

/// The subscriber configuration the settings describe.
pub fn sse_config_from_args(args: &Args) -> (r: SseConfig)
    ensures
        r.horizon_url@ == args.horizon_url@,
        r.max_reconnects == args.sse_max_reconnects,
        r.base_delay.view_nanos() == args.sse_reconnect_delay_ms * 1_000_000,
        r.max_delay.view_nanos() == args.sse_reconnect_max_delay_ms * 1_000_000,
        r.connect_timeout.view_nanos() == args.rpc_timeout_secs * 1_000_000_000,
{
    let mut horizon_url = String::new();
    push_str(&mut horizon_url, args.horizon_url.as_str());
    SseConfig {
        horizon_url,
        max_reconnects: args.sse_max_reconnects,
        base_delay: Duration::from_millis(args.sse_reconnect_delay_ms),
        max_delay: Duration::from_millis(args.sse_reconnect_max_delay_ms),
        connect_timeout: Duration::from_secs(args.rpc_timeout_secs),
    }
}

/// `s` without its trailing `c` characters, as `str::trim_end_matches` gives
/// it.
pub open spec fn trim_end_char(s: Seq<char>, c: char) -> Seq<char>
    decreases s.len(),
{
    if s.len() > 0 && s.last() == c {
        trim_end_char(s.drop_last(), c)
    } else {
        s
    }
}

/// Removes the trailing `c` characters of `v`.
pub fn trim_end_char_vec(v: &[char], c: char) -> (r: Vec<char>)
    ensures
        r@ == trim_end_char(v@, c),
{
    let mut end = v.len();
    assert(v@.take(end as int) == v@);
    while end > 0 && v[end - 1] == c
        invariant
            end <= v@.len(),
            trim_end_char(v@, c) == trim_end_char(v@.take(end as int), c),
        decreases end,
    {
        assert(v@.take(end as int).drop_last() == v@.take(end - 1));
        end = end - 1;
    }
    let mut r: Vec<char> = Vec::new();
    for i in 0..end
        invariant
            end <= v@.len(),
            r@ == v@.take(i as int),
    {
        r.push(v[i]);
        assert(v@.take(i + 1) == v@.take(i as int).push(v@[i as int]));
    }
    r
}

/// The subscription of one contract: what the stream URL and the reconnect
/// policy depend on.
#[derive(Debug, Clone)]
pub struct SseSubscriber {
    pub config: SseConfig,
    pub contract_id: String,
}

/// The stream URL: the Horizon base without trailing slashes, then
/// `/events?contractId={id}&cursor=now`.
pub open spec fn spec_sse_url(horizon_url: Seq<char>, contract_id: Seq<char>) -> Seq<char> {
    trim_end_char(horizon_url, '/') + "/events?contractId="@ + contract_id + "&cursor=now"@
}

/// Why the subscriber stops.
#[derive(Debug, Clone, Copy, PartialEq, Eq, Structural)]
pub enum StopReason {
    Cancelled,
    /// More than the allowed reconnects were needed.
    TooManyReconnects,
}

/// What the subscriber does before a connection attempt.
#[derive(Debug, Clone, Copy, PartialEq, Eq, Structural)]
pub enum ConnectStep {
    Connect,
    Stop(StopReason),
}

/// `2^e`, saturated at `u32::MAX`, as `2u32.saturating_pow(e)` gives it.
pub open spec fn pow2_saturating(e: nat) -> nat {
    if e >= 32 {
        u32::MAX as nat
    } else {
        pow2(e)
    }
}

/// The back-off after the `count`-th reconnect: `base * 2^(count - 1)`, the
/// ceiling when that product leaves the range of a span, and never more than
/// the ceiling.
pub open spec fn spec_backoff(base: nat, max: nat, count: nat) -> nat {
    let e: nat = if count == 0 {
        0
    } else {
        (count - 1) as nat
    };
    let product = base * pow2_saturating(e);
    let delay = if product <= MAX_NANOS {
        product
    } else {
        max
    };
    if delay <= max {
        delay
    } else {
        max
    }
}

/// `2u32.saturating_pow(e)`.
fn saturating_pow2(e: u32) -> (r: u32)
    ensures
        r == pow2_saturating(e as nat),
{
    let mut r: u32 = 1;
    let mut k: u32 = 0;
    proof {
        lemma2_to64();
    }
    while k < e
        invariant
            k <= e,
            r == pow2_saturating(k as nat),
        decreases e - k,
    {
        proof {
            lemma2_to64();
            if k < 31 {
                lemma_pow2_strictly_increases(k as nat, 31);
            }
            if k < 32 {
                lemma_pow2_unfold((k + 1) as nat);
            }
        }
        if r > u32::MAX / 2 {
            r = u32::MAX;
        } else {
            r = r * 2;
        }
        k = k + 1;
    }
    r
}

impl SseSubscriber {
    /// A subscription of `contract_id` with `config`.
    pub fn new(config: SseConfig, contract_id: &str) -> (r: Self)
        ensures
            r.config == config,
            r.contract_id@ == contract_id@,
    {
        SseSubscriber { config, contract_id: contract_id.to_owned() }
    }

    /// The Horizon stream URL of this contract's events, starting from now.
    pub fn sse_url(&self) -> (r: String)
        ensures
            r@ == spec_sse_url(self.config.horizon_url@, self.contract_id@),
    {
        let base = chars_of(self.config.horizon_url.as_str());
        let trimmed = trim_end_char_vec(&base, '/');
        let mut url = string_from_chars(&trimmed);
        push_str(&mut url, "/events?contractId=");
        push_str(&mut url, self.contract_id.as_str());
        push_str(&mut url, "&cursor=now");
        url
    }

    /// Before each connection attempt: stop when cancelled, or when a limit
    /// is set and `reconnect_count` has reached it; else connect.
    pub fn before_connect(&self, cancelled: bool, reconnect_count: u32) -> (r: ConnectStep)
        ensures
            r == (if cancelled {
                ConnectStep::Stop(StopReason::Cancelled)
            } else if self.config.max_reconnects > 0 && reconnect_count >= self.config.max_reconnects {
                ConnectStep::Stop(StopReason::TooManyReconnects)
            } else {
                ConnectStep::Connect
            }),
    {
        if cancelled {
            ConnectStep::Stop(StopReason::Cancelled)
        } else if self.config.max_reconnects > 0 && reconnect_count >= self.config.max_reconnects {
            ConnectStep::Stop(StopReason::TooManyReconnects)
        } else {
            ConnectStep::Connect
        }
    }

    /// After a stream ended or failed: the new reconnect count and the
    /// back-off before the next attempt.
    pub fn after_disconnect(&self, reconnect_count: u32) -> (r: (u32, Duration))
        requires
            reconnect_count < u32::MAX,
        ensures
            r.0 == reconnect_count + 1,
            r.1.view_nanos() == spec_backoff(
                self.config.base_delay.view_nanos(),
                self.config.max_delay.view_nanos(),
                (reconnect_count + 1) as nat,
            ),
    {
        let count = reconnect_count + 1;
        (count, backoff_delay(self.config.base_delay, self.config.max_delay, count))
    }
}

/// The back-off after the `reconnect_count`-th reconnect.
pub fn backoff_delay(base_delay: Duration, max_delay: Duration, reconnect_count: u32) -> (r: Duration)
    ensures
        r.view_nanos() == spec_backoff(base_delay.view_nanos(), max_delay.view_nanos(), reconnect_count as nat),
{
    let e: u32 = if reconnect_count == 0 {
        0
    } else {
        reconnect_count - 1
    };
    let factor = saturating_pow2(e);
    let delay = match base_delay.checked_mul(factor) {
        Some(d) => d,
        None => max_delay,
    };
    delay.min(max_delay)
}

/// The back-off never exceeds its ceiling.
pub proof fn lemma_backoff_capped(base: nat, max: nat, count: nat)
    ensures
        spec_backoff(base, max, count) <= max,
{
}

/// Before the ceiling is reached the back-off doubles with each reconnect:
/// the delay after reconnect `count + 1` is twice the one after `count`, for
/// `count` from 1 up to 31, while that doubled delay stays within the
/// ceiling.
pub proof fn lemma_backoff_doubles(base: nat, max: nat, count: nat)
    requires
        1 <= count < 32,
        2 * spec_backoff(base, max, count) <= max,
        base * pow2_saturating(count as nat) <= MAX_NANOS,
    ensures
        spec_backoff(base, max, count + 1) == 2 * spec_backoff(base, max, count),
{
    lemma2_to64();
    lemma_pow2_unfold(count);
    assert(pow2_saturating(count) == 2 * pow2_saturating((count - 1) as nat));
    assert(base * pow2_saturating(count) == 2 * (base * pow2_saturating((count - 1) as nat))) by (nonlinear_arith)
        requires
            pow2_saturating(count) == 2 * pow2_saturating((count - 1) as nat),
    ;
}

/// A parsed event of the stream.
#[derive(Debug)]
pub struct SseEvent {
    /// Ledger sequence number in which the event was emitted.
    pub ledger: u32,
    /// Contract that emitted the event.
    pub contract_id: String,
    /// Decoded topic symbols, e.g. `["post_call"]`.
    pub topic: Vec<Json>,
    /// Decoded event value.
    pub value: Json,
    /// Horizon-assigned event type.
    pub event_type: String,
}

/// The metric an event updates.
#[derive(Debug, Clone, PartialEq, Eq)]
pub enum EventEffect {
    /// A `post_call` of the middleware: one call of `route`, and one failure
    /// when the call reported `success: false`.
    RouteCall { route: String, failed: bool },
    /// A quote was generated.
    QuoteGenerated,
    /// A fee was estimated.
    FeeEstimated,
    /// An execution completed.
    ExecutionResult,
    /// An execution failed.
    ExecutionError,
    /// Any other topic: nothing is updated.
    Ignored,
}

/// The first topic symbol of an event, empty when there is none.
pub open spec fn spec_topic(event: SseEvent) -> Seq<char> {
    if event.topic@.len() > 0 {
        match spec_as_str(event.topic@[0]) {
            Some(s) => s,
            None => Seq::empty(),
        }
    } else {
        Seq::empty()
    }
}

/// The route of a `post_call` value, `unknown` when it names none.
pub open spec fn spec_route(value: Json) -> Seq<char> {
    match spec_get(value, "route"@) {
        Some(r) => match spec_as_str(r) {
            Some(s) => s,
            None => "unknown"@,
        },
        None => "unknown"@,
    }
}

/// Whether a `post_call` value reports `success: false`.
pub open spec fn spec_failed(value: Json) -> bool {
    match spec_get(value, "success"@) {
        Some(s) => spec_as_bool(s) == Some(false),
        None => false,
    }
}

/// Whether `effect` is what an event with `topic` and `value` does.
pub open spec fn spec_effect(topic: Seq<char>, value: Json, effect: EventEffect) -> bool {
    if topic == "post_call"@ {
        effect matches EventEffect::RouteCall { route, failed } && route@ == spec_route(value) && failed
            == spec_failed(value)
    } else if topic == "quote_generated"@ {
        effect == EventEffect::QuoteGenerated
    } else if topic == "fee_estimated"@ {
        effect == EventEffect::FeeEstimated
    } else if topic == "execution_result"@ {
        effect == EventEffect::ExecutionResult
    } else if topic == "execution_error"@ {
        effect == EventEffect::ExecutionError
    } else {
        effect == EventEffect::Ignored
    }
}

/// The metric `event` updates, chosen by its first topic symbol.
pub fn handle_event(event: &SseEvent) -> (r: EventEffect)
    ensures
        spec_effect(spec_topic(*event), event.value, r),
{
    let topic: &str = if event.topic.len() > 0 {
        match event.topic[0].as_str() {
            Some(s) => s,
            None => "",
        }
    } else {
        ""
    };
    proof {
        reveal_strlit("");
    }
    assert(topic@ == spec_topic(*event));
    if str_eq(topic, "post_call") {
        let failed = match event.value.get("success") {
            Some(s) => match s.as_bool() {
                Some(b) => !b,
                None => false,
            },
            None => false,
        };
        let route: &str = match event.value.get("route") {
            Some(r) => match r.as_str() {
                Some(s) => s,
                None => "unknown",
            },
            None => "unknown",
        };
        assert(failed == spec_failed(event.value));
        assert(route@ == spec_route(event.value));
        let r = EventEffect::RouteCall { route: route.to_owned(), failed };
        assert(spec_effect(spec_topic(*event), event.value, r));
        r
    } else if str_eq(topic, "quote_generated") {
        EventEffect::QuoteGenerated
    } else if str_eq(topic, "fee_estimated") {
        EventEffect::FeeEstimated
    } else if str_eq(topic, "execution_result") {
        EventEffect::ExecutionResult
    } else if str_eq(topic, "execution_error") {
        EventEffect::ExecutionError
    } else {
        EventEffect::Ignored
    }
}

/// Whether `line` begins with `data:`.
pub open spec fn is_data_line(line: Seq<char>) -> bool {
    line.len() >= 5 && line.take(5) == "data:"@
}

/// The index of the first `data:` line of `lines` from `i` on.
pub open spec fn first_data_line(lines: Seq<Seq<char>>, i: int) -> Option<int>
    decreases lines.len() - i,
{
    if i < 0 || i >= lines.len() {
        None
    } else if is_data_line(lines[i]) {
        Some(i)
    } else {
        first_data_line(lines, i + 1)
    }
}

/// The payload of an event block: the first `data:` line without its
/// prefix, trimmed; nothing when there is no such line or it is empty.
pub open spec fn spec_event_data(lines: Seq<Seq<char>>) -> Option<Seq<char>> {
    match first_data_line(lines, 0) {
        Some(i) => {
            let d = spec_trim(lines[i].skip(5));
            if d.len() > 0 {
                Some(d)
            } else {
                None
            }
        },
        None => None,
    }
}

fn is_data_prefix(v: &Vec<char>) -> (b: bool)
    ensures
        b == is_data_line(v@),
{
    proof {
        reveal_strlit("data:");
    }
    if v.len() < 5 {
        return false;
    }
    let r = v[0] == 'd' && v[1] == 'a' && v[2] == 't' && v[3] == 'a' && v[4] == ':';
    proof {
        let p = v@.take(5);
        let d = "data:"@;
        assert(d.len() == 5);
        assert(d[0] == 'd' && d[1] == 'a' && d[2] == 't' && d[3] == 'a' && d[4] == ':');
        if r {
            assert(p =~= d);
        } else {
            assert(p[0] != d[0] || p[1] != d[1] || p[2] != d[2] || p[3] != d[3] || p[4] != d[4]);
            assert(p != d);
        }
    }
    r
}

/// The payload of an event block (its lines, without the blank line that
/// ends it), to be parsed as JSON.
pub fn dispatch_event_block(lines: &[String]) -> (r: Option<String>)
    ensures
        match spec_event_data(lines@.map_values(|l: String| l@)) {
            Some(d) => r matches Some(s) && s@ == d,
            None => r is None,
        },
{
    let ghost views = lines@.map_values(|l: String| l@);
    for i in 0..lines.len()
        invariant
            views == lines@.map_values(|l: String| l@),
            first_data_line(views, 0) == first_data_line(views, i as int),
    {
        let v = chars_of(lines[i].as_str());
        if is_data_prefix(&v) {
            let mut rest: Vec<char> = Vec::new();
            for j in 5..v.len()
                invariant
                    5 <= v@.len(),
                    rest@ == v@.subrange(5, j as int),
            {
                rest.push(v[j]);
                assert(v@.subrange(5, j + 1) == v@.subrange(5, j as int).push(v@[j as int]));
            }
            assert(rest@ == views[i as int].skip(5));
            let d = trim_chars(&rest);
            if d.len() > 0 {
                return Some(string_from_chars(&d));
            } else {
                return None;
            }
        }
    }
    None
}

/// What the framing of the stream has read so far: the current partial line,
/// the lines of the open event block, and the event blocks completed.
pub struct FrameState {
    pub partial: Seq<char>,
    pub lines: Seq<Seq<char>>,
    pub blocks: Seq<Seq<Seq<char>>>,
}

/// One character of the stream: a newline ends a line (without a trailing
/// carriage return); an empty line ends the open event block, if it has
/// lines.
pub open spec fn frame_step(s: FrameState, c: char) -> FrameState {
    if c == '\n' {
        let line = trim_end_char(s.partial, '\r');
        if line.len() == 0 {
            if s.lines.len() > 0 {
                FrameState { partial: Seq::empty(), lines: Seq::empty(), blocks: s.blocks.push(s.lines) }
            } else {
                FrameState { partial: Seq::empty(), lines: s.lines, blocks: s.blocks }
            }
        } else {
            FrameState { partial: Seq::empty(), lines: s.lines.push(line), blocks: s.blocks }
        }
    } else {
        FrameState { partial: s.partial.push(c), lines: s.lines, blocks: s.blocks }
    }
}

/// The framing state after reading `text` from state `s`.
pub open spec fn frame(s: FrameState, text: Seq<char>) -> FrameState
    decreases text.len(),
{
    if text.len() == 0 {
        s
    } else {
        frame_step(frame(s, text.drop_last()), text.last())
    }
}

/// Splits the event stream into event blocks across reads.
pub struct EventFramer {
    partial: Vec<char>,
    lines: Vec<String>,
}

impl EventFramer {
    pub closed spec fn state(&self) -> FrameState {
        FrameState {
            partial: self.partial@,
            lines: self.lines@.map_values(|l: String| l@),
            blocks: Seq::empty(),
        }
    }

    /// A framer that has read nothing.
    pub fn new() -> (r: Self)
        ensures
            r.state() == (FrameState { partial: Seq::empty(), lines: Seq::empty(), blocks: Seq::empty() }),
    {
        let r = EventFramer { partial: Vec::new(), lines: Vec::new() };
        assert(r.lines@.map_values(|l: String| l@) == Seq::<Seq<char>>::empty());
        r
    }

    /// Reads `text` and returns the event blocks it completes, in order.
    pub fn feed(&mut self, text: &str) -> (r: Vec<Vec<String>>)
        ensures
            ({
                let after = frame(old(self).state(), text@);
                &&& final(self).state().partial == after.partial
                &&& final(self).state().lines == after.lines
                &&& final(self).state() == without_blocks(after)
                &&& r@.map_values(|b: Vec<String>| b@.map_values(|l: String| l@)) == after.blocks
            }),
    {
        let chars = chars_of(text);
        let ghost start = self.state();
        let mut out: Vec<Vec<String>> = Vec::new();
        for i in 0..chars.len()
            invariant
                chars@ == text@,
                ({
                    let now = frame(start, chars@.take(i as int));
                    &&& self.partial@ == now.partial
                    &&& self.lines@.map_values(|l: String| l@) == now.lines
                    &&& out@.map_values(|b: Vec<String>| b@.map_values(|l: String| l@)) == now.blocks
                }),
        {
            let c = chars[i];
            assert(chars@.take(i + 1).drop_last() == chars@.take(i as int));
            assert(chars@.take(i + 1).last() == c);
            if c == '\n' {
                let line = trim_end_char_vec(&self.partial, '\r');
                self.partial = Vec::new();
                if line.len() == 0 {
                    if self.lines.len() > 0 {
                        let mut block: Vec<String> = Vec::new();
                        std::mem::swap(&mut block, &mut self.lines);
                        let ghost before = out@;
                        out.push(block);
                        assert(out@.map_values(|b: Vec<String>| b@.map_values(|l: String| l@))
                            == before.map_values(|b: Vec<String>| b@.map_values(|l: String| l@)).push(
                            block@.map_values(|l: String| l@)));
                    }
                } else {
                    let ghost before = self.lines@;
                    self.lines.push(string_from_chars(&line));
                    assert(self.lines@.map_values(|l: String| l@) == before.map_values(|l: String| l@).push(line@));
                }
            } else {
                self.partial.push(c);
            }
        }
        assert(chars@.take(chars@.len() as int) == chars@);
        out
    }
}

/// Reading a text in two parts frames it as reading it at once: the blocks
/// do not depend on how the stream is cut into reads.
pub proof fn lemma_frame_split(s: FrameState, a: Seq<char>, b: Seq<char>)
    ensures
        frame(frame(s, a), b) == frame(s, a + b),
    decreases b.len(),
{
    if b.len() == 0 {
        assert(a + b == a);
    } else {
        lemma_frame_split(s, a, b.drop_last());
        assert((a + b).drop_last() == a + b.drop_last());
        assert((a + b).last() == b.last());
    }
}

/// The framing state `s` with its completed blocks handed out: what a
/// framer holds between reads.
pub open spec fn without_blocks(s: FrameState) -> FrameState {
    FrameState { partial: s.partial, lines: s.lines, blocks: Seq::empty() }
}

/// Feeding `chunks` to a framer one read after another, from state `s`: the
/// partial line and open block left after the last read, and the blocks
/// already in `s` followed by the blocks each read returned, in order.
pub open spec fn feed_chunks(s: FrameState, chunks: Seq<Seq<char>>) -> FrameState
    decreases chunks.len(),
{
    if chunks.len() == 0 {
        s
    } else {
        let prev = feed_chunks(s, chunks.drop_last());
        let next = frame(without_blocks(prev), chunks.last());
        FrameState { partial: next.partial, lines: next.lines, blocks: prev.blocks + next.blocks }
    }
}

/// Framing from a state with completed blocks adds to them what framing from
/// the same partial line and open block alone completes.
proof fn lemma_frame_keeps_blocks(s: FrameState, t: Seq<char>)
    ensures
        frame(s, t) == (FrameState {
            partial: frame(without_blocks(s), t).partial,
            lines: frame(without_blocks(s), t).lines,
            blocks: s.blocks + frame(without_blocks(s), t).blocks,
        }),
    decreases t.len(),
{
    if t.len() == 0 {
        assert(s.blocks + Seq::<Seq<Seq<char>>>::empty() == s.blocks);
    } else {
        lemma_frame_keeps_blocks(s, t.drop_last());
        let inner = frame(without_blocks(s), t.drop_last());
        assert(forall|x: Seq<Seq<char>>| #[trigger] (s.blocks + inner.blocks).push(x) == s.blocks + inner.blocks.push(x));
    }
}

/// However the event stream is cut into reads, a framer returns over all the
/// reads the event blocks of the whole stream, in stream order, and keeps the
/// same partial line and open block: feeding the reads one after another is
/// framing their concatenation at once.
pub proof fn lemma_blocks_do_not_depend_on_reads(s: FrameState, chunks: Seq<Seq<char>>)
    ensures
        feed_chunks(s, chunks) == frame(s, chunks.flatten()),
    decreases chunks.len(),
{
    chunks.lemma_flatten_and_flatten_alt_are_equivalent();
    if chunks.len() == 0 {
    } else {
        let rest = chunks.drop_last();
        lemma_blocks_do_not_depend_on_reads(s, rest);
        rest.lemma_flatten_and_flatten_alt_are_equivalent();
        let prev = feed_chunks(s, rest);
        lemma_frame_keeps_blocks(prev, chunks.last());
        lemma_frame_split(s, rest.flatten(), chunks.last());
        assert(chunks.flatten_alt() == rest.flatten_alt() + chunks.last());
    }
}

} // verus!
