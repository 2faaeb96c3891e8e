//! Label cardinality limiting for the exported metrics.
//!
//! For each metric the limiter keeps the distinct label values it accepted,
//! at most `max_cardinality` of them; a value beyond that budget is reported
//! under the single label [`OTHER_BUCKET`], so memory stays bounded while the
//! total is still observable. Each metric has its own budget.

use vstd::prelude::*;
use dashmap::DashMap;
use crate::text::{push_str, str_eq};

verus! {

/// Default maximum number of distinct label values per metric.
pub const DEFAULT_MAX_CARDINALITY: usize = 100;

/// Label value used when the cardinality cap is exceeded.
pub const OTHER_BUCKET: &'static str = "_other";

/// Tail used by a composite label with no parts.
pub const UNKNOWN_TAIL: &'static str = "_unknown";

/// The limiter's map: per metric key, the accepted label values.
pub type SeenMap = DashMap<String, Vec<String>>;

/// The views of a list of strings.
pub open spec fn strings_view(v: Seq<String>) -> Seq<Seq<char>> {
    v.map_values(|s: String| s@)
}

/// What the limiter's map holds.
pub uninterp spec fn seen_of(m: SeenMap) -> Map<Seq<char>, Seq<Seq<char>>>;

/// `DashMap::new`: an empty map.
#[verifier::external_body]
fn seen_new() -> (r: SeenMap)
    ensures
        seen_of(r).dom() == Set::<Seq<char>>::empty(),
{
    DashMap::new()
}

/// `DashMap::get`, copying the values out: the values held for `key`, if any.
#[verifier::external_body]
fn seen_get(m: &SeenMap, key: &str) -> (r: Option<Vec<String>>)
    ensures
        match r {
            Some(v) => seen_of(*m).contains_key(key@) && strings_view(v@) == seen_of(*m)[key@],
            None => !seen_of(*m).contains_key(key@),
        },
{
    m.get(key).map(|e| e.value().clone())
}

/// `DashMap::insert`: `key` now holds `value`; other keys are unchanged.
#[verifier::external_body]
fn seen_insert(m: &mut SeenMap, key: String, value: Vec<String>)
    ensures
        seen_of(*final(m)) == seen_of(*old(m)).insert(key@, strings_view(value@)),
{
    m.insert(key, value);
}

/// `DashMap::remove`: `key` has no entry any more; other keys are unchanged.
#[verifier::external_body]
fn seen_remove(m: &mut SeenMap, key: &str)
    ensures
        seen_of(*final(m)) == seen_of(*old(m)).remove(key@),
{
    m.remove(key);
}

/// `DashMap::clear`: no key has an entry any more.
#[verifier::external_body]
fn seen_clear(m: &mut SeenMap)
    ensures
        seen_of(*final(m)).dom() == Set::<Seq<char>>::empty(),
{
    m.clear();
}

/// Tracks and limits the number of distinct label values per metric.
pub struct LabelCardinalityLimiter {
    seen: SeenMap,
    max_cardinality: usize,
}

/// The values accepted so far for `key`.
pub open spec fn accepted(seen: Map<Seq<char>, Seq<Seq<char>>>, key: Seq<char>) -> Seq<Seq<char>> {
    if seen.contains_key(key) {
        seen[key]
    } else {
        Seq::empty()
    }
}

/// What mapping `value` under `key` does to the accepted values, and the
/// label it is reported under: an accepted value passes through; a new one
/// is accepted while the budget lasts; beyond it, the value becomes
/// [`OTHER_BUCKET`].
pub open spec fn spec_map_value(
    seen: Map<Seq<char>, Seq<Seq<char>>>,
    max: nat,
    key: Seq<char>,
    value: Seq<char>,
) -> (Map<Seq<char>, Seq<Seq<char>>>, Seq<char>) {
    let cur = accepted(seen, key);
    if max == 0 {
        (seen, OTHER_BUCKET@)
    } else if cur.contains(value) {
        (seen, value)
    } else if cur.len() < max {
        (seen.insert(key, cur.push(value)), value)
    } else {
        (seen, OTHER_BUCKET@)
    }
}

/// The key under which the tails of a composite label are tracked.
pub open spec fn tail_key(metric_name: Seq<char>) -> Seq<char> {
    metric_name + ":tail"@
}

/// The tracked part of a composite label: its last part.
pub open spec fn composite_tail(parts: Seq<Seq<char>>) -> Seq<char> {
    if parts.len() == 0 {
        UNKNOWN_TAIL@
    } else {
        parts.last()
    }
}

/// The parts of a composite label with the last one replaced by `tail`.
pub open spec fn with_tail(parts: Seq<Seq<char>>, tail: Seq<char>) -> Seq<Seq<char>> {
    if parts.len() == 0 {
        parts
    } else {
        parts.drop_last().push(tail)
    }
}

/// Whether `v` holds no value twice.
pub open spec fn no_duplicates(v: Seq<Seq<char>>) -> bool {
    forall|i: int, j: int| 0 <= i < j < v.len() ==> v[i] != v[j]
}

fn contains_string(v: &Vec<String>, s: &str) -> (r: bool)
    ensures
        r == strings_view(v@).contains(s@),
{
    for i in 0..v.len()
        invariant
            forall|j: int| 0 <= j < i ==> v@[j]@ != s@,
    {
        if str_eq(v[i].as_str(), s) {
            assert(strings_view(v@)[i as int] == s@);
            return true;
        }
    }
    proof {
        if strings_view(v@).contains(s@) {
            let k = choose|k: int| 0 <= k < strings_view(v@).len() && strings_view(v@)[k] == s@;
            assert(v@[k]@ == s@);
        }
    }
    false
}

impl LabelCardinalityLimiter {
    /// Every metric holds distinct values, at most the budget.
    pub closed spec fn wf(&self) -> bool {
        forall|k: Seq<char>|
            #![trigger self.seen().contains_key(k)]
            self.seen().contains_key(k) ==> no_duplicates(self.seen()[k]) && self.seen()[k].len()
                <= self.max_cardinality
    }

    /// Per metric key, the accepted label values in the order they came.
    pub closed spec fn seen(&self) -> Map<Seq<char>, Seq<Seq<char>>> {
        seen_of(self.seen)
    }

    pub closed spec fn spec_max_cardinality(&self) -> nat {
        self.max_cardinality as nat
    }

    /// Creates a limiter with the given per-metric cap and nothing tracked.
    pub fn new(max_cardinality: usize) -> (r: Self)
        ensures
            r.wf(),
            r.spec_max_cardinality() == max_cardinality,
            r.seen().dom() == Set::<Seq<char>>::empty(),
    {
        LabelCardinalityLimiter { seen: seen_new(), max_cardinality }
    }

    /// The configured max cardinality.
    pub fn max_cardinality(&self) -> (r: usize)
        ensures
            r == self.spec_max_cardinality(),
    {
        self.max_cardinality
    }

    fn map_value(&mut self, key: &str, value: &str) -> (accepted: bool)
        requires
            old(self).wf(),
            old(self).spec_max_cardinality() > 0,
        ensures
            final(self).wf(),
            final(self).spec_max_cardinality() == old(self).spec_max_cardinality(),
            (final(self).seen(), if accepted { value@ } else { OTHER_BUCKET@ }) == spec_map_value(
                old(self).seen(),
                old(self).spec_max_cardinality(),
                key@,
                value@,
            ),
    {
        let mut cur: Vec<String> = match seen_get(&self.seen, key) {
            Some(v) => v,
            None => Vec::new(),
        };
        assert(strings_view(cur@) == accepted(self.seen(), key@));
        if contains_string(&cur, value) {
            return true;
        }
        if cur.len() < self.max_cardinality {
            let ghost before = cur@;
            cur.push(value.to_owned());
            assert(strings_view(cur@) == strings_view(before).push(value@));
            seen_insert(&mut self.seen, key.to_owned(), cur);
            return true;
        }
        false
    }

    /// Maps a label value of `metric_name` through the limiter: the value
    /// itself while it is within budget, else [`OTHER_BUCKET`].
    pub fn map_label(&mut self, metric_name: &str, value: &str) -> (r: String)
        requires
            old(self).wf(),
        ensures
            final(self).wf(),
            final(self).spec_max_cardinality() == old(self).spec_max_cardinality(),
            (final(self).seen(), r@) == spec_map_value(
                old(self).seen(),
                old(self).spec_max_cardinality(),
                metric_name@,
                value@,
            ),
    {
        if self.max_cardinality == 0 {
            return OTHER_BUCKET.to_owned();
        }
        if self.map_value(metric_name, value) {
            value.to_owned()
        } else {
            OTHER_BUCKET.to_owned()
        }
    }

    /// Maps a composite label (such as contract and route) through the
    /// limiter. The first parts are deployment-controlled and pass through;
    /// only the last part counts against the budget of `metric_name`, kept
    /// under the key `"{metric_name}:tail"`, and is replaced by
    /// [`OTHER_BUCKET`] beyond it.
    pub fn map_composite_label(&mut self, metric_name: &str, parts: &[&str]) -> (r: Vec<String>)
        requires
            old(self).wf(),
        ensures
            final(self).wf(),
            final(self).spec_max_cardinality() == old(self).spec_max_cardinality(),
            ({
                let views = parts@.map_values(|p: &str| p@);
                let (after, tail) = spec_map_value(
                    old(self).seen(),
                    old(self).spec_max_cardinality(),
                    tail_key(metric_name@),
                    composite_tail(views),
                );
                final(self).seen() == after && strings_view(r@) == with_tail(views, tail)
            }),
    {
        let ghost views = parts@.map_values(|p: &str| p@);
        let mut key = String::new();
        push_str(&mut key, metric_name);
        push_str(&mut key, ":tail");
        assert(key@ == tail_key(metric_name@));
        let tail: &str = if parts.len() == 0 {
            UNKNOWN_TAIL
        } else {
            parts[parts.len() - 1]
        };
        let accepted = if self.max_cardinality == 0 {
            false
        } else {
            self.map_value(key.as_str(), tail)
        };
        let mut out: Vec<String> = Vec::new();
        for i in 0..parts.len()
            invariant
                views == parts@.map_values(|p: &str| p@),
                strings_view(out@) == (if accepted { views } else { with_tail(views, OTHER_BUCKET@) }).take(i as int),
        {
            let ghost before = out@;
            if i + 1 == parts.len() && !accepted {
                out.push(OTHER_BUCKET.to_owned());
            } else {
                out.push(parts[i].to_owned());
            }
            assert(strings_view(out@) == strings_view(before).push(strings_view(out@).last()));
            assert((if accepted { views } else { with_tail(views, OTHER_BUCKET@) }).take(i + 1) == (if accepted { views } else { with_tail(views, OTHER_BUCKET@) }).take(i as int).push(
                (if accepted { views } else { with_tail(views, OTHER_BUCKET@) })[i as int]));
        }
        proof {
            let expected = if accepted { views } else { with_tail(views, OTHER_BUCKET@) };
            assert(expected.take(parts.len() as int) == expected);
            if accepted && parts.len() > 0 {
                assert(with_tail(views, composite_tail(views)) == views);
            }
        }
        out
    }

    /// The number of distinct label values tracked under `metric_name`.
    pub fn tracked_count(&self, metric_name: &str) -> (r: usize)
        ensures
            r == accepted(self.seen(), metric_name@).len(),
    {
        match seen_get(&self.seen, metric_name) {
            Some(v) => {
                assert(strings_view(v@).len() == v@.len());
                v.len()
            },
            None => 0,
        }
    }

    /// Forgets the values tracked under `metric_name`.
    pub fn reset(&mut self, metric_name: &str)
        requires
            old(self).wf(),
        ensures
            final(self).wf(),
            final(self).spec_max_cardinality() == old(self).spec_max_cardinality(),
            final(self).seen() == old(self).seen().remove(metric_name@),
    {
        let ghost before = self.seen();
        seen_remove(&mut self.seen, metric_name);
        assert forall|k: Seq<char>| #![trigger self.seen().contains_key(k)]
            self.seen().contains_key(k) implies no_duplicates(self.seen()[k])
                && self.seen()[k].len() <= self.max_cardinality by {
            assert(before.contains_key(k));
        }
    }

    /// Forgets every tracked value.
    pub fn reset_all(&mut self)
        requires
            old(self).wf(),
        ensures
            final(self).wf(),
            final(self).spec_max_cardinality() == old(self).spec_max_cardinality(),
            final(self).seen().dom() == Set::<Seq<char>>::empty(),
    {
        seen_clear(&mut self.seen);
    }
}

/// The number of values tracked for any metric never exceeds the budget.
pub proof fn lemma_tracked_within_budget(l: &LabelCardinalityLimiter, key: Seq<char>)
    requires
        l.wf(),
    ensures
        accepted(l.seen(), key).len() <= l.spec_max_cardinality(),
{
    if l.seen().contains_key(key) {
        assert(l.seen()[key].len() <= l.max_cardinality);
    }
}

/// A value is reported either as itself or as [`OTHER_BUCKET`].
pub proof fn lemma_label_is_value_or_other(
    seen: Map<Seq<char>, Seq<Seq<char>>>,
    max: nat,
    key: Seq<char>,
    value: Seq<char>,
)
    ensures
        spec_map_value(seen, max, key, value).1 == value || spec_map_value(seen, max, key, value).1
            == OTHER_BUCKET@,
{
}

/// Once a value has passed through, mapping it again passes it through and
/// changes nothing.
pub proof fn lemma_accepted_value_stays_free(
    seen: Map<Seq<char>, Seq<Seq<char>>>,
    max: nat,
    key: Seq<char>,
    value: Seq<char>,
)
    requires
        max > 0,
        spec_map_value(seen, max, key, value).1 == value,
    ensures
        spec_map_value(spec_map_value(seen, max, key, value).0, max, key, value) == spec_map_value(
            seen,
            max,
            key,
            value,
        ),
{
    let cur = accepted(seen, key);
    if !cur.contains(value) && cur.len() < max {
        assert(cur.push(value)[cur.len() as int] == value);
    }
}

/// Mapping a value under one metric leaves the values of every other metric
/// as they were.
pub proof fn lemma_metrics_are_independent(
    seen: Map<Seq<char>, Seq<Seq<char>>>,
    max: nat,
    key: Seq<char>,
    value: Seq<char>,
    other: Seq<char>,
)
    requires
        other != key,
    ensures
        accepted(spec_map_value(seen, max, key, value).0, other) == accepted(seen, other),
{
}

/// With a budget of zero every value is reported as [`OTHER_BUCKET`] and
/// nothing is tracked.
pub proof fn lemma_zero_budget_tracks_nothing(
    seen: Map<Seq<char>, Seq<Seq<char>>>,
    key: Seq<char>,
    value: Seq<char>,
)
    ensures
        spec_map_value(seen, 0, key, value) == (seen, OTHER_BUCKET@),
{
}

} // verus!
