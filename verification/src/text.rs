//! Character and string helpers shared by the validators and parsers.

use vstd::prelude::*;

verus! {

/// Copies the characters of `s` into a vector.
pub fn chars_of(s: &str) -> (v: Vec<char>)
    ensures
        v@ == s@,
{
    let mut v: Vec<char> = Vec::new();
    for c in it: s.chars()
        invariant
            v@ == it.seq().take(it.index() as int),
            it.seq() == s@,
    {
        v.push(c);
    }
    v
}

/// Appends one character to a string.
#[verifier::external_body]
pub fn push_char(s: &mut String, c: char)
    ensures
        final(s)@ == old(s)@.push(c),
{
    s.push(c);
}

/// Builds an owned string from a character vector.
pub fn string_from_chars(v: &[char]) -> (s: String)
    ensures
        s@ == v@,
{
    let mut s = String::new();
    for i in 0..v.len()
        invariant
            s@ == v@.take(i as int),
    {
        push_char(&mut s, v[i]);
        assert(v@.take(i + 1) == v@.take(i as int).push(v@[i as int]));
    }
    assert(v@.take(v@.len() as int) == v@);
    s
}

/// Whether two strings hold the same characters.
pub fn str_eq(a: &str, b: &str) -> (r: bool)
    ensures
        r == (a@ == b@),
{
    let x = chars_of(a);
    let y = chars_of(b);
    if x.len() != y.len() {
        return false;
    }
    for i in 0..x.len()
        invariant
            x@ == a@,
            y@ == b@,
            x@.len() == y@.len(),
            forall|j: int| 0 <= j < i ==> x@[j] == y@[j],
    {
        if x[i] != y[i] {
            return false;
        }
    }
    assert(x@ =~= y@);
    true
}

} // verus!

verus! {

/// Unicode `White_Space` characters: the set `char::is_whitespace` accepts.
pub open spec fn is_unicode_whitespace(c: char) -> bool {
    ||| ('\u{9}' <= c && c <= '\u{d}')
    ||| c == ' '
    ||| c == '\u{85}'
    ||| c == '\u{a0}'
    ||| c == '\u{1680}'
    ||| ('\u{2000}' <= c && c <= '\u{200a}')
    ||| c == '\u{2028}'
    ||| c == '\u{2029}'
    ||| c == '\u{202f}'
    ||| c == '\u{205f}'
    ||| c == '\u{3000}'
}

pub fn is_whitespace_char(c: char) -> (b: bool)
    ensures
        b == is_unicode_whitespace(c),
{
    ('\u{9}' <= c && c <= '\u{d}') || c == ' ' || c == '\u{85}' || c == '\u{a0}' || c == '\u{1680}'
        || ('\u{2000}' <= c && c <= '\u{200a}') || c == '\u{2028}' || c == '\u{2029}' || c
        == '\u{202f}' || c == '\u{205f}' || c == '\u{3000}'
}

/// Index of the first non-whitespace character at or after `i`.
pub open spec fn skip_ws_from(s: Seq<char>, i: int) -> int
    decreases s.len() - i,
{
    if 0 <= i < s.len() && is_unicode_whitespace(s[i]) {
        skip_ws_from(s, i + 1)
    } else {
        i
    }
}

/// End of `s[lo..j]` once trailing whitespace is removed.
pub open spec fn back_ws_to(s: Seq<char>, lo: int, j: int) -> int
    decreases j - lo,
{
    if lo < j && j <= s.len() && is_unicode_whitespace(s[j - 1]) {
        back_ws_to(s, lo, j - 1)
    } else {
        j
    }
}

/// `s` without leading and trailing whitespace, as `str::trim` gives it.
pub open spec fn spec_trim(s: Seq<char>) -> Seq<char> {
    let a = skip_ws_from(s, 0);
    s.subrange(a, back_ws_to(s, a, s.len() as int))
}

/// Skipping leading whitespace from `i` stays within `i ..= s.len()`.
pub proof fn lemma_skip_ws_bounds(s: Seq<char>, i: int)
    requires
        0 <= i <= s.len(),
    ensures
        i <= skip_ws_from(s, i) <= s.len(),
    decreases s.len() - i,
{
    if i < s.len() && is_unicode_whitespace(s[i]) {
        lemma_skip_ws_bounds(s, i + 1);
    }
}

/// Backing over trailing whitespace from `j` stays within `lo ..= j`.
pub proof fn lemma_back_ws_bounds(s: Seq<char>, lo: int, j: int)
    requires
        0 <= lo <= j <= s.len(),
    ensures
        lo <= back_ws_to(s, lo, j) <= j,
    decreases j - lo,
{
    if lo < j && is_unicode_whitespace(s[j - 1]) {
        lemma_back_ws_bounds(s, lo, j - 1);
    }
}

/// Returns `(a, b)` with `v[a..b]` the trimmed text.
pub fn trim_bounds(v: &[char]) -> (r: (usize, usize))
    ensures
        r.0 == skip_ws_from(v@, 0),
        r.1 == back_ws_to(v@, r.0 as int, v@.len() as int),
        r.0 <= r.1 <= v@.len(),
        v@.subrange(r.0 as int, r.1 as int) == spec_trim(v@),
{
    let mut a: usize = 0;
    while a < v.len() && is_whitespace_char(v[a])
        invariant
            a <= v@.len(),
            skip_ws_from(v@, a as int) == skip_ws_from(v@, 0),
        decreases v@.len() - a,
    {
        a = a + 1;
    }
    let mut b: usize = v.len();
    while b > a && is_whitespace_char(v[b - 1])
        invariant
            a <= b <= v@.len(),
            a == skip_ws_from(v@, 0),
            back_ws_to(v@, a as int, b as int) == back_ws_to(v@, a as int, v@.len() as int),
        decreases b,
    {
        b = b - 1;
    }
    (a, b)
}

/// `str::trim`, over a character vector.
pub fn trim_chars(v: &[char]) -> (t: Vec<char>)
    ensures
        t@ == spec_trim(v@),
{
    let (a, b) = trim_bounds(v);
    let mut t: Vec<char> = Vec::new();
    for i in a..b
        invariant
            a <= b <= v@.len(),
            t@ == v@.subrange(a as int, i as int),
    {
        t.push(v[i]);
        assert(v@.subrange(a as int, i + 1) == v@.subrange(a as int, i as int).push(v@[i as int]));
    }
    t
}

pub open spec fn is_ascii_digit(c: char) -> bool {
    '0' <= c && c <= '9'
}

pub open spec fn digit_value(c: char) -> int {
    (c as int) - ('0' as int)
}

pub open spec fn all_digits(s: Seq<char>) -> bool {
    forall|i: int| 0 <= i < s.len() ==> is_ascii_digit(#[trigger] s[i])
}

/// Decimal value of a digit string (most significant digit first).
pub open spec fn decimal_value(s: Seq<char>) -> nat
    decreases s.len(),
{
    if s.len() == 0 {
        0
    } else {
        (decimal_value(s.drop_last()) * 10 + digit_value(s.last())) as nat
    }
}

/// What `str::parse` of an unsigned integer type with maximum `max` gives:
/// an optional `+`, then at least one ASCII digit, with the value at most `max`.
pub open spec fn spec_parse_unsigned(s: Seq<char>, max: int) -> Option<int> {
    let digits = if s.len() > 0 && s[0] == '+' {
        s.drop_first()
    } else {
        s
    };
    if digits.len() == 0 || !all_digits(digits) || decimal_value(digits) > max {
        None
    } else {
        Some(decimal_value(digits) as int)
    }
}

/// What `str::parse::<i64>` gives: an optional sign, then at least one ASCII
/// digit, with the value inside the range of `i64`.
pub open spec fn spec_parse_i64(s: Seq<char>) -> Option<int> {
    if s.len() > 0 && s[0] == '-' {
        let digits = s.drop_first();
        if digits.len() == 0 || !all_digits(digits) || decimal_value(digits) > 0x8000_0000_0000_0000 {
            None
        } else {
            Some(-(decimal_value(digits) as int))
        }
    } else {
        spec_parse_unsigned(s, i64::MAX as int)
    }
}

/// The value of a run of digits is at least the value of any prefix of it.
pub proof fn lemma_decimal_value_prefix_grows(s: Seq<char>, j: int)
    requires
        0 <= j <= s.len(),
        all_digits(s),
    ensures
        decimal_value(s.take(j)) <= decimal_value(s),
    decreases s.len() - j,
{
    if j < s.len() {
        lemma_decimal_value_prefix_grows(s, j + 1);
        let t = s.take(j + 1);
        assert(t.drop_last() == s.take(j));
        assert(is_ascii_digit(s[j]));
    } else {
        assert(s.take(j) == s);
    }
}

/// Parses the digit string `d[start..]`, failing once the value exceeds `max`.
fn parse_digits(d: &[char], start: usize, max: u64) -> (r: Option<u64>)
    requires
        start <= d@.len(),
    ensures
        ({
            let digits = d@.skip(start as int);
            match r {
                Some(n) => digits.len() > 0 && all_digits(digits) && n == decimal_value(digits)
                    && n <= max,
                None => digits.len() == 0 || !all_digits(digits) || decimal_value(digits) > max,
            }
        }),
{
    let ghost digits = d@.skip(start as int);
    if start == d.len() {
        return None;
    }
    let mut acc: u64 = 0;
    let mut i: usize = start;
    while i < d.len()
        invariant
            start <= i <= d@.len(),
            digits == d@.skip(start as int),
            all_digits(digits.take(i - start)),
            acc == decimal_value(digits.take(i - start)),
            acc <= max,
        decreases d@.len() - i,
    {
        let c = d[i];
        let ghost k = i - start;
        assert(digits[k as int] == c);
        if !('0' <= c && c <= '9') {
            assert(!all_digits(digits));
            return None;
        }
        assert(digits.take(k + 1).drop_last() == digits.take(k as int));
        assert(digits.take(k + 1).last() == c);
        let dv: u64 = (c as u64) - ('0' as u64);
        assert(all_digits(digits.take(k + 1))) by {
            assert forall|j: int| 0 <= j < k + 1 implies is_ascii_digit(#[trigger] digits.take(k + 1)[j]) by {
                if j < k {
                    assert(digits.take(k + 1)[j] == digits.take(k as int)[j]);
                }
            }
        }
        if dv > max || acc > (max - dv) / 10 {
            assert(decimal_value(digits.take(k + 1)) > max) by (nonlinear_arith)
                requires
                    decimal_value(digits.take(k + 1)) == acc * 10 + dv,
                    dv > max || acc > (max - dv) / 10,
                    acc >= 0,
            ;
            proof {
                if all_digits(digits) {
                    lemma_decimal_value_prefix_grows(digits, k + 1);
                }
            }
            return None;
        }
        assert(acc * 10 + dv <= max) by (nonlinear_arith)
            requires
                dv <= max,
                acc <= (max - dv) / 10,
        ;
        acc = acc * 10 + dv;
        i = i + 1;
    }
    assert(digits.take(i - start) == digits);
    Some(acc)
}


} // verus!

verus! {

/// `str::parse` for an unsigned integer type whose largest value is `max`.
pub fn parse_unsigned(s: &[char], max: u64) -> (r: Option<u64>)
    ensures
        match r {
            Some(n) => spec_parse_unsigned(s@, max as int) == Some(n as int),
            None => spec_parse_unsigned(s@, max as int) is None,
        },
{
    let start: usize = if s.len() > 0 && s[0] == '+' {
        1
    } else {
        0
    };
    assert(start == 1 ==> s@.skip(1) == s@.drop_first());
    assert(start == 0 ==> s@.skip(0) == s@);
    parse_digits(s, start, max)
}

/// `str::parse::<i64>`.
pub fn parse_i64(s: &[char]) -> (r: Option<i64>)
    ensures
        match r {
            Some(n) => spec_parse_i64(s@) == Some(n as int),
            None => spec_parse_i64(s@) is None,
        },
{
    if s.len() > 0 && s[0] == '-' {
        assert(s@.skip(1) == s@.drop_first());
        match parse_digits(s, 1, 0x8000_0000_0000_0000u64) {
            Some(m) => {
                if m == 0x8000_0000_0000_0000u64 {
                    Some(i64::MIN)
                } else {
                    Some(-(m as i64))
                }
            },
            None => None,
        }
    } else {
        match parse_unsigned(s, i64::MAX as u64) {
            Some(n) => Some(n as i64),
            None => None,
        }
    }
}

pub open spec fn digit_char(d: nat) -> char
    recommends
        d < 10,
{
    (('0' as nat) + d) as char
}

/// Decimal digits of `n`, most significant first, with no leading zeros.
pub open spec fn spec_decimal(n: nat) -> Seq<char>
    decreases n,
{
    if n < 10 {
        seq![digit_char(n)]
    } else {
        spec_decimal(n / 10).push(digit_char(n % 10))
    }
}

/// `s` padded on the left with `'0'` to at least `width` characters,
/// as the `{:0width}` format gives it.
pub open spec fn spec_zero_pad(s: Seq<char>, width: nat) -> Seq<char> {
    if s.len() >= width {
        s
    } else {
        Seq::new((width - s.len()) as nat, |i: int| '0') + s
    }
}

/// Decimal representation of `n` (the `{}` format of an unsigned integer).
pub fn decimal_chars(n: u64) -> (v: Vec<char>)
    ensures
        v@ == spec_decimal(n as nat),
    decreases n,
{
    if n < 10 {
        let c = ((('0' as u8) + (n as u8)) as char);
        let mut v = Vec::new();
        v.push(c);
        assert(v@ == seq![digit_char(n as nat)]);
        v
    } else {
        let mut v = decimal_chars(n / 10);
        let d = n % 10;
        let c = ((('0' as u8) + (d as u8)) as char);
        v.push(c);
        v
    }
}

/// Decimal representation of `n`, left-padded with zeros to `width`.
pub fn zero_padded(n: u64, width: usize) -> (v: Vec<char>)
    ensures
        v@ == spec_zero_pad(spec_decimal(n as nat), width as nat),
{
    let digits = decimal_chars(n);
    if digits.len() >= width {
        return digits;
    }
    let mut v: Vec<char> = Vec::new();
    let pad = width - digits.len();
    for i in 0..pad
        invariant
            pad == width - digits@.len(),
            v@ == Seq::new(i as nat, |j: int| '0'),
    {
        v.push('0');
        assert(v@ == Seq::new((i + 1) as nat, |j: int| '0'));
    }
    for i in 0..digits.len()
        invariant
            v@ == Seq::new(pad as nat, |j: int| '0') + digits@.take(i as int),
    {
        v.push(digits[i]);
        assert(digits@.take(i + 1) == digits@.take(i as int).push(digits@[i as int]));
    }
    assert(digits@.take(digits@.len() as int) == digits@);
    v
}

/// Appends the characters of `v` to `out`.
pub fn push_chars(out: &mut String, v: &[char])
    ensures
        final(out)@ == old(out)@ + v@,
{
    let ghost start = out@;
    for i in 0..v.len()
        invariant
            out@ == start + v@.take(i as int),
    {
        push_char(out, v[i]);
        assert(v@.take(i + 1) == v@.take(i as int).push(v@[i as int]));
    }
    assert(v@.take(v@.len() as int) == v@);
}

/// Appends `s` to `out`.
pub fn push_str(out: &mut String, s: &str)
    ensures
        final(out)@ == old(out)@ + s@,
{
    let v = chars_of(s);
    push_chars(out, &v);
}


/// A number setting parsed as the type with maximum `max`, else `default`.
pub open spec fn spec_number_or(value: Option<Seq<char>>, max: int, default: int) -> int {
    match value {
        Some(v) => match spec_parse_unsigned(v, max) {
            Some(n) => n,
            None => default,
        },
        None => default,
    }
}

pub fn number_or(value: Option<&str>, max: u64, default: u64) -> (r: u64)
    requires
        default <= max,
    ensures
        r == spec_number_or(opt_str_view(value), max as int, default as int),
        r <= max,
{
    match value {
        Some(v) => {
            let c = chars_of(v);
            match parse_unsigned(&c, max) {
                Some(n) => n,
                None => default,
            }
        },
        None => default,
    }
}

/// The characters of an optional string.
pub open spec fn opt_view(v: Option<String>) -> Option<Seq<char>> {
    match v {
        Some(s) => Some(s@),
        None => None,
    }
}

/// The characters of an optional string slice.
pub open spec fn opt_str_view(v: Option<&str>) -> Option<Seq<char>> {
    match v {
        Some(s) => Some(s@),
        None => None,
    }
}

} // verus!
