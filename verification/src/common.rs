//! Helpers shared by the router contracts.

use vstd::prelude::*;
use crate::text::chars_of;

verus! {

/// The ASCII whitespace bytes: tab, line feed, vertical tab, form feed,
/// carriage return and space.
pub open spec fn is_ascii_whitespace_char(c: char) -> bool {
    c == '\t' || c == '\n' || c == '\u{b}' || c == '\u{c}' || c == '\r' || c == ' '
}

/// Returns `true` if `s` is empty or consists only of ASCII whitespace.
///
/// A non-ASCII character is encoded with bytes at or above `0x80`, none of
/// them whitespace, so testing the characters gives the same answer as
/// testing the bytes.
pub fn is_whitespace_only(s: &str) -> (b: bool)
    ensures
        b == forall|i: int| 0 <= i < s@.len() ==> is_ascii_whitespace_char(#[trigger] s@[i]),
{
    let v = chars_of(s);
    for i in 0..v.len()
        invariant
            v@ == s@,
            forall|j: int| 0 <= j < i ==> is_ascii_whitespace_char(#[trigger] s@[j]),
    {
        let c = v[i];
        if !(c == '\t' || c == '\n' || c == '\u{b}' || c == '\u{c}' || c == '\r' || c == ' ') {
            return false;
        }
    }
    true
}

} // verus!
