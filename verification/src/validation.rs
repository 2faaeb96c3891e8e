//! Input validators for the off-chain services.
//!
//! Every validator answers `Err(ValidationError)` with a fixed, non-sensitive
//! message suitable for an HTTP 422 response.

use vstd::prelude::*;
use crate::error::ValidationError;
use crate::text::chars_of;
use vstd::string::StringSliceAdditionalSpecFns;

verus! {

pub open spec fn is_ascii_alphanumeric(c: char) -> bool {
    ('0' <= c && c <= '9') || ('a' <= c && c <= 'z') || ('A' <= c && c <= 'Z')
}

/// Characters allowed in route and function names.
pub open spec fn is_name_char(c: char) -> bool {
    is_ascii_alphanumeric(c) || c == '_' || c == '-'
}

pub open spec fn all_alphanumeric(s: Seq<char>) -> bool {
    forall|i: int| 0 <= i < s.len() ==> is_ascii_alphanumeric(#[trigger] s[i])
}

pub open spec fn all_name_chars(s: Seq<char>) -> bool {
    forall|i: int| 0 <= i < s.len() ==> is_name_char(#[trigger] s[i])
}

pub const CONTRACT_ID_EMPTY: &'static str = "contract_id must not be empty";
pub const CONTRACT_ID_LENGTH: &'static str = "contract_id must be exactly 56 characters";
pub const CONTRACT_ID_CHARS: &'static str = "contract_id must contain only alphanumeric characters";
pub const ROUTE_NAME_EMPTY: &'static str = "route name must not be empty";
pub const ROUTE_NAME_LENGTH: &'static str = "route name must be 64 characters or fewer";
pub const ROUTE_NAME_CHARS: &'static str = "route name must contain only alphanumeric characters, underscores, or hyphens";
pub const FUNCTION_NAME_EMPTY: &'static str = "function name must not be empty";
pub const FUNCTION_NAME_LENGTH: &'static str = "function name must be 64 characters or fewer";
pub const FUNCTION_NAME_CHARS: &'static str = "function name must contain only alphanumeric characters, underscores, or hyphens";
pub const SCRAPE_INTERVAL_ZERO: &'static str = "scrape_interval_secs must be greater than 0";
pub const SCRAPE_INTERVAL_LARGE: &'static str = "scrape_interval_secs must not exceed 3600";

/// Length of the contract ID in UTF-8 bytes required by Stellar.
pub const CONTRACT_ID_LEN: usize = 56;
/// Longest accepted route or function name, in UTF-8 bytes.
pub const MAX_NAME_LEN: usize = 64;
/// Longest accepted scrape interval, in seconds.
pub const MAX_SCRAPE_INTERVAL_SECS: u64 = 3600;

/// The message a validator answers with, or `None` when it accepts.
pub open spec fn outcome(r: Result<(), ValidationError>) -> Option<Seq<char>> {
    match r {
        Ok(_) => None,
        Err(e) => Some(e.message@),
    }
}

/// Which rule a contract ID breaks first, given its characters and its
/// length in UTF-8 bytes.
pub open spec fn contract_id_error(id: Seq<char>, byte_len: nat) -> Option<Seq<char>> {
    if id.len() == 0 {
        Some(CONTRACT_ID_EMPTY@)
    } else if byte_len != 56 {
        Some(CONTRACT_ID_LENGTH@)
    } else if !all_alphanumeric(id) {
        Some(CONTRACT_ID_CHARS@)
    } else {
        None
    }
}

/// Which rule a route or function name breaks first.
pub open spec fn name_error(
    name: Seq<char>,
    byte_len: nat,
    empty: Seq<char>,
    long: Seq<char>,
    chars: Seq<char>,
) -> Option<Seq<char>> {
    if name.len() == 0 {
        Some(empty)
    } else if byte_len > 64 {
        Some(long)
    } else if !all_name_chars(name) {
        Some(chars)
    } else {
        None
    }
}

/// Which bound a scrape interval breaks.
pub open spec fn scrape_interval_error(secs: int) -> Option<Seq<char>> {
    if secs == 0 {
        Some(SCRAPE_INTERVAL_ZERO@)
    } else if secs > 3600 {
        Some(SCRAPE_INTERVAL_LARGE@)
    } else {
        None
    }
}

fn all_alphanumeric_exec(s: &str) -> (b: bool)
    ensures
        b == all_alphanumeric(s@),
{
    let v = chars_of(s);
    for i in 0..v.len()
        invariant
            v@ == s@,
            all_alphanumeric(v@.take(i as int)),
    {
        let c = v[i];
        if !(('0' <= c && c <= '9') || ('a' <= c && c <= 'z') || ('A' <= c && c <= 'Z')) {
            assert(!is_ascii_alphanumeric(s@[i as int]));
            return false;
        }
        assert(v@.take(i + 1) =~= v@.take(i as int).push(c));
    }
    assert(v@.take(v@.len() as int) == v@);
    true
}

fn all_name_chars_exec(s: &str) -> (b: bool)
    ensures
        b == all_name_chars(s@),
{
    let v = chars_of(s);
    for i in 0..v.len()
        invariant
            v@ == s@,
            all_name_chars(v@.take(i as int)),
    {
        let c = v[i];
        if !(('0' <= c && c <= '9') || ('a' <= c && c <= 'z') || ('A' <= c && c <= 'Z') || c == '_'
            || c == '-') {
            assert(!is_name_char(s@[i as int]));
            return false;
        }
        assert(v@.take(i + 1) =~= v@.take(i as int).push(c));
    }
    assert(v@.take(v@.len() as int) == v@);
    true
}

/// Validates a Stellar contract ID: exactly 56 bytes, all ASCII alphanumeric.
pub fn validate_contract_id(id: &str) -> (r: Result<(), ValidationError>)
    ensures
        outcome(r) == contract_id_error(id@, id.spec_bytes().len()),
        r matches Err(e) ==> e.error@ == crate::error::VALIDATION_ERROR_KIND@,
{
    if id.is_empty() {
        return Err(ValidationError::new(CONTRACT_ID_EMPTY));
    }
    if id.as_bytes().len() != CONTRACT_ID_LEN {
        return Err(ValidationError::new(CONTRACT_ID_LENGTH));
    }
    if !all_alphanumeric_exec(id) {
        return Err(ValidationError::new(CONTRACT_ID_CHARS));
    }
    Ok(())
}

/// Validates a route name: non-empty, at most 64 bytes, and only ASCII
/// alphanumerics, `_` or `-`.
pub fn validate_route_name(name: &str) -> (r: Result<(), ValidationError>)
    ensures
        outcome(r) == name_error(name@, name.spec_bytes().len(), ROUTE_NAME_EMPTY@, ROUTE_NAME_LENGTH@, ROUTE_NAME_CHARS@),
        r matches Err(e) ==> e.error@ == crate::error::VALIDATION_ERROR_KIND@,
{
    if name.is_empty() {
        return Err(ValidationError::new(ROUTE_NAME_EMPTY));
    }
    if name.as_bytes().len() > MAX_NAME_LEN {
        return Err(ValidationError::new(ROUTE_NAME_LENGTH));
    }
    if !all_name_chars_exec(name) {
        return Err(ValidationError::new(ROUTE_NAME_CHARS));
    }
    Ok(())
}

/// Validates a contract function name with the rules of route names.
pub fn validate_function_name(name: &str) -> (r: Result<(), ValidationError>)
    ensures
        outcome(r) == name_error(name@, name.spec_bytes().len(), FUNCTION_NAME_EMPTY@, FUNCTION_NAME_LENGTH@, FUNCTION_NAME_CHARS@),
        r matches Err(e) ==> e.error@ == crate::error::VALIDATION_ERROR_KIND@,
{
    if name.is_empty() {
        return Err(ValidationError::new(FUNCTION_NAME_EMPTY));
    }
    if name.as_bytes().len() > MAX_NAME_LEN {
        return Err(ValidationError::new(FUNCTION_NAME_LENGTH));
    }
    if !all_name_chars_exec(name) {
        return Err(ValidationError::new(FUNCTION_NAME_CHARS));
    }
    Ok(())
}

/// Validates a scrape interval: between 1 and 3600 seconds inclusive.
pub fn validate_scrape_interval(secs: u64) -> (r: Result<(), ValidationError>)
    ensures
        outcome(r) == scrape_interval_error(secs as int),
        r matches Err(e) ==> e.error@ == crate::error::VALIDATION_ERROR_KIND@,
{
    if secs == 0 {
        return Err(ValidationError::new(SCRAPE_INTERVAL_ZERO));
    }
    if secs > MAX_SCRAPE_INTERVAL_SECS {
        return Err(ValidationError::new(SCRAPE_INTERVAL_LARGE));
    }
    Ok(())
}

/// Whether the code of `c` is that of an ASCII digit (48..=57), an ASCII
/// capital (65..=90) or an ASCII small letter (97..=122).
pub open spec fn ascii_letter_or_digit_code(c: char) -> bool {
    let n = c as int;
    (48 <= n && n <= 57) || (65 <= n && n <= 90) || (97 <= n && n <= 122)
}

/// A contract ID of 56 characters is accepted exactly when each of its
/// characters is an ASCII letter or an ASCII digit, digits included; with any
/// other character it is refused for its characters.
pub proof fn lemma_contract_id_accepts_letters_and_digits(id: Seq<char>)
    requires
        id.len() == CONTRACT_ID_LEN,
    ensures
        (forall|i: int| 0 <= i < id.len() ==> ascii_letter_or_digit_code(#[trigger] id[i]))
            ==> contract_id_error(id, CONTRACT_ID_LEN as nat) is None,
        (exists|i: int| 0 <= i < id.len() && !ascii_letter_or_digit_code(#[trigger] id[i]))
            ==> contract_id_error(id, CONTRACT_ID_LEN as nat) == Some(CONTRACT_ID_CHARS@),
{
    assert forall|i: int| 0 <= i < id.len() implies (ascii_letter_or_digit_code(#[trigger] id[i])
        <==> is_ascii_alphanumeric(id[i])) by {
        let c = id[i];
        assert(('0' as int) == 48 && ('9' as int) == 57 && ('A' as int) == 65 && ('Z' as int) == 90
            && ('a' as int) == 97 && ('z' as int) == 122);
    }
}

} // verus!
