//! API-key authentication: configuration, key extraction and the decision
//! taken for each request.
//!
//! Keys are read from `Authorization: Bearer <key>` first, then from
//! `X-API-Key: <key>`, and compared in constant time.

use vstd::prelude::*;
use subtle::ConstantTimeEq;
use crate::text::{chars_of, string_from_chars};
use vstd::string::StringSliceAdditionalSpecFns;

verus! {

broadcast use vstd::utf8::encode_utf8_decode_utf8;

/// Authentication configuration.
#[derive(Clone, Debug)]
pub struct AuthConfig {
    /// API key for authentication; `None` means no key is configured.
    pub api_key: Option<String>,
    /// Whether authentication is enforced.
    pub enabled: bool,
}

/// A configuration that the services refuse to start with.
#[derive(Clone, Debug)]
pub struct ConfigError {
    pub message: String,
}

pub const AUTH_KEY_MISSING: &'static str = "ROUTER_AUTH_ENABLED=true but ROUTER_API_KEY is not set. Set ROUTER_API_KEY to a secret value or disable auth by setting ROUTER_AUTH_ENABLED=false.";

pub open spec fn ascii_lower(c: char) -> char {
    if 'A' <= c && c <= 'Z' {
        ((c as int) + 32) as char
    } else {
        c
    }
}

/// Whether the lower-cased text equals `"true"`. Only `t`, `r`, `u` and `e`
/// in either case lower-case to those letters, so this is the whole test.
pub open spec fn is_true_flag(s: Seq<char>) -> bool {
    s.len() == 4 && ascii_lower(s[0]) == 't' && ascii_lower(s[1]) == 'r' && ascii_lower(s[2])
        == 'u' && ascii_lower(s[3]) == 'e'
}

/// Reads a boolean switch the way the services do: `true` in any case turns
/// it on, anything else (or an absent variable) leaves it off.
pub fn flag_is_true(value: Option<&str>) -> (b: bool)
    ensures
        b == (value matches Some(v) && is_true_flag(v@)),
{
    match value {
        None => false,
        Some(v) => {
            let c = chars_of(v);
            c.len() == 4 && (c[0] == 't' || c[0] == 'T') && (c[1] == 'r' || c[1] == 'R') && (c[2]
                == 'u' || c[2] == 'U') && (c[3] == 'e' || c[3] == 'E')
        },
    }
}

impl AuthConfig {
    /// Builds the configuration from the values of `ROUTER_AUTH_ENABLED` and
    /// `ROUTER_API_KEY` (`None` for an unset variable).
    ///
    /// Fails when authentication is switched on but no key is given: the
    /// services refuse to start rather than run unauthenticated.
    pub fn from_env(enabled_var: Option<&str>, api_key_var: Option<String>) -> (r: Result<
        AuthConfig,
        ConfigError,
    >)
        ensures
            match r {
                Ok(c) => c.api_key == api_key_var && c.enabled == (enabled_var matches Some(v)
                    && is_true_flag(v@) && api_key_var is Some) && !((enabled_var matches Some(v)
                    && is_true_flag(v@)) && api_key_var is None),
                Err(e) => (enabled_var matches Some(v) && is_true_flag(v@)) && api_key_var is None
                    && e.message@ == AUTH_KEY_MISSING@,
            },
    {
        let enabled = flag_is_true(enabled_var);
        if enabled && api_key_var.is_none() {
            return Err(ConfigError { message: AUTH_KEY_MISSING.to_owned() });
        }
        let has_key = api_key_var.is_some();
        Ok(AuthConfig { enabled: enabled && has_key, api_key: api_key_var })
    }
}

/// Authentication failures.
#[derive(Debug, Clone, Copy, PartialEq, Eq)]
pub enum AuthError {
    /// No API key was included in the request.
    MissingKey,
    /// An API key was included but it did not match the configured one.
    InvalidKey,
    /// Authentication is on but no key is configured.
    Unauthorized,
}

impl AuthError {
    /// HTTP status and body text each failure is answered with.
    pub fn status_and_message(&self) -> (r: (u16, &'static str))
        ensures
            r.0 == match self {
                AuthError::MissingKey => 401u16,
                AuthError::InvalidKey => 401u16,
                AuthError::Unauthorized => 403u16,
            },
            r.1@ == match self {
                AuthError::MissingKey => "Missing API key"@,
                AuthError::InvalidKey => "Invalid API key"@,
                AuthError::Unauthorized => "Unauthorized"@,
            },
    {
        match self {
            AuthError::MissingKey => (401, "Missing API key"),
            AuthError::InvalidKey => (401, "Invalid API key"),
            AuthError::Unauthorized => (403, "Unauthorized"),
        }
    }
}

/// `subtle`'s constant-time comparison of two byte slices.
///
/// `<[u8] as ConstantTimeEq>::ct_eq` answers a `Choice` of 1 exactly when the
/// slices have the same length and the same bytes; `bool::from` maps it to
/// `true`. The contract claims that, and nothing of its timing.
#[verifier::external_body]
fn ct_bytes_equal(a: &[u8], b: &[u8]) -> (r: bool)
    ensures
        r == (a@ == b@),
{
    a.ct_eq(b).into()
}

/// Compares a supplied API key with the expected one in constant time.
pub fn api_keys_equal(supplied: &str, expected: &str) -> (b: bool)
    ensures
        b == (supplied@ == expected@),
{
    let r = ct_bytes_equal(supplied.as_bytes(), expected.as_bytes());
    proof {
        assert(vstd::utf8::decode_utf8(supplied.spec_bytes()) == supplied@);
        assert(vstd::utf8::decode_utf8(expected.spec_bytes()) == expected@);
    }
    r
}

pub open spec fn bearer_prefix() -> Seq<char> {
    seq!['B', 'e', 'a', 'r', 'e', 'r', ' ']
}

/// The key a request presents: the text after `Bearer ` in the
/// `Authorization` header, else the `X-API-Key` header. A header that is
/// absent or not visible ASCII text is passed as `None`.
pub open spec fn spec_extract_api_key(authorization: Option<Seq<char>>, x_api_key: Option<Seq<char>>) -> Option<Seq<char>> {
    match authorization {
        Some(a) if a.len() >= 7 && a.take(7) == bearer_prefix() => Some(a.skip(7)),
        _ => x_api_key,
    }
}

/// Extracts the API key from the `Authorization` and `X-API-Key` header
/// values.
pub fn extract_api_key(authorization: Option<&str>, x_api_key: Option<&str>) -> (r: Option<String>)
    ensures
        match r {
            Some(k) => spec_extract_api_key(
                match authorization {
                    Some(a) => Some(a@),
                    None => None,
                },
                match x_api_key {
                    Some(x) => Some(x@),
                    None => None,
                },
            ) == Some(k@),
            None => spec_extract_api_key(
                match authorization {
                    Some(a) => Some(a@),
                    None => None,
                },
                match x_api_key {
                    Some(x) => Some(x@),
                    None => None,
                },
            ) is None,
        },
{
    if let Some(a) = authorization {
        let c = chars_of(a);
        if c.len() >= 7 && c[0] == 'B' && c[1] == 'e' && c[2] == 'a' && c[3] == 'r' && c[4] == 'e'
            && c[5] == 'r' && c[6] == ' ' {
            assert(c@.take(7) =~= bearer_prefix());
            let mut rest: Vec<char> = Vec::new();
            let mut i: usize = 7;
            while i < c.len()
                invariant
                    7 <= i <= c@.len(),
                    rest@ == c@.subrange(7, i as int),
                decreases c@.len() - i,
            {
                rest.push(c[i]);
                assert(c@.subrange(7, i + 1) == c@.subrange(7, i as int).push(c@[i as int]));
                i = i + 1;
            }
            assert(rest@ == c@.skip(7));
            return Some(string_from_chars(&rest));
        }
        assert(!(c@.len() >= 7 && c@.take(7) == bearer_prefix())) by {
            if c@.len() >= 7 && c@.take(7) == bearer_prefix() {
                assert(c@.take(7)[0] == 'B');
                assert(c@.take(7)[1] == 'e');
                assert(c@.take(7)[2] == 'a');
                assert(c@.take(7)[3] == 'r');
                assert(c@.take(7)[4] == 'e');
                assert(c@.take(7)[5] == 'r');
                assert(c@.take(7)[6] == ' ');
            }
        }
    }
    match x_api_key {
        Some(x) => Some(x.to_owned()),
        None => None,
    }
}

/// The decision taken for a request, given the key it presented.
pub open spec fn spec_authorize(config: AuthConfig, supplied: Option<Seq<char>>) -> Result<(), AuthError> {
    if !config.enabled {
        Ok(())
    } else {
        match supplied {
            None => Err(AuthError::MissingKey),
            Some(k) => match config.api_key {
                Some(e) => if k == e@ {
                    Ok(())
                } else {
                    Err(AuthError::InvalidKey)
                },
                None => Err(AuthError::Unauthorized),
            },
        }
    }
}

/// Decides whether a request passes authentication: every request passes
/// when authentication is off; otherwise the presented key must equal the
/// configured one.
pub fn authorize(config: &AuthConfig, supplied: Option<&str>) -> (r: Result<(), AuthError>)
    ensures
        r == spec_authorize(
            *config,
            match supplied {
                Some(s) => Some(s@),
                None => None,
            },
        ),
{
    if !config.enabled {
        return Ok(());
    }
    match supplied {
        None => Err(AuthError::MissingKey),
        Some(key) => match &config.api_key {
            Some(expected) => {
                if api_keys_equal(key, expected.as_str()) {
                    Ok(())
                } else {
                    Err(AuthError::InvalidKey)
                }
            },
            None => Err(AuthError::Unauthorized),
        },
    }
}

/// What authentication answers a request, from its `Authorization` and
/// `X-API-Key` headers: with authentication off every request passes; with a
/// configured key `k`, a request presenting no key (neither `Bearer <key>` nor
/// `X-API-Key`) is refused as missing, one whose key (the bearer token first)
/// equals `k` passes, and any other is refused as invalid.
pub proof fn lemma_request_authentication(
    config: AuthConfig,
    authorization: Option<Seq<char>>,
    x_api_key: Option<Seq<char>>,
)
    ensures
        !config.enabled ==> spec_authorize(config, spec_extract_api_key(authorization, x_api_key)) == Ok::<(), AuthError>(()),
        config.enabled && config.api_key is Some ==> spec_authorize(config, spec_extract_api_key(authorization, x_api_key))
            == match spec_extract_api_key(authorization, x_api_key) {
            None => Err::<(), AuthError>(AuthError::MissingKey),
            Some(key) => if key == config.api_key.unwrap()@ {
                Ok(())
            } else {
                Err(AuthError::InvalidKey)
            },
        },
        (authorization matches Some(a) && a.len() >= 7 && a.take(7) == bearer_prefix())
            ==> spec_extract_api_key(authorization, x_api_key) == Some(authorization.unwrap().skip(7)),
{
}

} // verus!
