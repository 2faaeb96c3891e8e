//! JSON documents as the services read them: the answers of the Soroban RPC
//! server and the payloads of the Horizon event stream.
//!
//! The accessors follow the JSON value model of the services: an object is
//! looked up by key, an array by position, and a number is read as an
//! unsigned integer only when it is a non-negative integer.

use vstd::prelude::*;
use crate::text::str_eq;

verus! {

/// A JSON number.
#[derive(Debug, Clone)]
pub enum JsonNumber {
    /// A non-negative integer.
    PosInt(u64),
    /// A negative integer.
    NegInt(i64),
    /// Any other number, as its decimal text.
    Float(String),
}

/// A JSON value.
#[derive(Debug)]
pub enum Json {
    Null,
    Bool(bool),
    Number(JsonNumber),
    Str(String),
    Array(Vec<Json>),
    /// The members of an object, each key once: the `i`-th key names the
    /// `i`-th value.
    Object(Vec<String>, Vec<Json>),
}

/// The value of the first member named `key`, from position `i` on.
pub open spec fn member_from(keys: Seq<String>, values: Seq<Json>, key: Seq<char>, i: int) -> Option<Json>
    decreases keys.len() - i,
{
    if i < 0 || i >= keys.len() || i >= values.len() {
        None
    } else if keys[i]@ == key {
        Some(values[i])
    } else {
        member_from(keys, values, key, i + 1)
    }
}

/// `value.get(key)`: the member `key` of an object; nothing for any other
/// value.
pub open spec fn spec_get(value: Json, key: Seq<char>) -> Option<Json> {
    match value {
        Json::Object(keys, values) => member_from(keys@, values@, key, 0),
        _ => None,
    }
}

/// `value.get(index)`: the element at `index` of an array; nothing for any
/// other value.
pub open spec fn spec_at(value: Json, index: int) -> Option<Json> {
    match value {
        Json::Array(items) => if 0 <= index < items@.len() {
            Some(items@[index])
        } else {
            None
        },
        _ => None,
    }
}

/// `value.as_u64()`: a non-negative integer.
pub open spec fn spec_as_u64(value: Json) -> Option<u64> {
    match value {
        Json::Number(JsonNumber::PosInt(n)) => Some(n),
        _ => None,
    }
}

/// `value.as_bool()`.
pub open spec fn spec_as_bool(value: Json) -> Option<bool> {
    match value {
        Json::Bool(b) => Some(b),
        _ => None,
    }
}

/// `value.as_str()`, as characters.
pub open spec fn spec_as_str(value: Json) -> Option<Seq<char>> {
    match value {
        Json::Str(s) => Some(s@),
        _ => None,
    }
}

impl Json {
    /// The member `key` of an object.
    pub fn get(&self, key: &str) -> (r: Option<&Json>)
        ensures
            r matches Some(v) ==> spec_get(*self, key@) == Some(*v),
            r is None ==> spec_get(*self, key@) is None,
    {
        match self {
            Json::Object(keys, values) => {
                let n = if keys.len() < values.len() {
                    keys.len()
                } else {
                    values.len()
                };
                for i in 0..n
                    invariant
                        n <= keys@.len(),
                        n <= values@.len(),
                        n == keys@.len() || n == values@.len(),
                        spec_get(*self, key@) == member_from(keys@, values@, key@, i as int),
                {
                    if str_eq(keys[i].as_str(), key) {
                        assert(member_from(keys@, values@, key@, i as int) == Some(values@[i as int]));
                        return Some(&values[i]);
                    }
                }
                None
            },
            _ => None,
        }
    }

    /// The element at `index` of an array.
    pub fn at(&self, index: usize) -> (r: Option<&Json>)
        ensures
            r matches Some(v) ==> spec_at(*self, index as int) == Some(*v),
            r is None ==> spec_at(*self, index as int) is None,
    {
        match self {
            Json::Array(items) => if index < items.len() {
                Some(&items[index])
            } else {
                None
            },
            _ => None,
        }
    }

    /// The value as a non-negative integer.
    pub fn as_u64(&self) -> (r: Option<u64>)
        ensures
            r == spec_as_u64(*self),
    {
        match self {
            Json::Number(JsonNumber::PosInt(n)) => Some(*n),
            _ => None,
        }
    }

    /// The value as a boolean.
    pub fn as_bool(&self) -> (r: Option<bool>)
        ensures
            r == spec_as_bool(*self),
    {
        match self {
            Json::Bool(b) => Some(*b),
            _ => None,
        }
    }

    /// The value as a string.
    pub fn as_str(&self) -> (r: Option<&str>)
        ensures
            r matches Some(s) ==> spec_as_str(*self) == Some(s@),
            r is None ==> spec_as_str(*self) is None,
    {
        match self {
            Json::Str(s) => Some(s.as_str()),
            _ => None,
        }
    }

    /// The elements of an array.
    pub fn as_array(&self) -> (r: Option<&Vec<Json>>)
        ensures
            r matches Some(items) ==> *self == Json::Array(*items),
            r is None ==> !(*self is Array),
    {
        match self {
            Json::Array(items) => Some(items),
            _ => None,
        }
    }
}

} // verus!
