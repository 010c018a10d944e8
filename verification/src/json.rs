//! A JSON document as plain values, with the lookups the services' replies
//! need (`value["key"]`, `value[i]`, `as_i64`, `as_str`, `as_bool`,
//! `as_array`), following `serde_json::Value` indexing: a missing key, an
//! index out of range or a lookup on the wrong kind of value gives `Null`.

use vstd::prelude::*;
use crate::text::{owned, str_eq};

verus! {

broadcast use vstd::string::group_string_axioms;

/// A JSON value. Numbers keep what `serde_json::Number::as_i64` gives:
/// `Some` for integers that fit in `i64`, `None` for every other number.
#[derive(Debug)]
pub enum Json {
    Null,
    Bool(bool),
    Number(Option<i64>),
    Str(String),
    Array(Vec<Json>),
    Object(Vec<(String, Json)>),
}

/// The value stored under `key` among `entries` (first match), or `Null`.
pub open spec fn lookup(entries: Seq<(String, Json)>, key: Seq<char>) -> Json
    decreases entries.len(),
{
    if entries.len() == 0 {
        Json::Null
    } else if entries[0].0@ == key {
        entries[0].1
    } else {
        lookup(entries.drop_first(), key)
    }
}

/// `value[key]`.
pub open spec fn get(j: Json, key: Seq<char>) -> Json {
    match j {
        Json::Object(entries) => lookup(entries@, key),
        _ => Json::Null,
    }
}

/// `value[i]`.
pub open spec fn at(j: Json, i: int) -> Json {
    match j {
        Json::Array(items) => if 0 <= i < items@.len() {
            items@[i]
        } else {
            Json::Null
        },
        _ => Json::Null,
    }
}

/// `value.as_i64()`.
pub open spec fn as_i64(j: Json) -> Option<i64> {
    match j {
        Json::Number(n) => n,
        _ => None,
    }
}

/// `value.as_str()`.
pub open spec fn as_str(j: Json) -> Option<Seq<char>> {
    match j {
        Json::Str(s) => Some(s@),
        _ => None,
    }
}

/// `value.as_bool()`.
pub open spec fn as_bool(j: Json) -> Option<bool> {
    match j {
        Json::Bool(b) => Some(b),
        _ => None,
    }
}

/// `value.as_array()`, as the sequence of items.
pub open spec fn as_array(j: Json) -> Option<Seq<Json>> {
    match j {
        Json::Array(items) => Some(items@),
        _ => None,
    }
}

/// `value.as_i64().unwrap_or(d)`.
pub open spec fn i64_or(j: Json, d: i64) -> i64 {
    match as_i64(j) {
        Some(n) => n,
        None => d,
    }
}

/// `value.as_str().unwrap_or(d)`.
pub open spec fn str_or(j: Json, d: Seq<char>) -> Seq<char> {
    match as_str(j) {
        Some(s) => s,
        None => d,
    }
}

/// `value.as_bool().unwrap_or(d)`.
pub open spec fn bool_or(j: Json, d: bool) -> bool {
    match as_bool(j) {
        Some(b) => b,
        None => d,
    }
}

/// `value[key]`.
pub fn get_exec<'a>(j: &'a Json, key: &str) -> (r: &'a Json)
    ensures
        *r == get(*j, key@),
{
    match j {
        Json::Object(entries) => {
            let mut k: usize = 0;
            assert(entries@.skip(0) =~= entries@);
            while k < entries.len()
                invariant
                    k <= entries@.len(),
                    get(*j, key@) == lookup(entries@, key@),
                    lookup(entries@, key@) == lookup(entries@.skip(k as int), key@),
                decreases entries@.len() - k,
            {
                assert(entries@.skip(k as int).drop_first() =~= entries@.skip(k + 1));
                assert(entries@.skip(k as int)[0] == entries@[k as int]);
                if str_eq(entries[k].0.as_str(), key) {
                    return &entries[k].1;
                }
                k += 1;
            }
            &Json::Null
        },
        _ => &Json::Null,
    }
}

/// `value[i]`.
pub fn at_exec<'a>(j: &'a Json, i: usize) -> (r: &'a Json)
    ensures
        *r == at(*j, i as int),
{
    match j {
        Json::Array(items) => if i < items.len() {
            &items[i]
        } else {
            &Json::Null
        },
        _ => &Json::Null,
    }
}

/// `value.as_i64().unwrap_or(d)`.
pub fn i64_or_exec(j: &Json, d: i64) -> (r: i64)
    ensures
        r == i64_or(*j, d),
{
    match j {
        Json::Number(Some(n)) => *n,
        _ => d,
    }
}

/// `value.as_bool().unwrap_or(d)`.
pub fn bool_or_exec(j: &Json, d: bool) -> (r: bool)
    ensures
        r == bool_or(*j, d),
{
    match j {
        Json::Bool(b) => *b,
        _ => d,
    }
}

/// `value.as_str().unwrap_or(d)`, as an owned string.
pub fn str_or_exec(j: &Json, d: &str) -> (r: String)
    ensures
        r@ == str_or(*j, d@),
{
    match j {
        Json::Str(s) => s.clone(),
        _ => owned(d),
    }
}

/// `value.as_array()`.
pub fn as_array_exec(j: &Json) -> (r: Option<&Vec<Json>>)
    ensures
        r matches Some(v) ==> as_array(*j) == Some(v@),
        r is None ==> as_array(*j) is None,
{
    match j {
        Json::Array(items) => Some(items),
        _ => None,
    }
}

} // verus!
