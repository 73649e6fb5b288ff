//! JSON values as the bot reads them, and the lookups it makes in them:
//! `v[key]`, `v[i]`, `as_str`, `as_i64` and `as_array` as serde_json's
//! `Value` defines them, where a missing entry reads as `null`.
use vstd::prelude::*;

use crate::text::owned;

verus! {

/// A JSON value. A number is held as what it reads as an `i64`: `None`
/// when it is not an integer in the range of `i64`. The entries of an
/// object have distinct keys.
pub enum Json {
    Null,
    Bool(bool),
    Number(Option<i64>),
    Str(String),
    Array(Vec<Json>),
    Object(Vec<(String, Json)>),
}

/// The first entry of `entries` under `key`.
pub open spec fn entry(entries: Seq<(String, Json)>, key: Seq<char>) -> Option<Json>
    decreases entries.len(),
{
    if entries.len() == 0 {
        None
    } else if entries[0].0@ == key {
        Some(entries[0].1)
    } else {
        entry(entries.drop_first(), key)
    }
}

/// `v[key]`; `None` stands for `null`, which is also what a missing entry
/// and a lookup in anything but an object read as.
pub open spec fn member(v: Option<Json>, key: Seq<char>) -> Option<Json> {
    match v {
        Some(Json::Object(entries)) => entry(entries@, key),
        _ => None,
    }
}

/// `v[i]`: the `i`-th element of an array, `null` otherwise.
pub open spec fn element(v: Option<Json>, i: int) -> Option<Json> {
    match v {
        Some(Json::Array(items)) => if 0 <= i < items@.len() {
            Some(items@[i])
        } else {
            None
        },
        _ => None,
    }
}

/// `v.as_str()`.
pub open spec fn as_str(v: Option<Json>) -> Option<Seq<char>> {
    match v {
        Some(Json::Str(s)) => Some(s@),
        _ => None,
    }
}

/// `v.as_i64()`.
pub open spec fn as_i64(v: Option<Json>) -> Option<i64> {
    match v {
        Some(Json::Number(n)) => n,
        _ => None,
    }
}

/// `v.as_array()`.
pub open spec fn as_array(v: Option<Json>) -> Option<Seq<Json>> {
    match v {
        Some(Json::Array(items)) => Some(items@),
        _ => None,
    }
}

pub open spec fn deref_opt(v: Option<&Json>) -> Option<Json> {
    match v {
        Some(j) => Some(*j),
        None => None,
    }
}

/// `v[key]`, with `None` for `null`.
pub fn get_member<'a>(v: Option<&'a Json>, key: &str) -> (r: Option<&'a Json>)
    ensures
        deref_opt(r) == member(deref_opt(v), key@),
{
    match v {
        Some(Json::Object(entries)) => {
            let k = owned(key);
            let n = entries.len();
            let mut i: usize = 0;
            assert(entries@.skip(0) =~= entries@);
            while i < n
                invariant
                    n == entries@.len(),
                    i <= n,
                    k@ == key@,
                    member(deref_opt(v), key@) == entry(entries@, key@),
                    entry(entries@, key@) == entry(entries@.skip(i as int), key@),
                decreases n - i,
            {
                assert(entries@.skip(i as int).drop_first() =~= entries@.skip(i + 1));
                assert(entries@.skip(i as int)[0] == entries@[i as int]);
                if entries[i].0.eq(&k) {
                    return Some(&entries[i].1);
                }
                i = i + 1;
            }
            None
        },
        _ => None,
    }
}

/// `v[i]`, with `None` for `null`.
pub fn get_element<'a>(v: Option<&'a Json>, i: usize) -> (r: Option<&'a Json>)
    ensures
        deref_opt(r) == element(deref_opt(v), i as int),
{
    match v {
        Some(Json::Array(items)) => {
            if i < items.len() {
                Some(&items[i])
            } else {
                None
            }
        },
        _ => None,
    }
}

/// `v.as_str()`.
pub fn get_str(v: Option<&Json>) -> (r: Option<&String>)
    ensures
        match r {
            Some(s) => as_str(deref_opt(v)) == Some(s@),
            None => as_str(deref_opt(v)) is None,
        },
{
    match v {
        Some(Json::Str(s)) => Some(s),
        _ => None,
    }
}

/// `v.as_i64()`.
pub fn get_i64(v: Option<&Json>) -> (r: Option<i64>)
    ensures
        r == as_i64(deref_opt(v)),
{
    match v {
        Some(Json::Number(n)) => *n,
        _ => None,
    }
}

/// `v.as_array()`.
pub fn get_array(v: Option<&Json>) -> (r: Option<&Vec<Json>>)
    ensures
        match r {
            Some(items) => as_array(deref_opt(v)) == Some(items@),
            None => as_array(deref_opt(v)) is None,
        },
{
    match v {
        Some(Json::Array(items)) => Some(items),
        _ => None,
    }
}

} // verus!
