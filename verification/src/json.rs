//! A JSON document as plain data, and the lookups the message parsers make on it.
use vstd::prelude::*;
use crate::text::str_eq;

verus! {

/// A JSON value. A number keeps what `as_i64` and `as_u64` give for it (both `None` for a
/// fraction); an object keeps its members in document order.
#[derive(Debug, PartialEq)]
pub enum JsonValue {
    Null,
    Bool(bool),
    Number(Option<i64>, Option<u64>),
    Str(String),
    Array(Vec<JsonValue>),
    Object(Vec<(String, JsonValue)>),
}

/// The value of the first member named `key`.
pub open spec fn member(es: Seq<(String, JsonValue)>, key: Seq<char>) -> Option<JsonValue>
    decreases es.len(),
{
    if es.len() == 0 {
        None
    } else if es[0].0@ == key {
        Some(es[0].1)
    } else {
        member(es.drop_first(), key)
    }
}

/// The member `key` of an object; nothing for other values.
pub open spec fn jget(v: Option<JsonValue>, key: Seq<char>) -> Option<JsonValue> {
    match v {
        Some(JsonValue::Object(es)) => member(es@, key),
        _ => None,
    }
}

/// The text of a string value.
pub open spec fn jstr(v: Option<JsonValue>) -> Option<Seq<char>> {
    match v {
        Some(JsonValue::Str(s)) => Some(s@),
        _ => None,
    }
}

/// The text of a non-empty string value.
pub open spec fn jstr_nonempty(v: Option<JsonValue>) -> Option<Seq<char>> {
    match jstr(v) {
        Some(s) => if s.len() > 0 {
            Some(s)
        } else {
            None
        },
        None => None,
    }
}

/// A number as `i64`, where it is one.
pub open spec fn ji64(v: Option<JsonValue>) -> Option<i64> {
    match v {
        Some(JsonValue::Number(i, _)) => i,
        _ => None,
    }
}

/// A number as `u64`, where it is one.
pub open spec fn ju64(v: Option<JsonValue>) -> Option<u64> {
    match v {
        Some(JsonValue::Number(_, u)) => u,
        _ => None,
    }
}

/// The view of an optional borrowed value.
pub open spec fn oref(v: Option<&JsonValue>) -> Option<JsonValue> {
    match v {
        Some(y) => Some(*y),
        None => None,
    }
}

/// The member `key` of `v`, where `v` is an object that has one.
pub fn get<'a>(v: Option<&'a JsonValue>, key: &str) -> (r: Option<&'a JsonValue>)
    ensures
        match r {
            Some(x) => jget(oref(v), key@) == Some(*x),
            None => jget(oref(v), key@) is None,
        },
{
    let es = match v {
        Some(JsonValue::Object(es)) => es,
        _ => return None,
    };
    let mut i: usize = 0;
    assert(es@.skip(0) =~= es@);
    while i < es.len()
        invariant
            i <= es.len(),
            jget(oref(v), key@) == member(es@, key@),
            member(es@, key@) == member(es@.skip(i as int), key@),
        decreases es.len() - i,
    {
        assert(es@.skip(i as int)[0] == es@[i as int]);
        if str_eq(es[i].0.as_str(), key) {
            return Some(&es[i].1);
        }
        assert(es@.skip(i as int).drop_first() =~= es@.skip(i + 1));
        i = i + 1;
    }
    None
}

/// The text of `v`, where it is a string.
pub fn as_str<'a>(v: Option<&'a JsonValue>) -> (r: Option<&'a str>)
    ensures
        match r {
            Some(s) => jstr(oref(v)) == Some(s@),
            None => jstr(oref(v)) is None,
        },
{
    match v {
        Some(JsonValue::Str(s)) => Some(s.as_str()),
        _ => None,
    }
}

/// The text of `v`, where it is a non-empty string.
pub fn as_nonempty_str<'a>(v: Option<&'a JsonValue>) -> (r: Option<&'a str>)
    ensures
        match r {
            Some(s) => jstr_nonempty(oref(v)) == Some(s@),
            None => jstr_nonempty(oref(v)) is None,
        },
{
    match as_str(v) {
        Some(s) => if s.is_empty() {
            None
        } else {
            Some(s)
        },
        None => None,
    }
}

/// `v` as an `i64`, where it is such a number.
pub fn as_i64(v: Option<&JsonValue>) -> (r: Option<i64>)
    ensures
        r == ji64(oref(v)),
{
    match v {
        Some(JsonValue::Number(i, _)) => *i,
        _ => None,
    }
}

/// `v` as a `u64`, where it is such a number.
pub fn as_u64(v: Option<&JsonValue>) -> (r: Option<u64>)
    ensures
        r == ju64(oref(v)),
{
    match v {
        Some(JsonValue::Number(_, u)) => *u,
        _ => None,
    }
}

} // verus!
