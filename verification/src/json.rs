//! JSON values as the tools and the model exchange them, held as plain
//! data: what the summaries of tool calls and results read.

use vstd::prelude::*;
use crate::text::{chars_eq, chars_of};

verus! {

broadcast use vstd::string::group_string_axioms;

/// A JSON value. Numbers are kept as what the readers ask of them: an
/// unsigned integer, a negative integer, or another number.
#[derive(Debug)]
pub enum JsonValue {
    Null,
    Bool(bool),
    UInt(u64),
    NegInt(i64),
    OtherNumber,
    Str(String),
    Array(Vec<JsonValue>),
    Object(Vec<(String, JsonValue)>),
}

/// The value stored under `key` among the fields of an object.
pub open spec fn fields_get(fs: Seq<(String, JsonValue)>, key: Seq<char>) -> Option<JsonValue>
    decreases fs.len(),
{
    if fs.len() == 0 {
        None
    } else if fs[0].0@ == key {
        Some(fs[0].1)
    } else {
        fields_get(fs.drop_first(), key)
    }
}

/// `value[key]`: the field of an object, `None` for a missing field or a
/// value that is not an object.
pub open spec fn get(v: JsonValue, key: Seq<char>) -> Option<JsonValue> {
    match v {
        JsonValue::Object(fs) => fields_get(fs@, key),
        _ => None,
    }
}

/// `as_str`.
pub open spec fn as_str(v: Option<JsonValue>) -> Option<Seq<char>> {
    match v {
        Some(JsonValue::Str(s)) => Some(s@),
        _ => None,
    }
}

/// `as_bool`.
pub open spec fn as_bool(v: Option<JsonValue>) -> Option<bool> {
    match v {
        Some(JsonValue::Bool(b)) => Some(b),
        _ => None,
    }
}

/// `as_u64`.
pub open spec fn as_u64(v: Option<JsonValue>) -> Option<u64> {
    match v {
        Some(JsonValue::UInt(n)) => Some(n),
        _ => None,
    }
}

/// `as_i64`.
pub open spec fn as_i64(v: Option<JsonValue>) -> Option<int> {
    match v {
        Some(JsonValue::UInt(n)) => if n <= i64::MAX {
            Some(n as int)
        } else {
            None
        },
        Some(JsonValue::NegInt(n)) => Some(n as int),
        _ => None,
    }
}

/// `as_array`, as the elements.
pub open spec fn as_array(v: Option<JsonValue>) -> Option<Seq<JsonValue>> {
    match v {
        Some(JsonValue::Array(a)) => Some(a@),
        _ => None,
    }
}

/// The string field `key`, or `default` where there is none.
pub open spec fn str_or(v: JsonValue, key: Seq<char>, default: Seq<char>) -> Seq<char> {
    match as_str(get(v, key)) {
        Some(s) => s,
        None => default,
    }
}

fn fields_get_exec<'a>(fs: &'a Vec<(String, JsonValue)>, key: &str) -> (r: Option<&'a JsonValue>)
    ensures
        r matches Some(x) ==> fields_get(fs@, key@) == Some(*x),
        r is None ==> fields_get(fs@, key@) is None,
{
    let k = chars_of(key);
    let mut i: usize = 0;
    assert(fs@.skip(0) =~= fs@);
    while i < fs.len()
        invariant
            i <= fs@.len(),
            k@ == key@,
            fields_get(fs@, key@) == fields_get(fs@.skip(i as int), key@),
        decreases fs.len() - i,
    {
        let n = chars_of(fs[i].0.as_str());
        proof {
            assert(fs@.skip(i as int)[0] == fs@[i as int]);
            assert(fs@.skip(i as int).drop_first() =~= fs@.skip(i + 1));
        }
        if chars_eq(n.as_slice(), k.as_slice()) {
            return Some(&fs[i].1);
        }
        i += 1;
    }
    None
}

/// `value.get(key)`.
pub fn get_exec<'a>(v: &'a JsonValue, key: &str) -> (r: Option<&'a JsonValue>)
    ensures
        r matches Some(x) ==> get(*v, key@) == Some(*x),
        r is None ==> get(*v, key@) is None,
{
    match v {
        JsonValue::Object(fs) => fields_get_exec(fs, key),
        _ => None,
    }
}

/// The string field `key` of `v`, if it is a string.
pub fn get_str<'a>(v: &'a JsonValue, key: &str) -> (r: Option<&'a String>)
    ensures
        r matches Some(s) ==> as_str(get(*v, key@)) == Some(s@),
        r is None ==> as_str(get(*v, key@)) is None,
{
    match get_exec(v, key) {
        Some(JsonValue::Str(s)) => Some(s),
        _ => None,
    }
}

/// The boolean field `key` of `v`, if it is one.
pub fn get_bool(v: &JsonValue, key: &str) -> (r: Option<bool>)
    ensures
        r == as_bool(get(*v, key@)),
{
    match get_exec(v, key) {
        Some(JsonValue::Bool(b)) => Some(*b),
        _ => None,
    }
}

/// The unsigned integer field `key` of `v`, if it is one.
pub fn get_u64(v: &JsonValue, key: &str) -> (r: Option<u64>)
    ensures
        r == as_u64(get(*v, key@)),
{
    match get_exec(v, key) {
        Some(JsonValue::UInt(n)) => Some(*n),
        _ => None,
    }
}

/// The field `key` of `v` as an `i64`, if it is an integer that fits.
pub fn get_i64(v: &JsonValue, key: &str) -> (r: Option<i64>)
    ensures
        r matches Some(n) ==> as_i64(get(*v, key@)) == Some(n as int),
        r is None ==> as_i64(get(*v, key@)) is None,
{
    match get_exec(v, key) {
        Some(JsonValue::UInt(n)) => {
            if *n <= 0x7fff_ffff_ffff_ffffu64 {
                Some(*n as i64)
            } else {
                None
            }
        },
        Some(JsonValue::NegInt(n)) => Some(*n),
        _ => None,
    }
}

/// The array field `key` of `v`, if it is one.
pub fn get_array<'a>(v: &'a JsonValue, key: &str) -> (r: Option<&'a Vec<JsonValue>>)
    ensures
        r matches Some(a) ==> as_array(get(*v, key@)) == Some(a@),
        r is None ==> as_array(get(*v, key@)) is None,
{
    match get_exec(v, key) {
        Some(JsonValue::Array(a)) => Some(a),
        _ => None,
    }
}

} // verus!
