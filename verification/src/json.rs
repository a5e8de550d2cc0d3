//! The JSON values the site answers with, as the library reads them.
//!
//! Reading follows the usual index conventions: asking an object for a
//! missing key, an array for a missing index, or anything else for a key or
//! an index gives "nothing", which reads like `null`.

use vstd::prelude::*;
use crate::text::{owned, same_text};

verus! {

/// A JSON value.
///
/// Numbers that are non-negative integers fitting 64 bits are kept as
/// `Uint`; other numbers keep their written form, since nothing here reads
/// their value.
pub enum Json {
    Null,
    Bool(bool),
    Uint(u64),
    OtherNumber(String),
    Str(String),
    Array(Vec<Json>),
    Object(Vec<JsonField>),
}

/// One member of an object.
pub struct JsonField {
    pub key: String,
    pub value: Json,
}

/// The value of the first member named `key`.
pub open spec fn lookup(fields: Seq<JsonField>, key: Seq<char>) -> Option<Json>
    decreases fields.len(),
{
    if fields.len() == 0 {
        None
    } else if fields[0].key@ == key {
        Some(fields[0].value)
    } else {
        lookup(fields.drop_first(), key)
    }
}

/// `v[key]`.
pub open spec fn at(v: Option<Json>, key: Seq<char>) -> Option<Json> {
    match v {
        Some(Json::Object(fields)) => lookup(fields@, key),
        _ => None,
    }
}

/// `v[i]`.
pub open spec fn nth(v: Option<Json>, i: int) -> Option<Json> {
    match v {
        Some(Json::Array(items)) => if 0 <= i < items@.len() {
            Some(items@[i])
        } else {
            None
        },
        _ => None,
    }
}

/// `v.as_str()`.
pub open spec fn str_of(v: Option<Json>) -> Option<Seq<char>> {
    match v {
        Some(Json::Str(s)) => Some(s@),
        _ => None,
    }
}

/// `v.as_u64()`.
pub open spec fn u64_of(v: Option<Json>) -> Option<u64> {
    match v {
        Some(Json::Uint(n)) => Some(n),
        _ => None,
    }
}

/// A JSON number: a whole number, or any other number in its written
/// form.
pub enum JsonNumber {
    Whole(u64),
    Written(String),
}

/// The number a value holds (`v.as_f64()` gives a value exactly for these).
pub open spec fn number_of(v: Option<Json>) -> Option<JsonNumber> {
    match v {
        Some(Json::Uint(n)) => Some(JsonNumber::Whole(n)),
        Some(Json::OtherNumber(w)) => Some(JsonNumber::Written(w)),
        _ => None,
    }
}

/// `v.as_array()`.
pub open spec fn array_of(v: Option<Json>) -> Option<Seq<Json>> {
    match v {
        Some(Json::Array(items)) => Some(items@),
        _ => None,
    }
}

/// `v.is_object()`.
pub open spec fn is_object(v: Option<Json>) -> bool {
    v matches Some(Json::Object(_))
}

/// `v.is_null()`: nothing, or an explicit `null`.
pub open spec fn is_null(v: Option<Json>) -> bool {
    v is None || v matches Some(Json::Null)
}

/// `v == Value::Bool(b)`.
pub open spec fn is_bool(v: Option<Json>, b: bool) -> bool {
    v == Some(Json::Bool(b))
}

/// `v == s` for a string `s`.
pub open spec fn is_text(v: Option<Json>, s: Seq<char>) -> bool {
    str_of(v) == Some(s)
}

/// `a.or(b)` for texts.
pub open spec fn or_text(a: Option<Seq<char>>, b: Option<Seq<char>>) -> Option<Seq<char>> {
    match a {
        Some(x) => Some(x),
        None => b,
    }
}

/// A borrowed value seen as a value.
pub open spec fn opt(v: Option<&Json>) -> Option<Json> {
    match v {
        Some(j) => Some(*j),
        None => None,
    }
}

/// `v[key]`.
pub fn get<'a>(v: Option<&'a Json>, key: &str) -> (r: Option<&'a Json>)
    ensures
        match r {
            Some(x) => at(opt(v), key@) == Some(*x),
            None => at(opt(v), key@) is None,
        },
{
    let j = match v {
        Some(j) => j,
        None => return None,
    };
    assert(opt(v) == Some(*j));
    match j {
        Json::Object(fields) => {
            let mut i: usize = 0;
            assert(fields@.skip(0) =~= fields@);
            while i < fields.len()
                invariant
                    i <= fields@.len(),
                    at(opt(v), key@) == lookup(fields@, key@),
                    lookup(fields@, key@) == lookup(fields@.skip(i as int), key@),
                decreases fields@.len() - i,
            {
                assert(fields@.skip(i as int).drop_first() =~= fields@.skip(i + 1));
                assert(fields@.skip(i as int)[0] == fields@[i as int]);
                if same_text(fields[i].key.as_str(), key) {
                    return Some(&fields[i].value);
                }
                i = i + 1;
            }
            None
        },
        _ => None,
    }
}

/// `v[i]`.
pub fn get_nth<'a>(v: Option<&'a Json>, i: usize) -> (r: Option<&'a Json>)
    ensures
        match r {
            Some(x) => nth(opt(v), i as int) == Some(*x),
            None => nth(opt(v), i as int) is None,
        },
{
    match v {
        Some(Json::Array(items)) => if i < items.len() {
            Some(&items[i])
        } else {
            None
        },
        _ => None,
    }
}

/// `v.as_str()`.
pub fn get_str<'a>(v: Option<&'a Json>) -> (r: Option<&'a String>)
    ensures
        match r {
            Some(s) => str_of(opt(v)) == Some(s@),
            None => str_of(opt(v)) is None,
        },
{
    match v {
        Some(Json::Str(s)) => Some(s),
        _ => None,
    }
}

/// `v.as_u64()`.
pub fn get_u64(v: Option<&Json>) -> (r: Option<u64>)
    ensures
        r == u64_of(opt(v)),
{
    match v {
        Some(Json::Uint(n)) => Some(*n),
        _ => None,
    }
}

/// The number `v` holds, if it is one.
pub fn get_number(v: Option<&Json>) -> (r: Option<JsonNumber>)
    ensures
        r == number_of(opt(v)),
{
    let j = match v {
        Some(j) => j,
        None => return None,
    };
    assert(opt(v) == Some(*j));
    match j {
        Json::Uint(n) => {
            let r = Some(JsonNumber::Whole(*n));
            assert(number_of(Some(*j)) == r);
            r
        },
        Json::OtherNumber(w) => {
            let c = w.clone();
            assert(c == *w);
            Some(JsonNumber::Written(c))
        },
        _ => None,
    }
}

/// `v.as_array()`.
pub fn get_array<'a>(v: Option<&'a Json>) -> (r: Option<&'a Vec<Json>>)
    ensures
        match r {
            Some(a) => array_of(opt(v)) == Some(a@),
            None => array_of(opt(v)) is None,
        },
{
    match v {
        Some(Json::Array(items)) => Some(items),
        _ => None,
    }
}

/// `v.is_object()`.
pub fn check_object(v: Option<&Json>) -> (r: bool)
    ensures
        r == is_object(opt(v)),
{
    match v {
        Some(Json::Object(_)) => true,
        _ => false,
    }
}

/// `v.is_null()`.
pub fn check_null(v: Option<&Json>) -> (r: bool)
    ensures
        r == is_null(opt(v)),
{
    match v {
        None => true,
        Some(Json::Null) => true,
        _ => false,
    }
}

/// `v == Value::Bool(b)`.
pub fn check_bool(v: Option<&Json>, b: bool) -> (r: bool)
    ensures
        r == is_bool(opt(v), b),
{
    match v {
        Some(Json::Bool(x)) => *x == b,
        _ => false,
    }
}

/// `v == s`.
pub fn check_text(v: Option<&Json>, s: &str) -> (r: bool)
    ensures
        r == is_text(opt(v), s@),
{
    match get_str(v) {
        Some(x) => same_text(x.as_str(), s),
        None => false,
    }
}

/// `v[key]`, taken out of `v`.
pub fn take_field(v: Option<Json>, key: &str) -> (r: Option<Json>)
    ensures
        r == at(v, key@),
{
    let j = match v {
        Some(j) => j,
        None => return None,
    };
    match j {
        Json::Object(mut fields) => {
            let ghost fs = fields@;
            let mut i: usize = 0;
            assert(fs.skip(0) =~= fs);
            while i < fields.len()
                invariant
                    fields@ == fs,
                    at(v, key@) == lookup(fs, key@),
                    i <= fs.len(),
                    lookup(fs, key@) == lookup(fs.skip(i as int), key@),
                decreases fs.len() - i,
            {
                assert(fs.skip(i as int).drop_first() =~= fs.skip(i + 1));
                assert(fs.skip(i as int)[0] == fs[i as int]);
                if same_text(fields[i].key.as_str(), key) {
                    let f = fields.remove(i);
                    return Some(f.value);
                }
                i = i + 1;
            }
            None
        },
        _ => None,
    }
}

/// An object member.
pub fn member(key: &str, value: Json) -> (f: JsonField)
    ensures
        f.key@ == key@,
        f.value == value,
{
    JsonField { key: owned(key), value }
}

} // verus!
