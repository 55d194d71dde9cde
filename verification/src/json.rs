//! JSON documents as the request readers see them: the parsed tree, and the
//! lookups the readers make on it.

use vstd::prelude::*;
use vstd::string::StringExecFns;
use crate::text::str_eq;

verus! {

#[verifier::external_type_specification]
#[verifier::external_body]
pub struct ExSerdeJsonValue(serde_json::Value);

/// A parsed JSON value. Integers that fit `i64` are `Int`, larger ones
/// `UInt`; any other number is `Num` with its shortest decimal text. An
/// object lists its members once each, in key order.
#[derive(Debug)]
pub enum JsonValue {
    Null,
    Bool(bool),
    Int(i64),
    UInt(u64),
    Num(String),
    Str(String),
    Array(Vec<JsonValue>),
    Object(Vec<(String, JsonValue)>),
}

/// The tree `serde_json` reads from a text, `None` where the text is not
/// JSON.
pub uninterp spec fn spec_parse_json(text: Seq<char>) -> Option<JsonValue>;

/// Reads a JSON text with `serde_json::from_str` into a `serde_json::Value`
/// and converts it one for one. The contract claims only that the result is
/// a function of the text; what that function is, is serde_json's grammar.
#[verifier::external_body]
pub(crate) fn parse_json(text: &str) -> (r: Option<JsonValue>)
    ensures
        r == spec_parse_json(text@),
{
    match serde_json::from_str::<serde_json::Value>(text) {
        Ok(value) => Some(json_from_serde(value)),
        Err(_) => None,
    }
}

/// The one-for-one conversion that `parse_json` applies to the parsed
/// `serde_json::Value` (a separate function because it recurses): each
/// variant to its namesake, a number by `as_i64`, else `as_u64`, else its
/// `Display` text.
#[verifier::external_body]
fn json_from_serde(value: serde_json::Value) -> JsonValue {
    match value {
        serde_json::Value::Null => JsonValue::Null,
        serde_json::Value::Bool(b) => JsonValue::Bool(b),
        serde_json::Value::Number(n) => match (n.as_i64(), n.as_u64()) {
            (Some(i), _) => JsonValue::Int(i),
            (None, Some(u)) => JsonValue::UInt(u),
            (None, None) => JsonValue::Num(n.to_string()),
        },
        serde_json::Value::String(s) => JsonValue::Str(s),
        serde_json::Value::Array(items) => JsonValue::Array(items.into_iter().map(json_from_serde).collect()),
        serde_json::Value::Object(map) => JsonValue::Object(map.into_iter().map(|(k, v)| (k, json_from_serde(v))).collect()),
    }
}

// ---------------------------------------------------------------------------
// Lookups.

/// The member of an object list named `key` (the first one).
pub open spec fn members_get(m: Seq<(String, JsonValue)>, key: Seq<char>) -> Option<JsonValue>
    decreases m.len(),
{
    if m.len() == 0 {
        None
    } else if m[0].0@ == key {
        Some(m[0].1)
    } else {
        members_get(m.drop_first(), key)
    }
}

/// `value[key]` of an object; `None` for a missing key or another kind.
pub open spec fn jget(v: JsonValue, key: Seq<char>) -> Option<JsonValue> {
    match v {
        JsonValue::Object(m) => members_get(m@, key),
        _ => None,
    }
}

/// Looks a member up by name.
pub fn json_get<'a>(v: &'a JsonValue, key: &str) -> (r: Option<&'a JsonValue>)
    ensures
        match r {
            Some(x) => jget(*v, key@) == Some(*x),
            None => jget(*v, key@) is None,
        },
{
    match v {
        JsonValue::Object(m) => {
            let mut i: usize = 0;
            assert(m@.subrange(0, m@.len() as int) =~= m@);
            assert(jget(*v, key@) == members_get(m@, key@));
            while i < m.len()
                invariant
                    i <= m@.len(),
                    jget(*v, key@) == members_get(m@, key@),
                    members_get(m@, key@) == members_get(m@.subrange(i as int, m@.len() as int), key@),
                decreases m@.len() - i,
            {
                assert(m@.subrange(i as int, m@.len() as int).drop_first() =~= m@.subrange(i + 1, m@.len() as int));
                assert(m@.subrange(i as int, m@.len() as int)[0] == m@[i as int]);
                if str_eq(m[i].0.as_str(), key) {
                    assert(members_get(m@.subrange(i as int, m@.len() as int), key@) == Some(m@[i as int].1));
                    return Some(&m[i].1);
                }
                i = i + 1;
            }
            None
        },
        _ => None,
    }
}

/// `as_i64`.
pub open spec fn as_i64(v: JsonValue) -> Option<i64> {
    match v {
        JsonValue::Int(n) => Some(n),
        _ => None,
    }
}

/// `as_u64`.
pub open spec fn as_u64(v: JsonValue) -> Option<u64> {
    match v {
        JsonValue::Int(n) => if n >= 0 { Some(n as u64) } else { None },
        JsonValue::UInt(n) => Some(n),
        _ => None,
    }
}

/// `as_str`, by view.
pub open spec fn as_text(v: JsonValue) -> Option<Seq<char>> {
    match v {
        JsonValue::Str(s) => Some(s@),
        _ => None,
    }
}

/// `as_bool`.
pub open spec fn as_bool(v: JsonValue) -> Option<bool> {
    match v {
        JsonValue::Bool(b) => Some(b),
        _ => None,
    }
}

pub fn json_as_u64(v: &JsonValue) -> (r: Option<u64>)
    ensures
        r == as_u64(*v),
{
    match v {
        JsonValue::Int(n) => if *n >= 0 { Some(*n as u64) } else { None },
        JsonValue::UInt(n) => Some(*n),
        _ => None,
    }
}

/// An integer member, cast to 32 bits as `as` casts.
pub open spec fn i32_field(v: JsonValue, key: Seq<char>) -> Option<i32> {
    match jget(v, key) {
        Some(JsonValue::Int(n)) => Some(n as i32),
        _ => None,
    }
}

pub fn get_i32(v: &JsonValue, key: &str) -> (r: Option<i32>)
    ensures
        r == i32_field(*v, key@),
{
    match json_get(v, key) {
        Some(JsonValue::Int(n)) => Some(*n as i32),
        _ => None,
    }
}

/// A boolean member.
pub open spec fn bool_field(v: JsonValue, key: Seq<char>) -> Option<bool> {
    match jget(v, key) {
        Some(JsonValue::Bool(b)) => Some(b),
        _ => None,
    }
}

pub fn get_bool(v: &JsonValue, key: &str) -> (r: Option<bool>)
    ensures
        r == bool_field(*v, key@),
{
    match json_get(v, key) {
        Some(JsonValue::Bool(b)) => Some(*b),
        _ => None,
    }
}

/// A string member, by view.
pub open spec fn text_field(v: JsonValue, key: Seq<char>) -> Option<Seq<char>> {
    match jget(v, key) {
        Some(JsonValue::Str(s)) => Some(s@),
        _ => None,
    }
}

pub fn get_string(v: &JsonValue, key: &str) -> (r: Option<String>)
    ensures
        r matches Some(s) ==> text_field(*v, key@) == Some(s@),
        r is None ==> text_field(*v, key@) is None,
{
    match json_get(v, key) {
        Some(JsonValue::Str(s)) => Some(s.clone()),
        _ => None,
    }
}

/// The items of an array member, none for another kind.
pub open spec fn items_field(v: JsonValue, key: Seq<char>) -> Seq<JsonValue> {
    match jget(v, key) {
        Some(JsonValue::Array(items)) => items@,
        _ => Seq::empty(),
    }
}

pub fn get_items<'a>(v: &'a JsonValue, key: &str) -> (r: &'a [JsonValue])
    ensures
        r@ == items_field(*v, key@),
{
    match json_get(v, key) {
        Some(JsonValue::Array(items)) => items.as_slice(),
        _ => &[],
    }
}

/// Value equality of two trees, strings by their characters.
pub open spec fn json_same(a: JsonValue, b: JsonValue) -> bool
    decreases a,
{
    match a {
        JsonValue::Null => b is Null,
        JsonValue::Bool(x) => b matches JsonValue::Bool(y) && x == y,
        JsonValue::Int(x) => b matches JsonValue::Int(y) && x == y,
        JsonValue::UInt(x) => b matches JsonValue::UInt(y) && x == y,
        JsonValue::Num(x) => b matches JsonValue::Num(y) && x@ == y@,
        JsonValue::Str(x) => b matches JsonValue::Str(y) && x@ == y@,
        JsonValue::Array(x) => b matches JsonValue::Array(y) && items_same(x@, y@),
        JsonValue::Object(x) => b matches JsonValue::Object(y) && members_same(x@, y@),
    }
}

/// Element-wise equality of two item lists.
pub open spec fn items_same(xs: Seq<JsonValue>, ys: Seq<JsonValue>) -> bool
    decreases xs,
{
    if xs.len() == 0 {
        ys.len() == 0
    } else {
        ys.len() > 0 && json_same(xs[0], ys[0]) && items_same(xs.drop_first(), ys.drop_first())
    }
}

/// Member-wise equality of two member lists, names by their characters.
pub open spec fn members_same(xs: Seq<(String, JsonValue)>, ys: Seq<(String, JsonValue)>) -> bool
    decreases xs,
{
    if xs.len() == 0 {
        ys.len() == 0
    } else {
        ys.len() > 0 && xs[0].0@ == ys[0].0@ && json_same(xs[0].1, ys[0].1)
            && members_same(xs.drop_first(), ys.drop_first())
    }
}

/// Whether two trees are equal.
pub fn json_eq(a: &JsonValue, b: &JsonValue) -> (r: bool)
    ensures
        r == json_same(*a, *b),
    decreases *a,
{
    match a {
        JsonValue::Array(x) => {
            let y = match b {
                JsonValue::Array(y) => y,
                _ => return false,
            };
            assert(*a == JsonValue::Array(*x));
            assert(x@.skip(0) =~= x@);
            assert(y@.skip(0) =~= y@);
            let mut i: usize = 0;
            while i < x.len()
                invariant
                    i <= x@.len(),
                    i <= y@.len(),
                    *a is Array,
                    (*a)->Array_0 == *x,
                    *b == JsonValue::Array(*y),
                    json_same(*a, *b) == items_same(x@.skip(i as int), y@.skip(i as int)),
                decreases x@.len() - i,
            {
                if i >= y.len() {
                    assert(y@.skip(i as int).len() == 0);
                    return false;
                }
                proof {
                    assert(decreases_to!(*a => (*a)->Array_0));
                    assert(decreases_to!((*a)->Array_0 => (*a)->Array_0@));
                    assert(decreases_to!((*a)->Array_0@ => (*a)->Array_0@[i as int]));
                    assert(x@.skip(i as int)[0] == x@[i as int]);
                    assert(y@.skip(i as int)[0] == y@[i as int]);
                    assert(x@.skip(i as int).drop_first() =~= x@.skip(i + 1));
                    assert(y@.skip(i as int).drop_first() =~= y@.skip(i + 1));
                }
                if !json_eq(&x[i], &y[i]) {
                    return false;
                }
                i = i + 1;
            }
            assert(x@.skip(i as int).len() == 0);
            i == y.len()
        },
        JsonValue::Object(x) => {
            let y = match b {
                JsonValue::Object(y) => y,
                _ => return false,
            };
            assert(*a == JsonValue::Object(*x));
            assert(x@.skip(0) =~= x@);
            assert(y@.skip(0) =~= y@);
            let mut i: usize = 0;
            while i < x.len()
                invariant
                    i <= x@.len(),
                    i <= y@.len(),
                    *a is Object,
                    (*a)->Object_0 == *x,
                    *b == JsonValue::Object(*y),
                    json_same(*a, *b) == members_same(x@.skip(i as int), y@.skip(i as int)),
                decreases x@.len() - i,
            {
                if i >= y.len() {
                    assert(y@.skip(i as int).len() == 0);
                    return false;
                }
                proof {
                    assert(decreases_to!(*a => (*a)->Object_0));
                    assert(decreases_to!((*a)->Object_0 => (*a)->Object_0@));
                    assert(decreases_to!((*a)->Object_0@ => (*a)->Object_0@[i as int]));
                    assert(decreases_to!((*a)->Object_0@[i as int] => (*a)->Object_0@[i as int].1));
                    assert(x@.skip(i as int)[0] == x@[i as int]);
                    assert(y@.skip(i as int)[0] == y@[i as int]);
                    assert(x@.skip(i as int).drop_first() =~= x@.skip(i + 1));
                    assert(y@.skip(i as int).drop_first() =~= y@.skip(i + 1));
                }
                if !str_eq(x[i].0.as_str(), y[i].0.as_str()) {
                    return false;
                }
                if !json_eq(&x[i].1, &y[i].1) {
                    return false;
                }
                i = i + 1;
            }
            assert(x@.skip(i as int).len() == 0);
            i == y.len()
        },
        JsonValue::Null => match b {
            JsonValue::Null => true,
            _ => false,
        },
        JsonValue::Bool(x) => match b {
            JsonValue::Bool(y) => *x == *y,
            _ => false,
        },
        JsonValue::Int(x) => match b {
            JsonValue::Int(y) => *x == *y,
            _ => false,
        },
        JsonValue::UInt(x) => match b {
            JsonValue::UInt(y) => *x == *y,
            _ => false,
        },
        JsonValue::Num(x) => match b {
            JsonValue::Num(y) => str_eq(x.as_str(), y.as_str()),
            _ => false,
        },
        JsonValue::Str(x) => match b {
            JsonValue::Str(y) => str_eq(x.as_str(), y.as_str()),
            _ => false,
        },
    }
}

/// A message made of a key and a text.
pub(crate) fn keyed(key: &str, text: &str) -> (r: String)
    ensures
        r@ == key@ + text@,
{
    key.to_owned().concat(text)
}

} // verus!
