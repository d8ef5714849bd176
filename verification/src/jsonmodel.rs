//! A model of one parsed JSON document. The outside parser hands the
//! library a value of this shape, and every decision about fields,
//! defaults and malformed records is then made — and specified — in
//! verified code.

use crate::chars::str_eq;
use vstd::prelude::*;

verus! {

/// One parsed JSON value. A number is carried by its unsigned and signed
/// readings, `None` where it has none (a fraction, an out-of-range
/// value); an object's fields keep the order the parser hands them in.
pub enum JsonValue {
    Null,
    Bool(bool),
    Num { as_u64: Option<u64>, as_i64: Option<i64> },
    Text(String),
    Items(Vec<JsonValue>),
    Fields(Vec<(String, JsonValue)>),
}

/// The first field bound to `key`, in field order.
pub open spec fn field_of(fields: Seq<(String, JsonValue)>, key: Seq<char>) -> Option<JsonValue>
    decreases fields.len(),
{
    if fields.len() == 0 {
        Option::None
    } else if fields[0].0@ == key {
        Option::Some(fields[0].1)
    } else {
        field_of(fields.drop_first(), key)
    }
}

/// The text under `key`, empty where the field is absent or no text.
pub open spec fn text_field(fields: Seq<(String, JsonValue)>, key: Seq<char>) -> Seq<char> {
    match field_of(fields, key) {
        Option::Some(JsonValue::Text(s)) => s@,
        _ => Seq::empty(),
    }
}

/// The unsigned count under `key`, zero where the field is absent or has
/// no unsigned reading.
pub open spec fn u64_field(fields: Seq<(String, JsonValue)>, key: Seq<char>) -> u64 {
    match field_of(fields, key) {
        Option::Some(JsonValue::Num { as_u64: Option::Some(n), .. }) => n,
        _ => 0,
    }
}

/// The signed count under `key`, zero where the field is absent or has
/// no signed reading.
pub open spec fn i64_field(fields: Seq<(String, JsonValue)>, key: Seq<char>) -> i64 {
    match field_of(fields, key) {
        Option::Some(JsonValue::Num { as_i64: Option::Some(n), .. }) => n,
        _ => 0,
    }
}

/// Looks a key up among an object's fields.
pub fn get_field<'a>(fields: &'a Vec<(String, JsonValue)>, key: &str) -> (r: Option<&'a JsonValue>)
    ensures
        match r {
            Option::Some(v) => field_of(fields@, key@) == Option::Some(*v),
            Option::None => field_of(fields@, key@) is None,
        },
{
    let n: usize = fields.len();
    let mut i: usize = 0;
    proof {
        assert(fields@.skip(0) =~= fields@);
    }
    while i < n
        invariant
            n == fields@.len(),
            0 <= i <= n,
            field_of(fields@, key@) == field_of(fields@.skip(i as int), key@),
        decreases n - i,
    {
        proof {
            assert(fields@.skip(i as int)[0] == fields@[i as int]);
        }
        if str_eq(fields[i].0.as_str(), key) {
            return Option::Some(&fields[i].1);
        }
        proof {
            assert(fields@.skip(i as int).drop_first() =~= fields@.skip(i + 1));
        }
        i = i + 1;
    }
    proof {
        assert(fields@.skip(n as int).len() == 0);
    }
    Option::None
}

/// The text under `key`, as `text_field` describes it.
pub fn get_text(fields: &Vec<(String, JsonValue)>, key: &str) -> (r: String)
    ensures
        r@ == text_field(fields@, key@),
{
    match get_field(fields, key) {
        Option::Some(v) => match v {
            JsonValue::Text(s) => s.clone(),
            _ => String::new(),
        },
        Option::None => String::new(),
    }
}

/// The unsigned count under `key`, as `u64_field` describes it.
pub fn get_u64(fields: &Vec<(String, JsonValue)>, key: &str) -> (r: u64)
    ensures
        r == u64_field(fields@, key@),
{
    match get_field(fields, key) {
        Option::Some(v) => match v {
            JsonValue::Num { as_u64: Option::Some(n), .. } => *n,
            _ => 0,
        },
        Option::None => 0,
    }
}

/// The signed count under `key`, as `i64_field` describes it.
pub fn get_i64(fields: &Vec<(String, JsonValue)>, key: &str) -> (r: i64)
    ensures
        r == i64_field(fields@, key@),
{
    match get_field(fields, key) {
        Option::Some(v) => match v {
            JsonValue::Num { as_i64: Option::Some(n), .. } => *n,
            _ => 0,
        },
        Option::None => 0,
    }
}

} // verus!
