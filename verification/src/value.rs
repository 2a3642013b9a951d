//! The JSON values that travel through the adapters, held as plain data.

use vstd::prelude::*;
use crate::text::{nat_text, int_text, i64_text, u64_text};

verus! {

/// A JSON number as `serde_json` holds it: a negative integer, a
/// non-negative integer, or a floating-point number kept as the text that
/// `serde_json` writes for it.
#[derive(Debug, Clone)]
pub enum JsonNumber {
    NegInt(i64),
    PosInt(u64),
    Float(String),
}

/// A JSON value. Arrays and objects are kept as their compact JSON text:
/// no rule here looks inside them.
#[derive(Debug, Clone)]
pub enum JsonValue {
    Null,
    Bool(bool),
    Number(JsonNumber),
    String(String),
    Array(String),
    Object(String),
}

/// The text `serde_json` writes for a number.
pub open spec fn number_text(n: JsonNumber) -> Seq<char> {
    match n {
        JsonNumber::NegInt(i) => int_text(i as int),
        JsonNumber::PosInt(u) => nat_text(u as nat),
        JsonNumber::Float(t) => t@,
    }
}

/// The compact JSON text of a value other than a string.
pub open spec fn non_string_text(v: JsonValue) -> Seq<char> {
    match v {
        JsonValue::Null => "null"@,
        JsonValue::Bool(b) => if b {
            "true"@
        } else {
            "false"@
        },
        JsonValue::Number(n) => number_text(n),
        JsonValue::String(s) => s@,
        JsonValue::Array(t) => t@,
        JsonValue::Object(t) => t@,
    }
}

/// The text `serde_json` writes for a number.
pub fn number_to_text(n: &JsonNumber) -> (s: String)
    ensures
        s@ == number_text(*n),
{
    match n {
        JsonNumber::NegInt(i) => i64_text(*i),
        JsonNumber::PosInt(u) => u64_text(*u),
        JsonNumber::Float(t) => t.clone(),
    }
}

/// The JSON value of an `i64` (`Value::from(i64)`).
pub open spec fn int_value(i: i64) -> JsonValue {
    if i < 0 {
        JsonValue::Number(JsonNumber::NegInt(i))
    } else {
        JsonValue::Number(JsonNumber::PosInt(i as u64))
    }
}

/// The JSON value of an `i64`.
pub fn from_i64(i: i64) -> (v: JsonValue)
    ensures
        v == int_value(i),
{
    if i < 0 {
        JsonValue::Number(JsonNumber::NegInt(i))
    } else {
        JsonValue::Number(JsonNumber::PosInt(i as u64))
    }
}

/// The value as an `i64` when it is an integer in range (`Value::as_i64`).
pub open spec fn as_i64_spec(v: JsonValue) -> Option<i64> {
    match v {
        JsonValue::Number(JsonNumber::NegInt(i)) => Some(i),
        JsonValue::Number(JsonNumber::PosInt(u)) => if u <= i64::MAX as u64 {
            Some(u as i64)
        } else {
            None
        },
        _ => None,
    }
}

/// The value as an `i64` when it is an integer in range.
pub fn as_i64(v: &JsonValue) -> (r: Option<i64>)
    ensures
        r == as_i64_spec(*v),
{
    match v {
        JsonValue::Number(JsonNumber::NegInt(i)) => Some(*i),
        JsonValue::Number(JsonNumber::PosInt(u)) => if *u <= 9223372036854775807u64 {
            Some(*u as i64)
        } else {
            None
        },
        _ => None,
    }
}

/// An equal copy of a number.
pub fn copy_number(n: &JsonNumber) -> (r: JsonNumber)
    ensures
        r == *n,
{
    match n {
        JsonNumber::NegInt(i) => JsonNumber::NegInt(*i),
        JsonNumber::PosInt(u) => JsonNumber::PosInt(*u),
        JsonNumber::Float(t) => JsonNumber::Float(t.clone()),
    }
}

/// An equal copy of a value.
pub fn copy_value(v: &JsonValue) -> (r: JsonValue)
    ensures
        r == *v,
{
    match v {
        JsonValue::Null => JsonValue::Null,
        JsonValue::Bool(b) => JsonValue::Bool(*b),
        JsonValue::Number(n) => JsonValue::Number(copy_number(n)),
        JsonValue::String(s) => JsonValue::String(s.clone()),
        JsonValue::Array(t) => JsonValue::Array(t.clone()),
        JsonValue::Object(t) => JsonValue::Object(t.clone()),
    }
}


/// A JSON value as plain data: numbers by kind, texts as character
/// sequences.
pub enum JsonView {
    Null,
    Bool(bool),
    NegInt(i64),
    PosInt(u64),
    Float(Seq<char>),
    Str(Seq<char>),
    Array(Seq<char>),
    Object(Seq<char>),
}

impl View for JsonValue {
    type V = JsonView;

    open spec fn view(&self) -> JsonView {
        match self {
            JsonValue::Null => JsonView::Null,
            JsonValue::Bool(b) => JsonView::Bool(*b),
            JsonValue::Number(JsonNumber::NegInt(i)) => JsonView::NegInt(*i),
            JsonValue::Number(JsonNumber::PosInt(u)) => JsonView::PosInt(*u),
            JsonValue::Number(JsonNumber::Float(t)) => JsonView::Float(t@),
            JsonValue::String(t) => JsonView::Str(t@),
            JsonValue::Array(t) => JsonView::Array(t@),
            JsonValue::Object(t) => JsonView::Object(t@),
        }
    }
}

/// The view of the JSON value of an `i64`.
pub open spec fn int_view(i: i64) -> JsonView {
    if i < 0 {
        JsonView::NegInt(i)
    } else {
        JsonView::PosInt(i as u64)
    }
}

/// The value as an `i64` when it is an integer in range.
pub open spec fn as_i64_view(v: JsonView) -> Option<i64> {
    match v {
        JsonView::NegInt(i) => Some(i),
        JsonView::PosInt(u) => if u <= i64::MAX as u64 {
            Some(u as i64)
        } else {
            None
        },
        _ => None,
    }
}

/// An optional value, as plain data.
pub open spec fn opt_json_view(o: Option<JsonValue>) -> Option<JsonView> {
    match o {
        Some(v) => Some(v@),
        None => None,
    }
}

} // verus!
