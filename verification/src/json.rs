//! JSON values as plain data, read from text by `serde_json`.

use vstd::prelude::*;
use crate::error::SyntaxError;

verus! {

/// A JSON number.
#[derive(Debug, Clone, Copy, PartialEq)]
pub enum JsonNumber {
    /// An integer that is not negative.
    PosInt(u64),
    /// A negative integer.
    NegInt(i64),
    /// Any other number, as the bit pattern of its IEEE 754 binary64 value.
    Real(u64),
}

/// A JSON value.
#[derive(Debug, PartialEq)]
pub enum JsonValue {
    Null,
    Bool(bool),
    Number(JsonNumber),
    String(String),
    Array(Vec<JsonValue>),
    /// The members of an object. The parser hands out each name once.
    Object(Vec<(String, JsonValue)>),
}

/// `serde_json`'s JSON value. It only passes through `lift` on its way out of
/// the parser.
#[verifier::external_type_specification]
#[verifier::external_body]
pub struct ExValue(serde_json::Value);

/// `serde_json`'s JSON number. It only passes through `lift_number`.
#[verifier::external_type_specification]
#[verifier::external_body]
pub struct ExNumber(serde_json::Number);

/// What `serde_json::from_str` makes of `text` when asked for a
/// `serde_json::Value`: that value, written as a `JsonValue`, or `None` where
/// it returns an error.
pub uninterp spec fn json_parse(text: Seq<char>) -> Option<JsonValue>;

/// Rewrites a `serde_json::Number` as a `JsonNumber`: what `as_u64` holds,
/// else what `as_i64` holds, else the bits of what `as_f64` holds. Nothing is
/// claimed of the result.
#[verifier::external_body]
fn lift_number(n: &serde_json::Number) -> JsonNumber {
    match (n.as_u64(), n.as_i64()) {
        (Some(u), _) => JsonNumber::PosInt(u),
        (_, Some(i)) => JsonNumber::NegInt(i),
        _ => JsonNumber::Real(n.as_f64().unwrap_or_default().to_bits()),
    }
}

/// Rewrites a `serde_json::Value` as a `JsonValue`, variant for variant.
/// Nothing is claimed of the result.
#[verifier::external_body]
fn lift(v: serde_json::Value) -> JsonValue {
    match v {
        serde_json::Value::Null => JsonValue::Null,
        serde_json::Value::Bool(b) => JsonValue::Bool(b),
        serde_json::Value::Number(n) => JsonValue::Number(lift_number(&n)),
        serde_json::Value::String(s) => JsonValue::String(s),
        serde_json::Value::Array(a) => JsonValue::Array(a.into_iter().map(lift).collect()),
        serde_json::Value::Object(o) => JsonValue::Object(
            o.into_iter().map(|(k, x)| (k, lift(x))).collect(),
        ),
    }
}

/// Calls `serde_json::from_str` for a `serde_json::Value` and rewrites what
/// comes back as plain data: the value through `lift`, the error as its line,
/// column and message. The contract only gives the result its name,
/// `json_parse`.
#[verifier::external_body]
pub(crate) fn parse_json(text: &str) -> (res: Result<JsonValue, SyntaxError>)
    ensures
        json_parse(text@) == (match res {
            Ok(value) => Some(value),
            Err(_) => None,
        }),
{
    match serde_json::from_str::<serde_json::Value>(text) {
        Ok(v) => Ok(lift(v)),
        Err(e) => Err(SyntaxError { line: e.line(), column: e.column(), message: e.to_string() }),
    }
}

} // verus!
