//! JSON documents as the parsers see them: parsed by `serde_json`, read
//! through a handful of accessors whose results are named here.

use vstd::prelude::*;
use serde_json::Value;

verus! {

/// `serde_json::Value`, a parsed JSON document. Nothing is known of what is
/// inside but what the accessors below report.
#[verifier::external_type_specification]
#[verifier::external_body]
pub struct ExValue(serde_json::Value);

/// `serde_json::Error`, the reason why a text could not be parsed.
#[verifier::external_type_specification]
#[verifier::external_body]
pub struct ExJsonError(serde_json::Error);

/// What `serde_json::from_str` makes of `text`.
pub uninterp spec fn json_parse(text: Seq<char>) -> Result<Value, serde_json::Error>;

/// The member of object `value` under `key`, as `Value::get` finds it.
pub uninterp spec fn json_member(value: Value, key: Seq<char>) -> Option<Value>;

/// The element of array `value` at `index`, as `Value::get` finds it.
pub uninterp spec fn json_element(value: Value, index: usize) -> Option<Value>;

/// The text of `value` where it is a JSON string (`Value::as_str`).
pub uninterp spec fn json_string(value: Value) -> Option<Seq<char>>;

/// The truth value of `value` where it is a JSON boolean (`Value::as_bool`).
pub uninterp spec fn json_boolean(value: Value) -> Option<bool>;

/// Whether `error` reports that the input ended too early.
pub uninterp spec fn json_error_is_eof(error: serde_json::Error) -> bool;

/// The human-readable message of `error`.
pub uninterp spec fn json_error_text(error: serde_json::Error) -> Seq<char>;

/// `serde_json::from_str::<Value>`: the outcome depends on the text alone.
#[verifier::external_body]
pub(crate) fn parse(text: &str) -> (r: Result<Value, serde_json::Error>)
    ensures
        r == json_parse(text@),
{
    serde_json::from_str::<Value>(text)
}

/// `Value::get` with a string key: the member under that key where `value`
/// is an object holding it.
#[verifier::external_body]
pub(crate) fn member<'a>(value: &'a Value, key: &str) -> (r: Option<&'a Value>)
    ensures
        match r {
            Some(found) => json_member(*value, key@) == Some(*found),
            None => json_member(*value, key@) is None,
        },
{
    value.get(key)
}

/// `Value::get` with a position: the element there where `value` is an
/// array that long.
#[verifier::external_body]
pub(crate) fn element<'a>(value: &'a Value, index: usize) -> (r: Option<&'a Value>)
    ensures
        match r {
            Some(found) => json_element(*value, index) == Some(*found),
            None => json_element(*value, index) is None,
        },
{
    value.get(index)
}

/// `Value::as_str`, copied into an owned string.
#[verifier::external_body]
pub(crate) fn string_of(value: &Value) -> (r: Option<String>)
    ensures
        match r {
            Some(text) => json_string(*value) == Some(text@),
            None => json_string(*value) is None,
        },
{
    value.as_str().map(String::from)
}

/// `Value::as_bool`.
#[verifier::external_body]
pub(crate) fn boolean_of(value: &Value) -> (r: Option<bool>)
    ensures
        r == json_boolean(*value),
{
    value.as_bool()
}

/// `Error::classify`, asked whether the category is `Eof`.
#[verifier::external_body]
pub(crate) fn error_is_eof(error: &serde_json::Error) -> (r: bool)
    ensures
        r == json_error_is_eof(*error),
{
    error.classify() == serde_json::error::Category::Eof
}

/// The `Display` rendering of a `serde_json::Error`.
#[verifier::external_body]
pub(crate) fn error_text(error: &serde_json::Error) -> (r: String)
    ensures
        r@ == json_error_text(*error),
{
    format!("{}", error)
}

/// The text under `choices[0].delta.content`, where that path leads to a
/// JSON string.
pub open spec fn delta_content_of(value: Value) -> Option<Seq<char>> {
    match json_member(value, "choices"@) {
        Some(choices) => match json_element(choices, 0) {
            Some(first) => match json_member(first, "delta"@) {
                Some(delta) => match json_member(delta, "content"@) {
                    Some(content) => json_string(content),
                    None => None,
                },
                None => None,
            },
            None => None,
        },
        None => None,
    }
}

/// Reads `choices[0].delta.content` out of a streamed completion object.
pub fn delta_content(value: &Value) -> (r: Option<String>)
    ensures
        match r {
            Some(text) => delta_content_of(*value) == Some(text@),
            None => delta_content_of(*value) is None,
        },
{
    let choices = match member(value, "choices") {
        Some(v) => v,
        None => return None,
    };
    let first = match element(choices, 0) {
        Some(v) => v,
        None => return None,
    };
    let delta = match member(first, "delta") {
        Some(v) => v,
        None => return None,
    };
    let content = match member(delta, "content") {
        Some(v) => v,
        None => return None,
    };
    string_of(content)
}

} // verus!
