//! JSON values, as the library looks into them.

use serde_json::Value;
use vstd::prelude::*;

verus! {

/// `serde_json::Value`, carried as an opaque value.
#[verifier::external_type_specification]
#[verifier::external_body]
pub struct ExValue(serde_json::Value);

/// What `Value::get` finds under a key: the member of that name, or nothing
/// where the value is no object or has no such member.
pub uninterp spec fn json_member(value: Value, key: Seq<char>) -> Option<Value>;

/// What `Value::as_str` gives: the text of a JSON string, nothing otherwise.
pub uninterp spec fn json_text(value: Value) -> Option<Seq<char>>;

/// What `Value::as_u64` gives: a JSON number that is an integer of 64 bits
/// without a sign, nothing otherwise.
pub uninterp spec fn json_number(value: Value) -> Option<u64>;

/// What `Value::as_bool` gives: a JSON truth value, nothing otherwise.
pub uninterp spec fn json_flag(value: Value) -> Option<bool>;

/// What `Value::as_array` gives: the elements of a JSON array, nothing
/// otherwise.
pub uninterp spec fn json_elements(value: Value) -> Option<Seq<Value>>;

/// What `Value::is_null` tells.
pub uninterp spec fn json_null(value: Value) -> bool;

/// What `serde_json::from_str` makes of a text: the JSON value that it spells
/// out, or the wording of what is wrong with it.
pub uninterp spec fn json_value(text: Seq<char>) -> Result<Value, Seq<char>>;

/// Calls `serde_json::from_str` for a value. The contract claims that the
/// value, or the wording of the error, depends on the text alone.
#[verifier::external_body]
pub(crate) fn value_from_str(text: &str) -> (parsed: Result<Value, String>)
    ensures
        match parsed {
            Ok(value) => json_value(text@) == Ok::<Value, Seq<char>>(value),
            Err(reason) => json_value(text@) == Err::<Value, Seq<char>>(reason@),
        },
{
    match serde_json::from_str::<Value>(text) {
        Ok(value) => Ok(value),
        Err(error) => Err(error.to_string()),
    }
}

/// Calls `serde_json::Value::is_null`. The contract claims that the answer
/// depends on the value alone.
#[verifier::external_body]
pub(crate) fn value_is_null(value: &Value) -> (null: bool)
    ensures
        null == json_null(*value),
{
    value.is_null()
}

/// Calls `serde_json::Value::get` with a text key. The contract claims that
/// the member found depends on the value and the key alone.
#[verifier::external_body]
pub(crate) fn value_get<'a>(value: &'a Value, key: &str) -> (member: Option<&'a Value>)
    ensures
        match member {
            Some(found) => json_member(*value, key@) == Some(*found),
            None => json_member(*value, key@) is None,
        },
{
    value.get(key)
}

/// Calls `serde_json::Value::as_str`. The contract claims that the text
/// depends on the value alone.
#[verifier::external_body]
pub(crate) fn value_as_str(value: &Value) -> (found: Option<&str>)
    ensures
        match found {
            Some(text) => json_text(*value) == Some(text@),
            None => json_text(*value) is None,
        },
{
    value.as_str()
}

/// Calls `serde_json::Value::as_u64`. The contract claims that the number
/// depends on the value alone.
#[verifier::external_body]
fn value_as_u64(value: &Value) -> (found: Option<u64>)
    ensures
        found == json_number(*value),
{
    value.as_u64()
}

/// Calls `serde_json::Value::as_bool`. The contract claims that the truth
/// value depends on the value alone.
#[verifier::external_body]
fn value_as_bool(value: &Value) -> (found: Option<bool>)
    ensures
        found == json_flag(*value),
{
    value.as_bool()
}

/// Calls `serde_json::Value::as_array`. The contract claims that the elements
/// depend on the value alone.
#[verifier::external_body]
pub(crate) fn value_as_array(value: &Value) -> (found: Option<&Vec<Value>>)
    ensures
        match found {
            Some(list) => json_elements(*value) == Some(list@),
            None => json_elements(*value) is None,
        },
{
    value.as_array()
}

/// The text of the member called `key`.
pub open spec fn text_at(value: Value, key: Seq<char>) -> Option<Seq<char>> {
    match json_member(value, key) {
        Some(member) => json_text(member),
        None => None,
    }
}

/// The number in the member called `key`.
pub open spec fn number_at(value: Value, key: Seq<char>) -> Option<u64> {
    match json_member(value, key) {
        Some(member) => json_number(member),
        None => None,
    }
}

/// The truth value in the member called `key`.
pub open spec fn flag_at(value: Value, key: Seq<char>) -> Option<bool> {
    match json_member(value, key) {
        Some(member) => json_flag(member),
        None => None,
    }
}

/// The elements of the member called `key`.
pub open spec fn elements_at(value: Value, key: Seq<char>) -> Option<Seq<Value>> {
    match json_member(value, key) {
        Some(member) => json_elements(member),
        None => None,
    }
}

/// The text of the member called `key`.
pub fn member_text<'a>(value: &'a Value, key: &str) -> (found: Option<&'a str>)
    ensures
        match found {
            Some(text) => text_at(*value, key@) == Some(text@),
            None => text_at(*value, key@) is None,
        },
{
    match value_get(value, key) {
        Some(member) => value_as_str(member),
        None => None,
    }
}

/// The number in the member called `key`.
pub fn member_number(value: &Value, key: &str) -> (found: Option<u64>)
    ensures
        found == number_at(*value, key@),
{
    match value_get(value, key) {
        Some(member) => value_as_u64(member),
        None => None,
    }
}

/// The truth value in the member called `key`.
pub fn member_flag(value: &Value, key: &str) -> (found: Option<bool>)
    ensures
        found == flag_at(*value, key@),
{
    match value_get(value, key) {
        Some(member) => value_as_bool(member),
        None => None,
    }
}

/// The elements of the member called `key`.
pub fn member_elements<'a>(value: &'a Value, key: &str) -> (found: Option<&'a Vec<Value>>)
    ensures
        match found {
            Some(list) => elements_at(*value, key@) == Some(list@),
            None => elements_at(*value, key@) is None,
        },
{
    match value_get(value, key) {
        Some(member) => value_as_array(member),
        None => None,
    }
}

} // verus!
