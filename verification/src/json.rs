//! Rows travel as JSON values. This module is the whole of what the
//! library takes on trust about them: one function per `serde_json` call,
//! each with the contract that Verus is asked to believe.

use vstd::prelude::*;

verus! {

/// `serde_json::Value`. Verus sees nothing inside it: what a value holds
/// is known only through the three names below.
#[verifier::external_type_specification]
#[verifier::external_body]
pub struct ExValue(serde_json::Value);

/// The member found under `key`: what `Value::get` returns for a string
/// index. `None` when the value is not an object or has no such member.
pub uninterp spec fn json_member(value: serde_json::Value, key: Seq<char>) -> Option<
    serde_json::Value,
>;

/// The text a value holds: what `Value::as_str` returns. `None` for
/// anything but a JSON string.
pub uninterp spec fn json_text(value: serde_json::Value) -> Option<Seq<char>>;

/// The integer a value holds: what `Value::as_i64` returns. `None` for
/// anything but a number that is an integer in the range of `i64`.
pub uninterp spec fn json_integer(value: serde_json::Value) -> Option<i64>;

/// Whether one of `fields` is named `key`.
pub open spec fn names(fields: Seq<(String, serde_json::Value)>, key: Seq<char>) -> bool {
    exists|i: int| 0 <= i < fields.len() && (#[trigger] fields[i]).0@ == key
}

/// `serde_json::Value::get` with a string index. Assumed: the result is
/// the member that `json_member` names, and `None` exactly when it names
/// none.
#[verifier::external_body]
pub(crate) fn member<'a>(value: &'a serde_json::Value, key: &str) -> (found: Option<
    &'a serde_json::Value,
>)
    ensures
        found matches Some(v) ==> json_member(*value, key@) == Some(*v),
        found is None ==> json_member(*value, key@) is None,
{
    value.get(key)
}

/// `serde_json::Value::as_str`. Assumed: the result is the text that
/// `json_text` names, and `None` exactly when it names none.
#[verifier::external_body]
pub(crate) fn text<'a>(value: &'a serde_json::Value) -> (found: Option<&'a str>)
    ensures
        found matches Some(s) ==> json_text(*value) == Some(s@),
        found is None ==> json_text(*value) is None,
{
    value.as_str()
}

/// `serde_json::Value::as_i64`. Assumed: the result is the integer that
/// `json_integer` names.
#[verifier::external_body]
pub(crate) fn integer(value: &serde_json::Value) -> (found: Option<i64>)
    ensures
        found == json_integer(*value),
{
    value.as_i64()
}

/// `Value::from` on a string slice, which makes a JSON string. Assumed:
/// `as_str` on the result gives the same text back.
#[verifier::external_body]
pub(crate) fn text_value(text: &str) -> (value: serde_json::Value)
    ensures
        json_text(value) == Some(text@),
{
    serde_json::Value::from(text)
}

/// `Value::from` on an `i64`, which makes a JSON number. Assumed: `as_i64`
/// on the result gives the same integer back.
#[verifier::external_body]
pub(crate) fn integer_value(number: i64) -> (value: serde_json::Value)
    ensures
        json_integer(value) == Some(number),
{
    serde_json::Value::from(number)
}

/// `Value::from_iter` on name–value pairs, which makes a JSON object. It
/// is called with names that differ from one another only. Assumed: `get`
/// on the result finds each field's value under the field's name, and
/// nothing under a name that no field has.
#[verifier::external_body]
pub(crate) fn object_value(fields: Vec<(String, serde_json::Value)>) -> (value: serde_json::Value)
    requires
        forall|i: int, j: int| 0 <= i < j < fields.len() ==> fields[i].0@ != fields[j].0@,
    ensures
        forall|i: int|
            0 <= i < fields.len() ==> json_member(value, (#[trigger] fields[i]).0@) == Some(
                fields[i].1,
            ),
        forall|key: Seq<char>|
            !names(fields@, key) ==> #[trigger] json_member(value, key) is None,
{
    serde_json::Value::from_iter(fields)
}

} // verus!
