//! JSON documents as the `serde_json` crate reads them.
//!
//! Parsing is left to `serde_json`. Nothing in this module is proved: it
//! states what the library relies on. A parsed value stays a
//! `serde_json::Value`; what it holds is described by [`JsonDoc`], and the
//! functions below say how `serde_json`'s accessors read it.
use vstd::prelude::*;

verus! {

/// `serde_json::Value`, a parsed JSON value. Nothing is known of it but
/// what the functions of this module say.
#[verifier::external_type_specification]
#[verifier::external_body]
pub struct ExJsonValue(serde_json::Value);

/// `serde_json::Error`, the failure of a parse. Nothing is known of it but
/// its message.
#[verifier::external_type_specification]
#[verifier::external_body]
pub struct ExJsonError(serde_json::Error);

/// What a JSON value holds.
///
/// A number is kept as the `i64` it denotes, or as `None` when it is a
/// fraction or lies outside the range of `i64`. An object maps each of its
/// keys to one value: a `serde_json::Value` does not show whether the text
/// it was parsed from held a key more than once.
pub enum JsonDoc {
    Null,
    Bool(bool),
    Number(Option<i64>),
    Text(Seq<char>),
    Array(Seq<JsonDoc>),
    Object(Map<Seq<char>, JsonDoc>),
}

/// The contents of a `serde_json::Value`.
pub uninterp spec fn json_contents(value: serde_json::Value) -> JsonDoc;

/// The message that a `serde_json::Error` displays.
pub uninterp spec fn json_error_text(error: serde_json::Error) -> Seq<char>;

/// What `serde_json::from_str` makes of a text when it is asked for a
/// `serde_json::Value`: the contents of the value, or the message of the
/// error.
pub uninterp spec fn json_parse(text: Seq<char>) -> Result<JsonDoc, Seq<char>>;

/// Calls `serde_json::from_str::<serde_json::Value>`.
///
/// Trusted: the outcome depends on the text alone, and is the one that
/// [`json_parse`] names.
#[verifier::external_body]
pub(crate) fn parse_json(text: &str) -> (parsed: Result<serde_json::Value, serde_json::Error>)
    ensures
        match parsed {
            Ok(value) => json_parse(text@) == Ok::<JsonDoc, Seq<char>>(json_contents(value)),
            Err(error) => json_parse(text@) == Err::<JsonDoc, Seq<char>>(json_error_text(error)),
        },
{
    serde_json::from_str::<serde_json::Value>(text)
}

/// Calls `ToString::to_string` on a `serde_json::Error`.
///
/// Trusted: the string is the message that the error displays.
#[verifier::external_body]
pub(crate) fn json_error_message(error: &serde_json::Error) -> (message: String)
    ensures
        message@ == json_error_text(*error),
{
    error.to_string()
}

/// Calls `serde_json::Value::get` with a string key.
///
/// Trusted: the result is the member of that name when the value is an
/// object that has one, and `None` in every other case.
#[verifier::external_body]
pub(crate) fn json_member<'a>(value: &'a serde_json::Value, key: &str) -> (member: Option<
    &'a serde_json::Value,
>)
    ensures
        match member {
            Some(found) => json_contents(*value) matches JsonDoc::Object(fields)
                && fields.contains_key(key@) && fields[key@] == json_contents(*found),
            None => !(json_contents(*value) matches JsonDoc::Object(fields) && fields.contains_key(
                key@,
            )),
        },
{
    value.get(key)
}

/// Trusted: `serde_json::Value::is_object` tells whether the value is a
/// JSON object.
pub assume_specification[ serde_json::Value::is_object ](value: &serde_json::Value) -> (yes: bool)
    ensures
        yes == (json_contents(*value) is Object),
;

/// Trusted: `serde_json::Value::as_str` hands out the text of a JSON
/// string, and `None` for any other value.
pub assume_specification<'a>[ serde_json::Value::as_str ](value: &'a serde_json::Value) -> (text:
    Option<&'a str>)
    ensures
        match text {
            Some(s) => json_contents(*value) == JsonDoc::Text(s@),
            None => !(json_contents(*value) is Text),
        },
;

/// Trusted: `serde_json::Value::as_i64` hands out the integer that a JSON
/// number denotes when it is one that fits `i64`, and `None` for any other
/// value.
pub assume_specification[ serde_json::Value::as_i64 ](value: &serde_json::Value) -> (number:
    Option<i64>)
    ensures
        match number {
            Some(n) => json_contents(*value) == JsonDoc::Number(Some(n)),
            None => !(json_contents(*value) matches JsonDoc::Number(Some(_))),
        },
;

/// Trusted: `serde_json::Value::as_array` hands out the elements of a JSON
/// array, in order, and `None` for any other value.
pub assume_specification<'a>[ serde_json::Value::as_array ](value: &'a serde_json::Value) -> (items:
    Option<&'a Vec<serde_json::Value>>)
    ensures
        match items {
            Some(list) => json_contents(*value) == JsonDoc::Array(
                list@.map_values(|item: serde_json::Value| json_contents(item)),
            ),
            None => !(json_contents(*value) is Array),
        },
;

} // verus!
