//! The JSON reader that manifests are decoded with.
//!
//! Reading JSON is left to `serde_json`. Nothing in this module is proved:
//! it states what the library takes for granted of that crate, over a plain
//! model of what a JSON value holds.

use vstd::prelude::*;

verus! {

/// A JSON value as `serde_json` holds it.
#[verifier::external_type_specification]
#[verifier::external_body]
pub struct ExValue(serde_json::Value);

/// Why `serde_json` could not read a text.
#[verifier::external_type_specification]
#[verifier::external_body]
pub struct ExError(serde_json::Error);

/// What a JSON value holds, as far as a manifest is concerned: texts, lists
/// and objects are told apart; nulls, booleans and numbers are not.
pub enum Json {
    /// A string.
    Text(Seq<char>),
    /// An array, with its elements in order.
    List(Seq<Json>),
    /// An object, with the value of each of its keys.
    Object(Map<Seq<char>, Json>),
    /// A null, a boolean or a number.
    Other,
}

/// What the value `value` holds: the text of a string, the elements of an
/// array, the value under each key of an object.
pub uninterp spec fn json_of(value: serde_json::Value) -> Json;

/// What `serde_json::from_slice` reads out of `body`: what the one JSON
/// value holds that `body` is the text of, and nothing where it is not.
pub uninterp spec fn json_parsed(body: Seq<u8>) -> Option<Json>;

/// `serde_json::from_slice` at the type `serde_json::Value`. Whether a body
/// is accepted, and what the value then holds, depends on the bytes alone;
/// no more than that is claimed here.
#[verifier::external_body]
pub(crate) fn from_slice(body: &[u8]) -> (read: Result<serde_json::Value, serde_json::Error>)
    ensures
        match read {
            Ok(value) => json_parsed(body@) == Some(json_of(value)),
            Err(_) => json_parsed(body@) is None,
        },
{
    serde_json::from_slice::<serde_json::Value>(body)
}

/// `serde_json::Value::get` with a string for its index: the value under
/// the key `key` where `value` is an object that has this key, and nothing
/// for any other value.
#[verifier::external_body]
pub(crate) fn member<'a>(value: &'a serde_json::Value, key: &str) -> (found: Option<
    &'a serde_json::Value,
>)
    ensures
        match found {
            Some(under_key) => json_of(*value) matches Json::Object(fields) && fields.contains_key(
                key@,
            ) && fields[key@] == json_of(*under_key),
            None => !(json_of(*value) matches Json::Object(fields) && fields.contains_key(key@)),
        },
{
    value.get(key)
}

/// `serde_json::Value::as_array`: the elements of an array, and nothing for
/// any other value.
pub assume_specification<'a>[ serde_json::Value::as_array ](value: &'a serde_json::Value) -> (items:
    Option<&'a Vec<serde_json::Value>>)
    ensures
        match items {
            Some(items) => json_of(*value) == Json::List(
                items@.map_values(|item: serde_json::Value| json_of(item)),
            ),
            None => !(json_of(*value) is List),
        },
;

/// `serde_json::Value::as_str`: the text of a string, and nothing for any
/// other value.
pub assume_specification<'a>[ serde_json::Value::as_str ](value: &'a serde_json::Value) -> (text:
    Option<&'a str>)
    ensures
        match text {
            Some(text) => json_of(*value) == Json::Text(text@),
            None => !(json_of(*value) is Text),
        },
;

} // verus!
