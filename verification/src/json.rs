//! JSON documents as `serde_json` reads them. A `serde_json::Value` is
//! opaque to the verifier; [`Json`] is the document it holds, and the
//! functions below say what `serde_json`'s accessors return in terms of it.

use serde_json::Value;
use vstd::prelude::*;

verus! {

/// `serde_json::Value`, carried through as it is.
#[verifier::external_type_specification]
#[verifier::external_body]
pub struct ExJsonValue(serde_json::Value);

/// `serde_json::Error`, carried through as it is.
#[verifier::external_type_specification]
#[verifier::external_body]
pub struct ExJsonError(serde_json::Error);

/// A JSON document.
pub ghost enum Json {
    Null,
    Bool(bool),
    /// A number. `unsigned` is its value where it is written as a whole
    /// number from 0 to `u64::MAX`, and `None` for any other number.
    Number { unsigned: Option<u64> },
    Text(Seq<char>),
    Array(Seq<Json>),
    Object(Map<Seq<char>, Json>),
}

impl Json {
    /// The member `key` of an object, `None` for anything else.
    pub open spec fn member(self, key: Seq<char>) -> Option<Json> {
        match self {
            Json::Object(members) => if members.contains_key(key) {
                Some(members[key])
            } else {
                None
            },
            _ => None,
        }
    }

    /// The text of a string, `None` for anything else.
    pub open spec fn text(self) -> Option<Seq<char>> {
        match self {
            Json::Text(text) => Some(text),
            _ => None,
        }
    }

    /// The value of a number written as a whole number from 0 to `u64::MAX`,
    /// `None` for anything else.
    pub open spec fn unsigned(self) -> Option<u64> {
        match self {
            Json::Number { unsigned } => unsigned,
            _ => None,
        }
    }

    /// The elements of an array, `None` for anything else.
    pub open spec fn items(self) -> Option<Seq<Json>> {
        match self {
            Json::Array(items) => Some(items),
            _ => None,
        }
    }
}

/// The document that a `serde_json::Value` holds.
pub uninterp spec fn json_view(value: Value) -> Json;

/// The documents that a run of values hold, in order.
pub open spec fn json_views(values: Seq<Value>) -> Seq<Json> {
    values.map_values(|value: Value| json_view(value))
}

/// The document that `text` parses to, `None` where it is not one JSON
/// document.
pub uninterp spec fn json_parsed(text: Seq<char>) -> Option<Json>;

/// `serde_json::from_str` at type `Value`: a value holding the document that
/// the text parses to, or the parser's error where the text is not one JSON
/// document.
#[verifier::external_body]
pub(crate) fn parse_json(text: &str) -> (parsed: Result<Value, serde_json::Error>)
    ensures
        match parsed {
            Ok(value) => json_parsed(text@) == Some(json_view(value)),
            Err(_) => json_parsed(text@) is None,
        },
{
    serde_json::from_str::<Value>(text)
}

/// `Value::get` with a string index: the member of that name where the value
/// is an object that has one, `None` otherwise.
#[verifier::external_body]
pub(crate) fn member<'a>(value: &'a Value, key: &str) -> (found: Option<&'a Value>)
    ensures
        match found {
            Some(inner) => json_view(*value).member(key@) == Some(json_view(*inner)),
            None => json_view(*value).member(key@) is None,
        },
{
    value.get(key)
}

/// `Value::as_str`: the text where the value is a string, `None` otherwise.
#[verifier::external_body]
pub(crate) fn text_of<'a>(value: &'a Value) -> (text: Option<&'a str>)
    ensures
        match text {
            Some(inner) => json_view(*value).text() == Some(inner@),
            None => json_view(*value).text() is None,
        },
{
    value.as_str()
}

/// `Value::as_u64`: the number where the value is a number written as a
/// whole number from 0 to `u64::MAX`, `None` otherwise.
#[verifier::external_body]
pub(crate) fn unsigned_of(value: &Value) -> (number: Option<u64>)
    ensures
        number == json_view(*value).unsigned(),
{
    value.as_u64()
}

/// `Value::as_array`: the elements where the value is an array, `None`
/// otherwise.
#[verifier::external_body]
pub(crate) fn items_of<'a>(value: &'a Value) -> (items: Option<&'a Vec<Value>>)
    ensures
        match items {
            Some(inner) => json_view(*value).items() == Some(json_views(inner@)),
            None => json_view(*value).items() is None,
        },
{
    value.as_array()
}

} // verus!
