//! What a JSON value holds, and the few operations of `serde_json` that build and read one.

use vstd::prelude::*;

verus! {

/// What a JSON value holds.
///
/// Two values that hold the same are the same JSON, whatever the order in which the members of an
/// object were written.
pub enum Json {
    Null,
    Bool(bool),
    /// A whole number of 64 bits, signed or unsigned.
    Whole(int),
    /// Any other number, by the text that it is written as.
    Decimal(Seq<char>),
    Text(Seq<char>),
    List(Seq<Json>),
    Object(Map<Seq<char>, Json>),
}

impl Json {
    /// The member of an object under `key`; nothing else has members.
    pub open spec fn member(self, key: Seq<char>) -> Option<Json> {
        match self {
            Json::Object(members) => if members.dom().contains(key) {
                Some(members[key])
            } else {
                None
            },
            _ => None,
        }
    }

    /// The text of a JSON string.
    pub open spec fn text(self) -> Option<Seq<char>> {
        match self {
            Json::Text(text) => Some(text),
            _ => None,
        }
    }

    /// The text of the member under `key`, where there is one and it is a string.
    pub open spec fn text_member(self, key: Seq<char>) -> Option<Seq<char>> {
        match self.member(key) {
            Some(value) => value.text(),
            None => None,
        }
    }
}

/// `serde_json::Value`, a JSON value.
#[verifier::external_type_specification]
#[verifier::external_body]
pub struct ExJsonValue(serde_json::Value);

/// `serde_json::Error`, why a text is not JSON.
#[verifier::external_type_specification]
#[verifier::external_body]
pub struct ExJsonError(serde_json::Error);

/// What `value` holds.
pub uninterp spec fn json_of(value: serde_json::Value) -> Json;

/// What the text `body` holds when `serde_json::from_slice` reads it as a JSON value, or `None`
/// when it is no JSON.
pub uninterp spec fn json_read(body: Seq<u8>) -> Option<Json>;

/// Calls `serde_json::from_slice`: reads `body` as one JSON value. Which texts are JSON and what
/// they hold is the business of `serde_json`, and goes by the name `json_read`; which of its errors
/// comes is left unsaid.
#[verifier::external_body]
pub(crate) fn read_json(body: &[u8]) -> (result: Result<serde_json::Value, serde_json::Error>)
    ensures
        match result {
            Ok(value) => json_read(body@) == Some(json_of(value)),
            Err(_) => json_read(body@) is None,
        },
{
    serde_json::from_slice(body)
}

/// Calls `serde_json::Value::get` with a string: the member under `key`, if `value` is an object
/// and has one.
#[verifier::external_body]
pub(crate) fn json_member<'a>(value: &'a serde_json::Value, key: &str) -> (member: Option<
    &'a serde_json::Value,
>)
    ensures
        match member {
            Some(found) => json_of(*value).member(key@) == Some(json_of(*found)),
            None => json_of(*value).member(key@) is None,
        },
{
    value.get(key)
}

/// Calls `serde_json::Value::as_str`: the text, if `value` is a string.
#[verifier::external_body]
pub(crate) fn json_as_text(value: &serde_json::Value) -> (text: Option<&str>)
    ensures
        match text {
            Some(found) => json_of(*value).text() == Some(found@),
            None => json_of(*value).text() is None,
        },
{
    value.as_str()
}

/// Calls `<serde_json::Value as From<&str>>::from`: the JSON string that holds `text`.
#[verifier::external_body]
pub(crate) fn json_text(text: &str) -> (value: serde_json::Value)
    ensures
        json_of(value) == Json::Text(text@),
{
    serde_json::Value::from(text)
}

/// Calls `<serde_json::Value as From<i32>>::from`: the JSON number `number`.
#[verifier::external_body]
pub(crate) fn json_i32(number: i32) -> (value: serde_json::Value)
    ensures
        json_of(value) == Json::Whole(number as int),
{
    serde_json::Value::from(number)
}

/// Calls `<serde_json::Value as From<u64>>::from`: the JSON number `number`.
#[verifier::external_body]
pub(crate) fn json_u64(number: u64) -> (value: serde_json::Value)
    ensures
        json_of(value) == Json::Whole(number as int),
{
    serde_json::Value::from(number)
}

/// Calls `serde_json::Map::new`: the object without members.
#[verifier::external_body]
pub(crate) fn json_object() -> (value: serde_json::Value)
    ensures
        json_of(value) == Json::Object(Map::empty()),
{
    serde_json::Value::Object(serde_json::Map::new())
}

/// Assigns through `<serde_json::Value as IndexMut<&str>>::index_mut`, which finds the member of an
/// object under `key`, or makes one: `object` is left with `member` under `key` and otherwise as it
/// was. On a value that is neither an object nor null the index panics.
#[verifier::external_body]
pub(crate) fn json_set(object: &mut serde_json::Value, key: &str, member: serde_json::Value)
    requires
        json_of(*old(object)) is Object,
    ensures
        json_of(*final(object)) == Json::Object(
            json_of(*old(object))->Object_0.insert(key@, json_of(member)),
        ),
{
    object[key] = member;
}

} // verus!
