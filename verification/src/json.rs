//! The part of `serde_json` that the library works with, and the model of JSON
//! that contracts speak of.

use vstd::prelude::*;

use crate::text;

verus! {

/// A JSON value, as contracts see it.
pub enum Json {
    Null,
    Bool(bool),
    /// A number, by the text that writes it.
    Number(Seq<char>),
    Text(Seq<char>),
    Array(Seq<Json>),
    Object(Map<Seq<char>, Json>),
}

/// `serde_json::Value`, a JSON value of any kind.
#[verifier::external_type_specification]
#[verifier::external_body]
pub struct ExValue(serde_json::Value);

/// `serde_json::Map`, the members of a JSON object.
#[verifier::external_type_specification]
#[verifier::external_body]
#[verifier::reject_recursive_types(K)]
#[verifier::reject_recursive_types(V)]
pub struct ExObject<K, V>(serde_json::Map<K, V>);

/// `serde_json::Error`, the reason why a text is no JSON of the wanted shape.
#[verifier::external_type_specification]
#[verifier::external_body]
pub struct ExJsonError(serde_json::Error);

/// What a `serde_json::Value` holds.
pub uninterp spec fn content(value: serde_json::Value) -> Json;

/// What a `serde_json::Map` holds: the value of each of its keys.
pub uninterp spec fn members(object: serde_json::Map<String, serde_json::Value>) -> Map<
    Seq<char>,
    Json,
>;

/// The text that a `serde_json::Error` displays.
pub uninterp spec fn json_error_message(error: serde_json::Error) -> Seq<char>;

/// The members of an object that has none.
pub open spec fn no_members() -> Map<Seq<char>, Json> {
    Map::empty()
}

/// The members of an object that may be absent.
pub open spec fn optional_members(
    object: Option<serde_json::Map<String, serde_json::Value>>,
) -> Option<Map<Seq<char>, Json>> {
    match object {
        Some(object) => Some(members(object)),
        None => None,
    }
}

/// What the values of a list hold.
pub open spec fn json_list(values: Seq<serde_json::Value>) -> Seq<Json> {
    values.map_values(|value: serde_json::Value| content(value))
}

/// A JSON array of texts.
pub open spec fn text_array(list: Seq<Seq<char>>) -> Json {
    Json::Array(list.map_values(|text: Seq<char>| Json::Text(text)))
}

/// `serde_json::Map::new` makes an object without members.
#[verifier::external_body]
pub(crate) fn new_object() -> (object: serde_json::Map<String, serde_json::Value>)
    ensures
        members(object) == no_members(),
{
    serde_json::Map::new()
}

/// `serde_json::Map::insert` puts the value under the key; a value that stood
/// there before is gone.
#[verifier::external_body]
pub(crate) fn insert(
    object: &mut serde_json::Map<String, serde_json::Value>,
    key: String,
    value: serde_json::Value,
)
    ensures
        members(*final(object)) == members(*old(object)).insert(key@, content(value)),
{
    object.insert(key, value);
}

/// `serde_json::Map::remove` takes the key out, with its value.
#[verifier::external_body]
pub(crate) fn remove(object: &mut serde_json::Map<String, serde_json::Value>, key: &str)
    ensures
        members(*final(object)) == members(*old(object)).remove(key@),
{
    object.remove(key);
}

/// `serde_json::Map::contains_key` tells whether an object has a member.
#[verifier::external_body]
pub(crate) fn has_member(object: &serde_json::Map<String, serde_json::Value>, key: &str) -> (found:
    bool)
    ensures
        found == members(*object).dom().contains(key@),
{
    object.contains_key(key)
}

/// `serde_json::Map::is_empty` tells whether an object has no members.
#[verifier::external_body]
pub(crate) fn is_empty(object: &serde_json::Map<String, serde_json::Value>) -> (empty: bool)
    ensures
        empty == (members(*object) == no_members()),
{
    object.is_empty()
}

/// `clone` of `serde_json::Map` makes an object with the same members.
#[verifier::external_body]
pub(crate) fn clone_object(object: &serde_json::Map<String, serde_json::Value>) -> (copy:
    serde_json::Map<String, serde_json::Value>)
    ensures
        members(copy) == members(*object),
{
    object.clone()
}

/// `clone` of `serde_json::Value` makes a value that holds the same.
#[verifier::external_body]
pub(crate) fn clone_value(value: &serde_json::Value) -> (copy: serde_json::Value)
    ensures
        content(copy) == content(*value),
{
    value.clone()
}

/// `serde_json::Value::String` makes a text of a `String`.
#[verifier::external_body]
pub(crate) fn text_value(text: String) -> (value: serde_json::Value)
    ensures
        content(value) == Json::Text(text@),
{
    serde_json::Value::String(text)
}

/// `serde_json::Value::Array` makes an array of a `Vec`, in its order.
#[verifier::external_body]
pub(crate) fn array_value(values: Vec<serde_json::Value>) -> (value: serde_json::Value)
    ensures
        content(value) == Json::Array(json_list(values@)),
{
    serde_json::Value::Array(values)
}

/// `serde_json::Value::Object` makes an object of a `serde_json::Map`.
#[verifier::external_body]
pub(crate) fn object_value(object: serde_json::Map<String, serde_json::Value>) -> (value:
    serde_json::Value)
    ensures
        content(value) == Json::Object(members(object)),
{
    serde_json::Value::Object(object)
}

/// `to_string` of `serde_json::Error` gives the text that the error displays.
#[verifier::external_body]
pub(crate) fn json_error_text(error: &serde_json::Error) -> (text: String)
    ensures
        text@ == json_error_message(*error),
{
    error.to_string()
}

/// A JSON array of the texts of a list, in its order.
pub fn json_string_array(list: &[String]) -> (value: serde_json::Value)
    ensures
        content(value) == text_array(text::texts(list@)),
{
    let mut values: Vec<serde_json::Value> = Vec::new();
    let mut i: usize = 0;
    while i < list.len()
        invariant
            i <= list@.len(),
            values@.len() == i,
            forall|k: int| 0 <= k < i ==> content(#[trigger] values@[k]) == Json::Text(list@[k]@),
        decreases list@.len() - i,
    {
        values.push(text_value(list[i].clone()));
        i += 1;
    }
    assert(json_list(values@) =~= text::texts(list@).map_values(
        |text: Seq<char>| Json::Text(text),
    ));
    array_value(values)
}

} // verus!
