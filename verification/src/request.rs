//! The request that opens a sibling room on the platform.
//!
//! The platform takes the properties of a new room as a JSON object. The
//! object is built with `serde_json`; [`json_fields`] names what such an
//! object holds, and [`room_request`] says which fields a sibling room gets.

use vstd::prelude::*;
use crate::text::decimal_string;
use crate::text::decimal;

verus! {

/// A JSON value, as far as a room request holds it. Nothing is known of a
/// value of it but through the functions of this module.
#[verifier::external_type_specification]
#[verifier::external_body]
pub struct ExJsonValue(serde_json::Value);

/// A JSON object. Nothing is known of a value of it but through the
/// functions of this module.
#[verifier::external_type_specification]
#[verifier::external_body]
#[verifier::reject_recursive_types(K)]
#[verifier::reject_recursive_types(V)]
pub struct ExJsonMap<K, V>(serde_json::Map<K, V>);

/// A JSON object with text keys.
pub type JsonObject = serde_json::Map<String, serde_json::Value>;

/// What a JSON value of a room request holds.
pub enum JsonField {
    /// A number that is not negative.
    Number(u64),
    /// A string.
    Text(Seq<char>),
}

/// What `value` holds, where it was made by the functions of this module.
pub uninterp spec fn json_value(value: serde_json::Value) -> JsonField;

/// The fields of `object` that were put there by the functions of this
/// module, by key.
pub uninterp spec fn json_fields(object: serde_json::Map<String, serde_json::Value>) -> Map<
    Seq<char>,
    JsonField,
>;

/// `serde_json::Value::from` for a `u64`: the JSON number `n`.
#[verifier::external_body]
fn json_number(n: u64) -> (value: serde_json::Value)
    ensures
        json_value(value) == JsonField::Number(n),
{
    serde_json::Value::from(n)
}

/// `serde_json::Value::from` for a `&str`: the JSON string with the
/// characters of `text`.
#[verifier::external_body]
fn json_text(text: &str) -> (value: serde_json::Value)
    ensures
        json_value(value) == JsonField::Text(text@),
{
    serde_json::Value::from(text)
}

/// `serde_json::Map::new`: an object without fields.
#[verifier::external_body]
fn json_new() -> (object: JsonObject)
    ensures
        (json_fields(object) == Map::<Seq<char>, JsonField>::empty()),
{
    serde_json::Map::new()
}

/// `serde_json::Map::insert`: afterwards the object holds `value` under
/// `key`, in place of what `key` held before, and is otherwise as before.
#[verifier::external_body]
fn json_insert(object: &mut JsonObject, key: String, value: serde_json::Value)
    ensures
        json_fields(*final(object)) == json_fields(*old(object)).insert(key@, json_value(value)),
{
    object.insert(key, value);
}

/// Puts the number `n` under `key`.
fn put_number(object: &mut JsonObject, key: &str, n: u64)
    ensures
        json_fields(*final(object)) == json_fields(*old(object)).insert(key@, JsonField::Number(n)),
{
    json_insert(object, key.to_owned(), json_number(n));
}

/// Puts the string `text` under `key`.
fn put_text(object: &mut JsonObject, key: &str, text: &str)
    ensures
        json_fields(*final(object)) == json_fields(*old(object)).insert(key@, JsonField::Text(text@)),
{
    json_insert(object, key.to_owned(), json_text(text));
}

/// The kind of room that the platform opens for a family: a room to talk
/// in.
pub const ROOM_KIND: u64 = 2;

/// The fields under which the platform opens a room: its kind and its
/// name; the category it stands in, as a decimal numeral, where it stands
/// in one; and the number of occupants it can hold, where something limits
/// them.
pub open spec fn room_fields(name: Seq<char>, category: Option<u64>, capacity: Option<u64>) -> Map<
    Seq<char>,
    JsonField,
> {
    let base = Map::<Seq<char>, JsonField>::empty().insert(
        "type"@,
        JsonField::Number(ROOM_KIND),
    ).insert("name"@, JsonField::Text(name));
    let placed = match category {
        Some(id) => base.insert("parent_id"@, JsonField::Text(decimal(id as nat))),
        None => base,
    };
    match capacity {
        Some(limit) => placed.insert("user_limit"@, JsonField::Number(limit)),
        None => placed,
    }
}

/// The request that opens a room named `name` in `category`, for at most
/// `capacity` occupants.
pub fn room_request(name: &str, category: Option<u64>, capacity: Option<u64>) -> (request: JsonObject)
    ensures
        json_fields(request) == room_fields(name@, category, capacity),
{
    let mut request = json_new();
    put_number(&mut request, "type", ROOM_KIND);
    put_text(&mut request, "name", name);
    match category {
        Some(id) => {
            let id_text = decimal_string(id);
            put_text(&mut request, "parent_id", id_text.as_str());
        },
        None => {},
    }
    match capacity {
        Some(limit) => {
            put_number(&mut request, "user_limit", limit);
        },
        None => {},
    }
    request
}

} // verus!
