//! JSON objects as `serde_json` reads, changes and writes them.

use vstd::prelude::*;

use crate::text::decimal;

verus! {

/// A JSON value. A number is the text that it is written as.
pub enum Json {
    Null,
    Bool(bool),
    Number(Seq<char>),
    Text(Seq<char>),
    List(Seq<Json>),
    Object(Map<Seq<char>, Json>),
}

/// The values of `serde_json`.
#[verifier::external_type_specification]
#[verifier::external_body]
pub struct ExJsonValue(serde_json::Value);

/// The objects of `serde_json`.
#[verifier::external_type_specification]
#[verifier::external_body]
#[verifier::reject_recursive_types(K)]
#[verifier::reject_recursive_types(V)]
pub struct ExJsonMap<K, V>(serde_json::Map<K, V>);

/// The members of an object.
pub uninterp spec fn members(object: serde_json::Map<String, serde_json::Value>) -> Map<
    Seq<char>,
    Json,
>;

/// The object that a member is, where it is one.
pub open spec fn object_at(members: Map<Seq<char>, Json>, name: Seq<char>) -> Option<
    Map<Seq<char>, Json>,
> {
    if members.contains_key(name) {
        match members[name] {
            Json::Object(inner) => Some(inner),
            _ => None,
        }
    } else {
        None
    }
}

/// The text that a member is, where it is one.
pub open spec fn text_at(members: Map<Seq<char>, Json>, name: Seq<char>) -> Option<Seq<char>> {
    if members.contains_key(name) {
        match members[name] {
            Json::Text(text) => Some(text),
            _ => None,
        }
    } else {
        None
    }
}

/// The members of the object that some bytes are, where they are one.
pub uninterp spec fn object_in(bytes: Seq<u8>) -> Option<Map<Seq<char>, Json>>;

/// An object as it is written.
pub uninterp spec fn object_bytes(members: Map<Seq<char>, Json>) -> Seq<u8>;

/// An object without members, by `serde_json::Map::new`.
#[verifier::external_body]
pub(crate) fn new_object() -> (object: serde_json::Map<String, serde_json::Value>)
    ensures
        (members(object) == Map::<Seq<char>, Json>::empty()),
{
    serde_json::Map::new()
}

/// Reads an object by `serde_json::from_slice`. Other values and what is no JSON give nothing.
/// Which bytes are an object, and of which members, is left to the name.
#[verifier::external_body]
pub(crate) fn read_object(bytes: &[u8]) -> (object: Option<
    serde_json::Map<String, serde_json::Value>,
>)
    ensures
        match object {
            Some(object) => object_in(bytes@) == Some(members(object)),
            None => object_in(bytes@) is None,
        },
{
    match serde_json::from_slice::<serde_json::Value>(bytes) {
        Ok(serde_json::Value::Object(object)) => Some(object),
        _ => None,
    }
}

/// Writes an object by `serde_json::to_vec`, which does not fail on members with texts as names.
/// How the members are written is left to the name.
#[verifier::external_body]
pub(crate) fn write_object(object: &serde_json::Map<String, serde_json::Value>) -> (bytes: Option<
    Vec<u8>,
>)
    ensures
        bytes is Some,
        bytes->0@ == object_bytes(members(*object)),
{
    serde_json::to_vec(object).ok()
}

/// Sets a member to a text, by `serde_json::Map::insert`: a member of that name is replaced.
#[verifier::external_body]
pub(crate) fn insert_text(
    object: &mut serde_json::Map<String, serde_json::Value>,
    name: &str,
    text: &str,
)
    ensures
        members(*final(object)) == members(*old(object)).insert(name@, Json::Text(text@)),
{
    object.insert(name.to_owned(), serde_json::Value::String(text.to_owned()));
}

/// Sets a member to a number, by `serde_json::Map::insert`: a member of that name is replaced.
#[verifier::external_body]
pub(crate) fn insert_number(
    object: &mut serde_json::Map<String, serde_json::Value>,
    name: &str,
    number: u64,
)
    ensures
        members(*final(object)) == members(*old(object)).insert(
            name@,
            Json::Number(decimal(number as nat)),
        ),
{
    object.insert(name.to_owned(), serde_json::Value::from(number));
}

/// Sets a member to an object, by `serde_json::Map::insert`: a member of that name is replaced.
#[verifier::external_body]
pub(crate) fn insert_object(
    object: &mut serde_json::Map<String, serde_json::Value>,
    name: &str,
    inner: serde_json::Map<String, serde_json::Value>,
)
    ensures
        members(*final(object)) == members(*old(object)).insert(
            name@,
            Json::Object(members(inner)),
        ),
{
    object.insert(name.to_owned(), serde_json::Value::Object(inner));
}

/// The member of a name, by `serde_json::Map::get`, where it is an object.
#[verifier::external_body]
pub(crate) fn object_member<'a>(
    object: &'a serde_json::Map<String, serde_json::Value>,
    name: &str,
) -> (inner: Option<&'a serde_json::Map<String, serde_json::Value>>)
    ensures
        match inner {
            Some(inner) => object_at(members(*object), name@) == Some(members(*inner)),
            None => object_at(members(*object), name@) is None,
        },
{
    object.get(name).and_then(serde_json::Value::as_object)
}

/// The member of a name, by `serde_json::Map::get`, where it is a text.
#[verifier::external_body]
pub(crate) fn text_member(
    object: &serde_json::Map<String, serde_json::Value>,
    name: &str,
) -> (text: Option<String>)
    ensures
        match text {
            Some(text) => text_at(members(*object), name@) == Some(text@),
            None => text_at(members(*object), name@) is None,
        },
{
    object.get(name).and_then(serde_json::Value::as_str).map(str::to_owned)
}

} // verus!
