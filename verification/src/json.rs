//! JSON objects with text members, as the enrolment protocol sends them.

use vstd::prelude::*;

verus! {

/// `serde_json::Map`, the members of a JSON object.
#[verifier::external_type_specification]
#[verifier::external_body]
#[verifier::reject_recursive_types(K)]
#[verifier::reject_recursive_types(V)]
pub struct ExJsonMap<K, V>(serde_json::Map<K, V>);

/// `serde_json::Value`, any JSON value.
#[verifier::external_type_specification]
#[verifier::external_body]
pub struct ExJsonValue(serde_json::Value);

/// The members of a JSON object whose values are strings: each key with its
/// text.
pub uninterp spec fn text_members(
    object: serde_json::Map<String, serde_json::Value>,
) -> Map<Seq<char>, Seq<char>>;

/// No members at all.
pub open spec fn no_members() -> Map<Seq<char>, Seq<char>> {
    Map::empty()
}

/// `serde_json::Map::new`: an object without members.
#[verifier::external_body]
pub(crate) fn empty_object() -> (object: serde_json::Map<String, serde_json::Value>)
    ensures
        text_members(object) == no_members(),
{
    serde_json::Map::new()
}

/// `serde_json::Map::insert` of a string value: afterwards the key has that
/// text, whatever it had before, and every other member is as it was.
#[verifier::external_body]
pub(crate) fn insert_text(
    object: &mut serde_json::Map<String, serde_json::Value>,
    key: &str,
    text: String,
)
    ensures
        text_members(*final(object)) == text_members(*old(object)).insert(key@, text@),
{
    object.insert(key.to_string(), serde_json::Value::String(text));
}

/// The object with the single member `key`, whose value is `text`.
pub fn object_with(key: &str, text: String) -> (object: serde_json::Map<String, serde_json::Value>)
    ensures
        text_members(object) == no_members().insert(key@, text@),
{
    let mut object = empty_object();
    insert_text(&mut object, key, text);
    object
}

} // verus!
