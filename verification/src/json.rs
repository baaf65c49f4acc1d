//! JSON values, as far as the session layer looks into them. Parsing and writing are
//! left to `serde_json`: this module declares its types and states, without proof, what
//! the calls return.

use serde_json::Value;
use vstd::prelude::*;

verus! {

#[verifier::external_type_specification]
#[verifier::external_body]
pub struct ExValue(serde_json::Value);

#[verifier::external_type_specification]
#[verifier::external_body]
pub struct ExError(serde_json::Error);

#[verifier::external_type_specification]
#[verifier::external_body]
#[verifier::reject_recursive_types(K)]
#[verifier::reject_recursive_types(V)]
pub struct ExObject<K, V>(serde_json::Map<K, V>);

/// The arguments of a request: a JSON object.
pub type ObsMessageArguments = serde_json::Map<String, Value>;

/// The value that `text` holds as JSON, where it holds one.
pub uninterp spec fn json_document(text: Seq<char>) -> Option<Value>;

/// The member `key` of `value`, where `value` is an object that has such a member.
pub uninterp spec fn json_member(value: Value, key: Seq<char>) -> Option<Value>;

/// The text of `value`, where `value` is a string.
pub uninterp spec fn json_text(value: Value) -> Option<Seq<char>>;

/// The truth value of `value`, where `value` is a boolean.
pub uninterp spec fn json_flag(value: Value) -> Option<bool>;

/// The JSON string with the text `text`.
pub uninterp spec fn json_string(text: Seq<char>) -> Value;

/// The members of `object`: each key with its value.
pub uninterp spec fn object_members(object: ObsMessageArguments) -> Map<Seq<char>, Value>;

/// The members of an object that has none.
pub open spec fn no_members() -> Map<Seq<char>, Value> {
    Map::empty()
}

/// The JSON text of the object with the members `members`, where it can be written.
pub uninterp spec fn object_text(members: Map<Seq<char>, Value>) -> Option<Seq<char>>;

/// Trusted: calls `serde_json::from_str` for a `Value`. The contract claims that the call
/// succeeds on the texts that hold JSON, and then returns the value that the text holds.
#[verifier::external_body]
pub(crate) fn parse_document(text: &str) -> (parsed: Result<Value, serde_json::Error>)
    ensures
        match parsed {
            Ok(value) => json_document(text@) == Some(value),
            Err(_) => json_document(text@) is None,
        },
{
    serde_json::from_str::<Value>(text)
}

/// Trusted: calls `serde_json::Value::get` with a string key. The contract claims that
/// the call returns the member under that key, and nothing where there is none.
#[verifier::external_body]
pub(crate) fn member<'a>(value: &'a Value, key: &str) -> (found: Option<&'a Value>)
    ensures
        match found {
            Some(inner) => json_member(*value, key@) == Some(*inner),
            None => json_member(*value, key@) is None,
        },
{
    value.get(key)
}

/// Trusted: calls `serde_json::Value::as_str`. The contract claims that the call returns
/// the text of a string, and nothing for any other value.
#[verifier::external_body]
pub(crate) fn text_of<'a>(value: &'a Value) -> (text: Option<&'a str>)
    ensures
        match text {
            Some(inner) => json_text(*value) == Some(inner@),
            None => json_text(*value) is None,
        },
{
    value.as_str()
}

/// Trusted: calls `serde_json::Value::as_bool`. The contract claims that the call returns
/// the truth value of a boolean, and nothing for any other value.
#[verifier::external_body]
pub(crate) fn flag_of(value: &Value) -> (flag: Option<bool>)
    ensures
        flag == json_flag(*value),
{
    value.as_bool()
}

/// Trusted: calls `serde_json::Value::from` on a `String`. The contract claims that the
/// call returns the JSON string with that text.
#[verifier::external_body]
pub(crate) fn string_value(text: String) -> (value: Value)
    ensures
        value == json_string(text@),
{
    Value::from(text)
}

/// Trusted: calls `serde_json::Map::new`. The contract claims that the object returned
/// has no members.
#[verifier::external_body]
pub(crate) fn empty_object() -> (object: ObsMessageArguments)
    ensures
        object_members(object) == no_members(),
{
    serde_json::Map::new()
}

/// Trusted: calls `serde_json::Map::insert`. The contract claims that afterwards the
/// object holds `value` under `key`, in place of what it held there, and its other
/// members as before.
#[verifier::external_body]
pub(crate) fn set_member(object: &mut ObsMessageArguments, key: String, value: Value)
    ensures
        object_members(*final(object)) == object_members(*old(object)).insert(key@, value),
{
    object.insert(key, value);
}

/// Trusted: calls `serde_json::to_string` on an object. The contract claims that whether
/// the call succeeds depends on the object's members alone, and that a text returned is
/// the JSON text of the object with those members.
#[verifier::external_body]
pub(crate) fn write_object(object: &ObsMessageArguments) -> (written: Result<
    String,
    serde_json::Error,
>)
    ensures
        match written {
            Ok(text) => object_text(object_members(*object)) == Some(text@),
            Err(_) => object_text(object_members(*object)) is None,
        },
{
    serde_json::to_string(object)
}

} // verus!
