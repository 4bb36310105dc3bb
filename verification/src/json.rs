//! Reading a JSON value of the `serde_json` crate.

use vstd::prelude::*;

use crate::float_bits::Double;

verus! {

/// `serde_json::Value`: a JSON value.
#[verifier::external_type_specification]
#[verifier::external_body]
pub struct ExValue(serde_json::Value);

/// `serde_json::Map`: the members of a JSON object.
#[verifier::external_type_specification]
#[verifier::external_body]
#[verifier::reject_recursive_types(K)]
#[verifier::reject_recursive_types(V)]
pub struct ExJsonMap<K, V>(serde_json::Map<K, V>);

/// What a JSON value holds, as far as the player reads it.
pub enum JsonContents {
    Null,
    Text(Seq<char>),
    /// A number, with the double that stands for it where there is one.
    Number(Option<Double>),
    Object(Map<Seq<char>, serde_json::Value>),
    /// A boolean or an array.
    Other,
}

/// What a JSON value holds.
pub uninterp spec fn json_contents(value: serde_json::Value) -> JsonContents;

/// The members of a JSON object by their names.
pub uninterp spec fn json_members(
    object: serde_json::Map<String, serde_json::Value>,
) -> Map<Seq<char>, serde_json::Value>;

/// `serde_json::Value::is_null`: true of `Value::Null` alone.
pub assume_specification[ serde_json::Value::is_null ](value: &serde_json::Value) -> (result: bool)
    ensures
        result == (json_contents(*value) is Null),
;

/// `serde_json::Value::as_str`: the text of a string, nothing for any other value.
pub assume_specification[ serde_json::Value::as_str ](value: &serde_json::Value) -> (result: Option<
    &str,
>)
    ensures
        result matches Some(text) ==> json_contents(*value) == JsonContents::Text(text@),
        result is None ==> !(json_contents(*value) is Text),
;

/// `serde_json::Value::as_object`: the members of an object, nothing for any other
/// value.
pub assume_specification[ serde_json::Value::as_object ](value: &serde_json::Value) -> (result:
    Option<&serde_json::Map<String, serde_json::Value>>)
    ensures
        result matches Some(object) ==> json_contents(*value) == JsonContents::Object(
            json_members(*object),
        ),
        result is None ==> !(json_contents(*value) is Object),
;

/// `serde_json::Map::get`: the member of that name, if the object has one.
#[verifier::external_body]
pub(crate) fn member<'a>(
    object: &'a serde_json::Map<String, serde_json::Value>,
    name: &str,
) -> (result: Option<&'a serde_json::Value>)
    ensures
        result matches Some(value) ==> json_members(*object).dom().contains(name@)
            && json_members(*object)[name@] == *value,
        result is None ==> !json_members(*object).dom().contains(name@),
{
    object.get(name)
}

/// `serde_json::Value::as_f64`: the double for a number, by its bit pattern, and
/// nothing for any other value.
#[verifier::external_body]
pub(crate) fn number(value: &serde_json::Value) -> (result: Option<Double>)
    ensures
        json_contents(*value) matches JsonContents::Number(double) ==> result == double,
        !(json_contents(*value) is Number) ==> result is None,
{
    value.as_f64().map(|double| Double { bits: double.to_bits() })
}

} // verus!
