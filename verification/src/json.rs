//! JSON values, built with `serde_json`.
use crate::text::digits;
use serde_json::Value;
use vstd::prelude::*;

verus! {

/// What a JSON value holds.
pub enum Json {
    Null,
    Flag(bool),
    Count(u64),
    /// A floating point number, by its IEEE 754 bits.
    Float(u64),
    Text(Seq<char>),
    List(Seq<Json>),
    Object(Map<Seq<char>, Json>),
}

/// A JSON value.
#[verifier::external_type_specification]
#[verifier::external_body]
pub struct ExValue(serde_json::Value);

/// The fields of a JSON object.
#[verifier::external_type_specification]
#[verifier::external_body]
#[verifier::reject_recursive_types(K)]
#[verifier::reject_recursive_types(V)]
pub struct ExMap<K, V>(serde_json::Map<K, V>);

/// What `value` holds.
pub uninterp spec fn json_of(value: serde_json::Value) -> Json;

/// The fields that `object` holds, by their keys.
pub uninterp spec fn fields_of(
    object: serde_json::Map<String, serde_json::Value>,
) -> Map<Seq<char>, Json>;

/// No field at all.
pub open spec fn no_fields() -> Map<Seq<char>, Json> {
    map![]
}

/// The IEEE 754 bits of the double that `serde_json` reads from the decimal `text`.
pub uninterp spec fn double_bits(text: Seq<char>) -> u64;

/// Whether `text` writes `whole` over ten to the power `places`, and that is neither too large
/// nor, where it is not zero, too small to be a normal double.
pub open spec fn is_number(text: Seq<char>, whole: nat, places: nat) -> bool {
    &&& text == digits(whole) + "e-"@ + digits(places)
    &&& digits(whole).len() <= places + 300
    &&& places <= digits(whole).len() + 300
    &&& digits(whole).len() <= 600
}

/// The value null: `Value::Null`.
#[verifier::external_body]
pub(crate) fn json_null() -> (value: Value)
    ensures
        json_of(value) == Json::Null,
{
    Value::Null
}

/// A boolean, by `Value::from`: the value holds it.
#[verifier::external_body]
pub(crate) fn json_flag(flag: bool) -> (value: Value)
    ensures
        json_of(value) == Json::Flag(flag),
{
    Value::from(flag)
}

/// A non-negative integer, by `Value::from`: the value holds it.
#[verifier::external_body]
pub(crate) fn json_count(count: u64) -> (value: Value)
    ensures
        json_of(value) == Json::Count(count),
{
    Value::from(count)
}

/// A string, by `Value::from`: the value holds it.
#[verifier::external_body]
pub(crate) fn json_text(text: &str) -> (value: Value)
    ensures
        json_of(value) == Json::Text(text@),
{
    Value::from(text)
}

/// A floating point number, read from a decimal by `serde_json::from_str`.
///
/// A number that is neither too large nor too small is always read, as the double that is named
/// [`double_bits`]; which double that is is left unsaid.
#[verifier::external_body]
pub(crate) fn json_double(text: &str) -> (value: Option<Value>)
    requires
        exists|whole: nat, places: nat| is_number(text@, whole, places),
    ensures
        value matches Some(value) && json_of(value) == Json::Float(double_bits(text@)),
{
    serde_json::from_str(text).ok()
}

/// A list, by `Value::from`: the value holds what the items hold, in their order.
#[verifier::external_body]
pub(crate) fn json_list(items: Vec<Value>) -> (value: Value)
    ensures
        json_of(value) == Json::List(items@.map_values(|item: Value| json_of(item))),
{
    Value::from(items)
}

/// An object, by `Value::from`: the value holds its fields.
#[verifier::external_body]
pub(crate) fn json_object(object: serde_json::Map<String, Value>) -> (value: Value)
    ensures
        json_of(value) == Json::Object(fields_of(object)),
{
    Value::from(object)
}

/// An object without a field, by `serde_json::Map::new`.
#[verifier::external_body]
pub(crate) fn new_object() -> (object: serde_json::Map<String, Value>)
    ensures
        fields_of(object) == no_fields(),
{
    serde_json::Map::new()
}

/// Sets the field `key`, by `serde_json::Map::insert`. The others stay as they are.
#[verifier::external_body]
pub(crate) fn insert(object: &mut serde_json::Map<String, Value>, key: &str, value: Value)
    ensures
        fields_of(*final(object)) == fields_of(*old(object)).insert(key@, json_of(value)),
{
    object.insert(key.to_owned(), value);
}

} // verus!
