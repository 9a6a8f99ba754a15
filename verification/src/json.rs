//! JSON documents, built and printed by `serde_json`.
//!
//! A document is modelled by [`Json`]. The functions below put a document
//! together from `serde_json`'s own values and say what the result stands for.

use vstd::prelude::*;
use crate::text::decimal;

verus! {

/// What a JSON value stands for. A number is given by its text; an object has
/// no order of its own.
pub enum Json {
    Null,
    Bool(bool),
    Number(Seq<char>),
    Text(Seq<char>),
    List(Seq<Json>),
    Object(Map<Seq<char>, Json>),
}

/// What an object maps each of its keys to.
pub type Fields = Map<Seq<char>, Json>;

/// `serde_json`'s dynamic value.
#[verifier::external_type_specification]
#[verifier::external_body]
pub struct ExValue(serde_json::Value);

/// `serde_json`'s map from keys to values.
#[verifier::external_type_specification]
#[verifier::external_body]
#[verifier::reject_recursive_types(K)]
#[verifier::reject_recursive_types(V)]
pub struct ExMap<K, V>(serde_json::Map<K, V>);

/// `serde_json`'s error.
#[verifier::external_type_specification]
#[verifier::external_body]
pub struct ExError(serde_json::Error);

/// What a `serde_json` value stands for.
pub uninterp spec fn json_of(value: serde_json::Value) -> Json;

/// What each of several `serde_json` values stands for.
pub open spec fn all_of(values: Seq<serde_json::Value>) -> Seq<Json> {
    values.map_values(|v: serde_json::Value| json_of(v))
}

/// What a `serde_json` map holds.
pub uninterp spec fn object_of(
    map: serde_json::Map<String, serde_json::Value>,
) -> Fields;

/// The text of a document, over several lines and indented.
pub uninterp spec fn pretty_text(document: Json) -> Seq<char>;

/// `serde_json::Value::Null`.
#[verifier::external_body]
pub(crate) fn null() -> (r: serde_json::Value)
    ensures
        json_of(r) == Json::Null,
{
    serde_json::Value::Null
}

/// `serde_json::Value::from` on a truth value.
#[verifier::external_body]
pub(crate) fn boolean(b: bool) -> (r: serde_json::Value)
    ensures
        json_of(r) == Json::Bool(b),
{
    serde_json::Value::from(b)
}

/// `serde_json::Value::from` on an unsigned integer.
#[verifier::external_body]
pub(crate) fn integer(n: u64) -> (r: serde_json::Value)
    ensures
        json_of(r) == Json::Number(decimal(n as nat)),
{
    serde_json::Value::from(n)
}

/// `serde_json::Value::from` on a string.
#[verifier::external_body]
pub(crate) fn string(s: &str) -> (r: serde_json::Value)
    ensures
        json_of(r) == Json::Text(s@),
{
    serde_json::Value::from(s)
}

/// `serde_json::Value::Array` of the given values, in their order.
#[verifier::external_body]
pub(crate) fn list(items: Vec<serde_json::Value>) -> (r: serde_json::Value)
    ensures
        json_of(r) == Json::List(all_of(items@)),
{
    serde_json::Value::Array(items)
}

/// `serde_json::Map::new`: a map without entries.
#[verifier::external_body]
pub(crate) fn new_map() -> (r: serde_json::Map<String, serde_json::Value>)
    ensures
        object_of(r) == Fields::empty(),
{
    serde_json::Map::new()
}

/// `serde_json::Map::insert`: the key has the given value afterwards, in place
/// of the one it had; the other keys keep theirs.
#[verifier::external_body]
pub(crate) fn put(
    map: &mut serde_json::Map<String, serde_json::Value>,
    key: &str,
    value: serde_json::Value,
)
    ensures
        object_of(*final(map)) == object_of(*old(map)).insert(key@, json_of(value)),
{
    let _ = map.insert(key.to_string(), value);
}

/// `serde_json::Value::Object` of the given map.
#[verifier::external_body]
pub(crate) fn object(map: serde_json::Map<String, serde_json::Value>) -> (r: serde_json::Value)
    ensures
        json_of(r) == Json::Object(object_of(map)),
{
    serde_json::Value::Object(map)
}

/// `serde_json::to_string_pretty` of a value. What is claimed is that there is
/// always a text, since a value is written into memory and its keys are strings,
/// and that the document alone decides it; how the text looks is left unsaid.
#[verifier::external_body]
pub(crate) fn print(value: &serde_json::Value) -> (r: Result<String, serde_json::Error>)
    ensures
        r is Ok,
        r matches Ok(text) ==> text@ == pretty_text(json_of(*value)),
{
    serde_json::to_string_pretty(value)
}

/// The text of a document.
pub(crate) fn render(value: &serde_json::Value) -> (r: String)
    ensures
        r@ == pretty_text(json_of(*value)),
{
    print(value).unwrap()
}

} // verus!
