//! A mathematical model of JSON documents, and the `serde_json` calls that
//! read and build them.

use vstd::prelude::*;

verus! {

/// A JSON number, as `serde_json` tells numbers apart: the integers that it
/// keeps exactly, and all the other numbers.
pub enum JsonNumber {
    /// An integer between `i64::MIN` and `u64::MAX`.
    Integer(int),
    /// A number that is kept as a floating-point value.
    Real,
}

/// The content of a JSON document.
pub enum Json {
    Null,
    Bool(bool),
    Number(JsonNumber),
    Text(Seq<char>),
    Array(Seq<Json>),
    Object(Map<Seq<char>, Json>),
}

/// `serde_json::Value`, the crate's JSON value. Nothing of its inside is
/// assumed here: what it holds is [`json_of`].
#[verifier::external_type_specification]
#[verifier::external_body]
pub struct ExValue(serde_json::Value);

/// `serde_json::Error`, the crate's error. It is only passed on.
#[verifier::external_type_specification]
#[verifier::external_body]
pub struct ExJsonError(serde_json::Error);

/// The document that a `serde_json::Value` holds.
pub uninterp spec fn json_of(value: serde_json::Value) -> Json;

/// The document that `serde_json` reads from the bytes of `body`, if they
/// are one JSON document.
pub uninterp spec fn json_document(body: Seq<u8>) -> Option<Json>;

/// The documents that the items of a `serde_json` array hold.
pub open spec fn items_of(items: Seq<serde_json::Value>) -> Seq<Json> {
    items.map_values(|item: serde_json::Value| json_of(item))
}

/// `serde_json::from_slice::<Value>`: a value that holds the document where
/// the bytes are one JSON document, the crate's error where they are not.
#[verifier::external_body]
pub(crate) fn parse_document(body: &[u8]) -> (r: Result<serde_json::Value, serde_json::Error>)
    ensures
        r matches Ok(value) ==> json_document(body@) == Some(json_of(value)),
        r is Err ==> json_document(body@) is None,
{
    serde_json::from_slice::<serde_json::Value>(body)
}

/// `Value::get` with a string key: the member of that name where the value
/// is an object that has one, `None` for any other value.
#[verifier::external_body]
pub(crate) fn member<'a>(value: &'a serde_json::Value, name: &str) -> (r: Option<
    &'a serde_json::Value,
>)
    ensures
        r matches Some(found) ==> json_of(*value) matches Json::Object(members)
            && members.contains_key(name@) && members[name@] == json_of(*found),
        r is None ==> !(json_of(*value) matches Json::Object(members) && members.contains_key(
            name@,
        )),
{
    value.get(name)
}

/// `Value::as_str`: the text of a JSON string, `None` for any other value.
#[verifier::external_body]
pub(crate) fn as_text<'a>(value: &'a serde_json::Value) -> (r: Option<&'a str>)
    ensures
        r matches Some(text) ==> json_of(*value) == Json::Text(text@),
        r is None ==> !(json_of(*value) is Text),
{
    value.as_str()
}

/// `Value::as_u64`: the number where the value is an integer from zero to
/// `u64::MAX`, `None` for any other value.
#[verifier::external_body]
pub(crate) fn as_unsigned(value: &serde_json::Value) -> (r: Option<u64>)
    ensures
        r matches Some(n) ==> json_of(*value) == Json::Number(JsonNumber::Integer(n as int)),
        r is None ==> !(json_of(*value) matches Json::Number(JsonNumber::Integer(n)) && 0 <= n
            <= u64::MAX),
{
    value.as_u64()
}

/// `Value::as_i64`: the number where the value is an integer from
/// `i64::MIN` to `i64::MAX`, `None` for any other value.
#[verifier::external_body]
pub(crate) fn as_signed(value: &serde_json::Value) -> (r: Option<i64>)
    ensures
        r matches Some(n) ==> json_of(*value) == Json::Number(JsonNumber::Integer(n as int)),
        r is None ==> !(json_of(*value) matches Json::Number(JsonNumber::Integer(n)) && i64::MIN
            <= n <= i64::MAX),
{
    value.as_i64()
}

/// `Value::as_array`: the items of a JSON array in their order, `None` for
/// any other value.
#[verifier::external_body]
pub(crate) fn as_items<'a>(value: &'a serde_json::Value) -> (r: Option<
    &'a Vec<serde_json::Value>,
>)
    ensures
        r matches Some(items) ==> json_of(*value) == Json::Array(items_of(items@)),
        r is None ==> !(json_of(*value) is Array),
{
    value.as_array()
}

/// The members of the JSON object that the bytes of `text` are, as they
/// are written: each with its name and the JSON text of its value, in the
/// order of the text, a name as often as the text has it.
pub uninterp spec fn json_members(text: Seq<u8>) -> Option<Seq<(Seq<char>, Seq<u8>)>>;

/// The JSON texts of the items of the JSON array that the bytes of `text`
/// are, in their order.
pub uninterp spec fn json_elements(text: Seq<u8>) -> Option<Seq<Seq<u8>>>;

/// The names and value texts of written members, as plain values.
pub open spec fn member_views(members: Seq<(String, Vec<u8>)>) -> Seq<(Seq<char>, Seq<u8>)> {
    members.map_values(|m: (String, Vec<u8>)| (m.0@, m.1@))
}

/// The value texts of written items, as plain values.
pub open spec fn element_views(elements: Seq<Vec<u8>>) -> Seq<Seq<u8>> {
    elements.map_values(|e: Vec<u8>| e@)
}

/// `serde_json::from_slice` into the pairs that `serde_with::Map` collects
/// from a JSON object, with `serde_json::value::RawValue` for the values:
/// the members as they are written where the bytes are one JSON object,
/// the crate's error where they are not.
#[verifier::external_body]
pub(crate) fn written_members(text: &[u8]) -> (r: Result<Vec<(String, Vec<u8>)>, serde_json::Error>)
    ensures
        r matches Ok(members) ==> json_members(text@) == Some(member_views(members@)),
        r is Err ==> json_members(text@) is None,
{
    serde_json::from_slice::<
        serde_with::de::DeserializeAsWrap<
            Vec<(String, Box<serde_json::value::RawValue>)>,
            serde_with::Map<serde_with::Same, serde_with::Same>,
        >,
    >(text).map(
        |pairs| pairs.into_inner().into_iter().map(|(n, v)| (n, v.get().as_bytes().to_vec())).collect(),
    )
}

/// `serde_json::from_slice` into a vector of
/// `serde_json::value::RawValue`: the texts of the items where the bytes
/// are one JSON array, the crate's error where they are not.
#[verifier::external_body]
pub(crate) fn written_elements(text: &[u8]) -> (r: Result<Vec<Vec<u8>>, serde_json::Error>)
    ensures
        r matches Ok(elements) ==> json_elements(text@) == Some(element_views(elements@)),
        r is Err ==> json_elements(text@) is None,
{
    serde_json::from_slice::<Vec<Box<serde_json::value::RawValue>>>(text).map(
        |items| items.into_iter().map(|v| v.get().as_bytes().to_vec()).collect(),
    )
}

/// No two members of a list have the same name.
pub open spec fn distinct_names(members: Seq<(String, serde_json::Value)>) -> bool {
    forall|i: int, j: int|
        0 <= i < j < members.len() ==> (#[trigger] members[i]).0@ != (#[trigger] members[j]).0@
}

/// A name is the name of a member of a list.
pub open spec fn names(members: Seq<(String, serde_json::Value)>, name: Seq<char>) -> bool {
    exists|i: int| 0 <= i < members.len() && (#[trigger] members[i]).0@ == name
}

/// `Value::from(&str)`: the JSON string of a text.
#[verifier::external_body]
pub(crate) fn text_value(text: &str) -> (value: serde_json::Value)
    ensures
        json_of(value) == Json::Text(text@),
{
    serde_json::Value::from(text)
}

/// `Value::from(u64)`: the JSON number of an unsigned integer.
#[verifier::external_body]
pub(crate) fn unsigned_value(n: u64) -> (value: serde_json::Value)
    ensures
        json_of(value) == Json::Number(JsonNumber::Integer(n as int)),
{
    serde_json::Value::from(n)
}

/// `Value::from(i64)`: the JSON number of a signed integer.
#[verifier::external_body]
pub(crate) fn signed_value(n: i64) -> (value: serde_json::Value)
    ensures
        json_of(value) == Json::Number(JsonNumber::Integer(n as int)),
{
    serde_json::Value::from(n)
}

/// `Value::Array`: the JSON array of the items, in their order.
#[verifier::external_body]
pub(crate) fn array_value(items: Vec<serde_json::Value>) -> (value: serde_json::Value)
    ensures
        json_of(value) == Json::Array(items_of(items@)),
{
    serde_json::Value::Array(items)
}

/// A document is the object that has exactly the members of a list.
pub open spec fn object_of(document: Json, members: Seq<(String, serde_json::Value)>) -> bool {
    &&& document matches Json::Object(object)
    &&& forall|name: Seq<char>| object.contains_key(name) <==> names(members, name)
    &&& forall|i: int|
        0 <= i < members.len() ==> object[(#[trigger] members[i]).0@] == json_of(members[i].1)
}

/// `Value::Object` of the map that the members are collected into: the JSON
/// object that has exactly these members.
#[verifier::external_body]
pub(crate) fn object_value(members: Vec<(String, serde_json::Value)>) -> (value: serde_json::Value)
    requires
        distinct_names(members@),
    ensures
        object_of(json_of(value), members@),
{
    serde_json::Value::Object(members.into_iter().collect())
}

} // verus!
