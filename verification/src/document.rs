//! JSON documents: `serde_json` values, what they hold, and how one is read
//! and built.
use serde_json::Value;
use vstd::prelude::*;

verus! {

/// What a JSON value holds.
pub enum Json {
    Null,
    Bool(bool),
    /// A number from zero to the largest `u64`.
    Unsigned(u64),
    /// Any other number: negative, or with a fraction or an exponent.
    Numeral,
    Text(Seq<char>),
    List(Seq<Json>),
    Object(Map<Seq<char>, Json>),
}

/// `serde_json::Value`: any JSON value, seen only through [`json`].
#[verifier::external_type_specification]
#[verifier::external_body]
pub struct ExValue(serde_json::Value);

/// What `value` holds.
pub uninterp spec fn json(value: Value) -> Json;

pub open spec fn list_of(values: Seq<Value>) -> Seq<Json> {
    Seq::new(values.len(), |i: int| json(values[i]))
}

/// The member of an object called `name`; null where there is none, and in a
/// value that is no object.
pub open spec fn member(document: Json, name: Seq<char>) -> Json {
    match document {
        Json::Object(members) => if members.contains_key(name) {
            members[name]
        } else {
            Json::Null
        },
        _ => Json::Null,
    }
}

/// The text of the member called `name`, empty where that is no text.
pub open spec fn text_of(document: Json, name: Seq<char>) -> Seq<char> {
    match member(document, name) {
        Json::Text(text) => text,
        _ => Seq::empty(),
    }
}

/// `Value` indexed by a name: the member of that name, or null.
#[verifier::external_body]
pub(crate) fn at<'a>(document: &'a Value, name: &str) -> (found: &'a Value)
    ensures
        json(*found) == member(json(*document), name@),
{
    &document[name]
}

/// `Value::as_str`: the text of a value that is one.
#[verifier::external_body]
pub(crate) fn as_text(value: &Value) -> (text: Option<&str>)
    ensures
        match text {
            Some(text) => json(*value) == Json::Text(text@),
            None => !(json(*value) is Text),
        },
{
    value.as_str()
}

/// `Value::as_u64`: the number of a value that a `u64` holds.
#[verifier::external_body]
pub(crate) fn as_unsigned(value: &Value) -> (number: Option<u64>)
    ensures
        match number {
            Some(number) => json(*value) == Json::Unsigned(number),
            None => !(json(*value) is Unsigned),
        },
{
    value.as_u64()
}

/// `Value::as_array`: the items of a value that is an array, in order.
#[verifier::external_body]
pub(crate) fn as_list(value: &Value) -> (items: Option<&Vec<Value>>)
    ensures
        match items {
            Some(items) => json(*value) == Json::List(list_of(items@)),
            None => !(json(*value) is List),
        },
{
    value.as_array()
}

/// `Value::from` on text: a JSON string of the same characters.
#[verifier::external_body]
pub(crate) fn text_value(text: &str) -> (value: Value)
    ensures
        json(value) == Json::Text(text@),
{
    Value::from(text)
}

/// `Value::from` on a `u64`: a JSON number.
#[verifier::external_body]
pub(crate) fn unsigned_value(number: u64) -> (value: Value)
    ensures
        json(value) == Json::Unsigned(number),
{
    Value::from(number)
}

/// `Value::from` on a vector: a JSON array of the same items in order.
#[verifier::external_body]
pub(crate) fn list_value(items: Vec<Value>) -> (value: Value)
    ensures
        json(value) == Json::List(list_of(items@)),
{
    Value::from(items)
}

/// `serde_json::Map::new`, as a value: an object without members.
#[verifier::external_body]
pub(crate) fn empty_object() -> (value: Value)
    ensures
        json(value) == Json::Object(Map::empty()),
{
    Value::from(serde_json::Map::new())
}

/// Assignment through `Value` indexed by a name: the object gains the member,
/// or the member it had by that name is replaced. Indexing for assignment
/// panics on a value that is neither an object nor null.
#[verifier::external_body]
pub(crate) fn put_member(document: &mut Value, name: &str, value: Value)
    requires
        json(*old(document)) is Object,
    ensures
        json(*final(document)) == Json::Object(
            json(*old(document))->Object_0.insert(name@, json(value)),
        ),
{
    document[name] = value;
}

/// The text of the member called `name`, empty where that is no text.
pub fn field<'a>(document: &'a Value, name: &str) -> (text: &'a str)
    ensures
        text@ == text_of(json(*document), name@),
{
    match as_text(at(document, name)) {
        Some(text) => text,
        None => {
            proof {
                reveal_strlit("");
            }
            ""
        },
    }
}

/// The text of the member called `name`, as a string of its own.
pub fn text(document: &Value, name: &str) -> (text: String)
    ensures
        text@ == text_of(json(*document), name@),
{
    field(document, name).to_owned()
}

} // verus!
