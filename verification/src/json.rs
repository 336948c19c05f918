//! JSON documents, held as `serde_json::Value` and read through contracts.
//!
//! Verification does not look inside `serde_json`. Each function of that crate that the
//! codec calls has a wrapper here, and the wrapper's contract states over the model
//! [`Json`] what the function does. Those contracts are believed, not proved; they hold
//! of `serde_json` as this crate builds it, without its `preserve_order` and
//! `arbitrary_precision` features.

use vstd::prelude::*;

verus! {

/// `serde_json::Value`, of which verification sees nothing but [`json_model`].
#[verifier::external_type_specification]
#[verifier::external_body]
pub struct ExValue(serde_json::Value);

/// `serde_json::Error`. The library reads nothing from it.
#[verifier::external_type_specification]
#[verifier::external_body]
pub struct ExError(serde_json::Error);

/// The mathematical model of a JSON document. Two values of `serde_json::Value`
/// have the same model exactly when they hold the same document.
pub enum Json {
    Null,
    Bool(bool),
    /// A number held as an integer from 0 to 2^64 - 1.
    Unsigned(u64),
    /// A number held as an integer below 0.
    Negative(i64),
    /// A number held in binary floating point, by the 64 bits that stand for it.
    Real(u64),
    Text(Seq<char>),
    List(Seq<Json>),
    /// An object. A key occurs once, and the members have no order of their own.
    Object(Map<Seq<char>, Json>),
}

/// The document that a `serde_json::Value` holds.
pub uninterp spec fn json_model(value: serde_json::Value) -> Json;

/// The document that a JSON text denotes, as `serde_json::from_slice` reads it;
/// `None` for bytes that it does not accept.
pub uninterp spec fn json_parse(text: Seq<u8>) -> Option<Json>;

/// The text that `serde_json::to_vec` writes for a document; `None` where it fails.
pub uninterp spec fn json_render(document: Json) -> Option<Seq<u8>>;

/// Calls `serde_json::from_slice` at the type `serde_json::Value`.
///
/// Believed: whether the bytes are accepted, and the document read from them,
/// depend on the bytes alone. [`json_parse`] names that outcome.
#[verifier::external_body]
pub(crate) fn parse(text: &[u8]) -> (parsed: Result<serde_json::Value, serde_json::Error>)
    ensures
        match parsed {
            Ok(value) => json_parse(text@) == Some(json_model(value)),
            Err(_) => json_parse(text@) is None,
        },
{
    serde_json::from_slice::<serde_json::Value>(text)
}

/// Calls `serde_json::to_vec` on a `serde_json::Value`.
///
/// Believed: whether it succeeds, and the bytes written, depend on the document
/// alone; the members of an object are written in the order of their keys.
/// [`json_render`] names that outcome.
#[verifier::external_body]
pub(crate) fn render(document: &serde_json::Value) -> (rendered: Result<
    Vec<u8>,
    serde_json::Error,
>)
    ensures
        match rendered {
            Ok(text) => json_render(json_model(*document)) == Some(text@),
            Err(_) => json_render(json_model(*document)) is None,
        },
{
    serde_json::to_vec(document)
}

/// Calls `serde_json::Value::is_object`.
///
/// Believed: it tells whether the value is an object.
#[verifier::external_body]
pub(crate) fn is_object(value: &serde_json::Value) -> (yes: bool)
    ensures
        yes == (json_model(*value) is Object),
{
    value.is_object()
}

/// Calls `serde_json::Value::get` with a string as the index.
///
/// Believed: in an object it finds the member with that key, if there is one;
/// in any other value it finds nothing.
#[verifier::external_body]
pub(crate) fn member<'a>(value: &'a serde_json::Value, key: &str) -> (found: Option<
    &'a serde_json::Value,
>)
    ensures
        match found {
            Some(inner) => {
                &&& json_model(*value) matches Json::Object(members)
                &&& members.contains_key(key@)
                &&& members[key@] == json_model(*inner)
            },
            None => !(json_model(*value) matches Json::Object(members) && members.contains_key(
                key@,
            )),
        },
{
    value.get(key)
}

/// Calls `serde_json::Value::as_str`.
///
/// Believed: it yields the content of a string, and nothing for any other value.
#[verifier::external_body]
pub(crate) fn text_of<'a>(value: &'a serde_json::Value) -> (text: Option<&'a str>)
    ensures
        match text {
            Some(content) => json_model(*value) == Json::Text(content@),
            None => !(json_model(*value) is Text),
        },
{
    value.as_str()
}

/// Calls `serde_json::Value::as_u64`.
///
/// Believed: it yields the number where the value holds one as an integer from
/// 0 to 2^64 - 1, and nothing for any other value.
#[verifier::external_body]
pub(crate) fn unsigned_of(value: &serde_json::Value) -> (number: Option<u64>)
    ensures
        match number {
            Some(n) => json_model(*value) == Json::Unsigned(n),
            None => !(json_model(*value) is Unsigned),
        },
{
    value.as_u64()
}

/// Calls `serde_json::Value::from` on a `u64`.
///
/// Believed: the value is the number, held as an unsigned integer.
#[verifier::external_body]
pub(crate) fn unsigned_value(number: u64) -> (value: serde_json::Value)
    ensures
        json_model(value) == Json::Unsigned(number),
{
    serde_json::Value::from(number)
}

/// Calls `serde_json::Value::from` on a `String`.
///
/// Believed: the value is the string.
#[verifier::external_body]
pub(crate) fn text_value(text: String) -> (value: serde_json::Value)
    ensures
        json_model(value) == Json::Text(text@),
{
    serde_json::Value::from(text)
}

/// Calls `serde_json::Map::new` and wraps the map as `serde_json::Value::Object`.
///
/// Believed: the value is an object without members.
#[verifier::external_body]
pub(crate) fn empty_object() -> (value: serde_json::Value)
    ensures
        json_model(value) == Json::Object(Map::empty()),
{
    serde_json::Value::Object(serde_json::Map::new())
}

/// Assigns through `serde_json::Value`'s `IndexMut`, with a string as the index.
///
/// Believed: in an object the key is bound to the new member, which takes the
/// place of a member that had the key. On a value that is neither an object nor
/// null the outside code panics; null is left out here as well.
#[verifier::external_body]
pub(crate) fn set_member(document: &mut serde_json::Value, key: &str, member: serde_json::Value)
    requires
        json_model(*old(document)) is Object,
    ensures
        json_model(*final(document)) == Json::Object(
            json_model(*old(document))->Object_0.insert(key@, json_model(member)),
        ),
{
    document[key] = member;
}

} // verus!
