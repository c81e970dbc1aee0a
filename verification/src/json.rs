//! Free-form JSON payloads carried through the library.
//!
//! Task inputs and outputs, event payloads and learning deltas are JSON
//! documents that the orchestration logic carries without inspecting.

use vstd::prelude::*;
use crate::text::opt_view;

verus! {

/// A JSON document (`serde_json::Value`), carried opaquely.
#[verifier::external_type_specification]
#[verifier::external_body]
pub struct ExJsonValue(serde_json::Value);

/// A serialization error (`serde_json::Error`).
#[verifier::external_type_specification]
#[verifier::external_body]
pub struct ExJsonError(serde_json::Error);

/// An I/O error (`std::io::Error`).
#[verifier::external_type_specification]
#[verifier::external_body]
pub struct ExIoError(std::io::Error);

/// `serde_json::Value` derives `Clone`: a clone is the same document.
pub assume_specification[ <serde_json::Value as Clone>::clone ](v: &serde_json::Value) -> (r:
    serde_json::Value)
    ensures
        r == *v,
;

/// The JSON `null` document (`serde_json::Value::Null`).
#[verifier::external_body]
pub fn json_null() -> (r: serde_json::Value) {
    serde_json::Value::Null
}

/// Whether a document is a JSON object.
pub uninterp spec fn json_object(v: serde_json::Value) -> bool;

/// Whether a document is a JSON object that has member `key`.
pub uninterp spec fn json_has_member(v: serde_json::Value, key: Seq<char>) -> bool;

/// The document `v` with member `key` set to the string `text`.
pub uninterp spec fn json_with_string(v: serde_json::Value, key: Seq<char>, text: Seq<char>) -> serde_json::Value;

/// Whether a document is an object (`Value::is_object`).
#[verifier::external_body]
pub fn json_is_object(v: &serde_json::Value) -> (r: bool)
    ensures
        r == json_object(*v),
{
    v.is_object()
}

/// Whether an object document has member `key` (`Map::contains_key` on the
/// object); `false` for a document that is not an object.
#[verifier::external_body]
pub fn json_member_present(v: &serde_json::Value, key: &str) -> (r: bool)
    ensures
        r == json_has_member(*v, key@),
        r ==> json_object(*v),
{
    v.as_object().map_or(false, |m| m.contains_key(key))
}

/// Set member `key` of an object document to a string (`Map::insert`); a
/// document that is not an object is left unchanged.
#[verifier::external_body]
pub fn json_set_string_member(v: &mut serde_json::Value, key: &str, text: &str)
    ensures
        json_object(*old(v)) ==> *final(v) == json_with_string(*old(v), key@, text@),
        !json_object(*old(v)) ==> *final(v) == *old(v),
        json_object(*old(v)) ==> json_object(*final(v)),
        json_object(*old(v)) ==> json_has_member(*final(v), key@),
{
    if let Some(m) = v.as_object_mut() {
        m.insert(key.to_string(), serde_json::Value::String(text.to_string()));
    }
}


/// The member `key` of an object document (`Value::get` with a string key).
pub uninterp spec fn json_member_of(v: serde_json::Value, key: Seq<char>) -> Option<serde_json::Value>;

/// A copy of member `key` of an object document (`Value::get`); `None` for a
/// document that is not an object or lacks the member.
#[verifier::external_body]
pub fn json_member(v: &serde_json::Value, key: &str) -> (r: Option<serde_json::Value>)
    ensures
        r == json_member_of(*v, key@),
{
    v.get(key).cloned()
}

/// The text of a string document (`Value::as_str`).
pub uninterp spec fn json_text_of(v: serde_json::Value) -> Option<Seq<char>>;

/// The text of a string document (`Value::as_str`); `None` for any other
/// document.
#[verifier::external_body]
pub fn json_text(v: &serde_json::Value) -> (r: Option<String>)
    ensures
        opt_view(r) == json_text_of(*v),
{
    v.as_str().map(str::to_owned)
}

/// The member names of an object document (`Map::keys`).
pub uninterp spec fn json_keys_of(v: serde_json::Value) -> Set<Seq<char>>;

/// The member names of an object document (`Value::as_object`, then
/// `Map::keys`), each once, in the map's order; none for a document that is
/// not an object.
#[verifier::external_body]
pub fn json_keys(v: &serde_json::Value) -> (r: Vec<String>)
    ensures
        texts(r@).to_set() == json_keys_of(*v),
        texts(r@).no_duplicates(),
{
    match v.as_object() {
        Some(o) => o.keys().cloned().collect(),
        None => Vec::new(),
    }
}

/// The items of an array document (`Value::as_array`).
pub uninterp spec fn json_items_of(v: serde_json::Value) -> Seq<serde_json::Value>;

/// Copies of the items of an array document (`Value::as_array`); none for a
/// document that is not an array.
#[verifier::external_body]
pub fn json_items(v: &serde_json::Value) -> (r: Vec<serde_json::Value>)
    ensures
        r@ == json_items_of(*v),
{
    match v.as_array() {
        Some(a) => a.clone(),
        None => Vec::new(),
    }
}

/// The string document holding a text (`Value::from(String)`).
pub uninterp spec fn json_string_of(s: Seq<char>) -> serde_json::Value;

/// The string document holding a text (`Value::from(String)`).
#[verifier::external_body]
pub fn json_string(s: String) -> (r: serde_json::Value)
    ensures
        r == json_string_of(s@),
{
    serde_json::Value::from(s)
}

/// The document of an optional text (`Value::from(Option<String>)`).
pub uninterp spec fn json_opt_string_of(o: Option<Seq<char>>) -> serde_json::Value;

/// The document of an optional text (`Value::from(Option<String>)`): the
/// string when there is one, `null` otherwise.
#[verifier::external_body]
pub fn json_opt_string(o: Option<String>) -> (r: serde_json::Value)
    ensures
        r == json_opt_string_of(opt_view(o)),
{
    serde_json::Value::from(o)
}

/// The array document holding the given items (`Value::from(Vec)`).
pub uninterp spec fn json_array_of(items: Seq<serde_json::Value>) -> serde_json::Value;

/// The array document holding the given items (`Value::from(Vec)`).
#[verifier::external_body]
pub fn json_array(items: Vec<serde_json::Value>) -> (r: serde_json::Value)
    ensures
        r == json_array_of(items@),
{
    serde_json::Value::from(items)
}

/// The object document with the given members (`Value::from_iter` over
/// name/value pairs).
pub uninterp spec fn json_object_of(members: Seq<(Seq<char>, serde_json::Value)>) -> serde_json::Value;

/// The views of name/value pairs.
pub open spec fn member_views(s: Seq<(String, serde_json::Value)>) -> Seq<(Seq<char>, serde_json::Value)> {
    s.map_values(|p: (String, serde_json::Value)| (p.0@, p.1))
}

/// The object document with the given members (`Value::from_iter` over
/// name/value pairs).
#[verifier::external_body]
pub fn json_object_from(members: Vec<(String, serde_json::Value)>) -> (r: serde_json::Value)
    ensures
        r == json_object_of(member_views(members@)),
{
    serde_json::Value::from_iter(members)
}

/// The texts of a list of strings.
pub open spec fn texts(s: Seq<String>) -> Seq<Seq<char>> {
    s.map_values(|x: String| x@)
}


/// What parsing a text as JSON gives (`serde_json::from_str`): the document,
/// or the parser's error message.
pub uninterp spec fn json_parse_of(s: Seq<char>) -> Result<serde_json::Value, Seq<char>>;

/// Parse a text as a JSON document (`serde_json::from_str`); the error is
/// the parser's message.
#[verifier::external_body]
pub fn json_parse(s: &str) -> (r: Result<serde_json::Value, String>)
    ensures
        r matches Ok(v) ==> json_parse_of(s@) is Ok && json_parse_of(s@)->Ok_0 == v,
        r matches Err(e) ==> json_parse_of(s@) is Err && json_parse_of(s@)->Err_0 == e@,
{
    match serde_json::from_str::<serde_json::Value>(s) {
        Ok(v) => Ok(v),
        Err(e) => Err(e.to_string()),
    }
}

} // verus!
