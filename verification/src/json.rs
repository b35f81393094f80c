//! JSON documents, as a tree of plain values.

use crate::text::same_text;
use vstd::prelude::*;

verus! {

/// A JSON value. A number is held as the text that writes it; an object
/// holds each of its keys once.
#[derive(Debug, PartialEq, Eq)]
pub enum Json {
    Null,
    Bool(bool),
    Number(String),
    Text(String),
    Array(Vec<Json>),
    Object(Vec<(String, Json)>),
}

/// `serde_json::Value`, of which nothing is known here: it is only handed
/// from the parser to the conversion.
#[verifier::external_type_specification]
#[verifier::external_body]
pub struct ExJsonValue(serde_json::Value);

/// `serde_json::Error`, of which nothing is known here: every such error
/// counts as a document that cannot be read.
#[verifier::external_type_specification]
#[verifier::external_body]
pub struct ExJsonError(serde_json::Error);

/// The JSON value that `text` holds, as `serde_json::from_str` reads it; none
/// where it rejects `text`.
pub uninterp spec fn json_of(text: Seq<char>) -> Option<Json>;

/// Turns a value of `serde_json` into a tree of plain values, variant by
/// variant; a number becomes the text that `serde_json` writes for it, and
/// an object's keys come in the order of its map.
#[verifier::external_body]
fn converted(value: &serde_json::Value) -> Json {
    match value {
        serde_json::Value::Null => Json::Null,
        serde_json::Value::Bool(b) => Json::Bool(*b),
        serde_json::Value::Number(n) => Json::Number(n.to_string()),
        serde_json::Value::String(s) => Json::Text(s.clone()),
        serde_json::Value::Array(a) => Json::Array(a.iter().map(converted).collect()),
        serde_json::Value::Object(m) => Json::Object(
            m.iter().map(|(k, v)| (k.clone(), converted(v))).collect(),
        ),
    }
}

/// `serde_json::from_str` for a value of any shape. The value comes back as
/// a tree of plain values. The result is only named: it is the same for the
/// same `text`.
#[verifier::external_body]
pub(crate) fn parse_json(text: &str) -> (r: Result<Json, serde_json::Error>)
    ensures
        r is Ok <==> json_of(text@) is Some,
        r matches Ok(doc) ==> Some(doc) == json_of(text@),
{
    match serde_json::from_str::<serde_json::Value>(text) {
        Ok(value) => Ok(converted(&value)),
        Err(e) => Err(e),
    }
}

/// The value of the first of `entries` whose key is `key`.
pub open spec fn entry_under(entries: Seq<(String, Json)>, key: Seq<char>) -> Option<Json>
    decreases entries.len(),
{
    if entries.len() == 0 {
        None
    } else if entries[0].0@ == key {
        Some(entries[0].1)
    } else {
        entry_under(entries.drop_first(), key)
    }
}

/// What `value` holds under `key`: nothing where it is no object.
pub open spec fn member(value: Json, key: Seq<char>) -> Option<Json> {
    match value {
        Json::Object(entries) => entry_under(entries@, key),
        _ => None,
    }
}

/// The text that `value` holds under `key`.
pub open spec fn text_member(value: Json, key: Seq<char>) -> Option<Seq<char>> {
    match member(value, key) {
        Some(Json::Text(t)) => Some(t@),
        _ => None,
    }
}

/// The object that `value` holds under `key`.
pub open spec fn object_member(value: Json, key: Seq<char>) -> Option<Json> {
    match member(value, key) {
        Some(Json::Object(entries)) => Some(Json::Object(entries)),
        _ => None,
    }
}

/// The value of the first of `entries` whose key is `key`.
pub fn find_entry<'a>(entries: &'a Vec<(String, Json)>, key: &str) -> (r: Option<&'a Json>)
    ensures
        r is Some <==> entry_under(entries@, key@) is Some,
        r matches Some(v) ==> Some(*v) == entry_under(entries@, key@),
{
    let mut i: usize = 0;
    assert(entries@.skip(0) =~= entries@);
    while i < entries.len()
        invariant
            i <= entries.len(),
            entry_under(entries@, key@) == entry_under(entries@.skip(i as int), key@),
        decreases entries.len() - i,
    {
        assert(entries@.skip(i as int).drop_first() =~= entries@.skip(i + 1));
        assert(entries@.skip(i as int)[0] == entries@[i as int]);
        if same_text(entries[i].0.as_str(), key) {
            return Some(&entries[i].1);
        }
        i += 1;
    }
    None
}

impl Json {
    /// What this value holds under `key`.
    pub fn get(&self, key: &str) -> (r: Option<&Json>)
        ensures
            r is Some <==> member(*self, key@) is Some,
            r matches Some(v) ==> Some(*v) == member(*self, key@),
    {
        match self {
            Json::Object(entries) => find_entry(entries, key),
            _ => None,
        }
    }

    /// The text that this value holds under `key`.
    pub fn get_text(&self, key: &str) -> (r: Option<&str>)
        ensures
            r is Some <==> text_member(*self, key@) is Some,
            r matches Some(t) ==> Some(t@) == text_member(*self, key@),
    {
        match self.get(key) {
            Some(Json::Text(t)) => Some(t.as_str()),
            _ => None,
        }
    }

    /// The object that this value holds under `key`.
    pub fn get_object(&self, key: &str) -> (r: Option<&Json>)
        ensures
            r is Some <==> object_member(*self, key@) is Some,
            r matches Some(v) ==> Some(*v) == object_member(*self, key@),
    {
        match self.get(key) {
            Some(v) => match v {
                Json::Object(_) => Some(v),
                _ => None,
            },
            None => None,
        }
    }
}

} // verus!
