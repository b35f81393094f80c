//! The key-value markup of Steam's configuration and manifest files, as a
//! tree of plain values.

use crate::text::same_text;
use vstd::prelude::*;

verus! {

/// A value of a key-value document: a text, or an object whose keys each hold
/// one value or more, in the order of the document.
#[derive(Debug, PartialEq, Eq)]
pub enum KeyValue {
    Text(String),
    Object(Vec<(String, Vec<KeyValue>)>),
}

/// `keyvalues_parser::Value`, of which nothing is known here: it is only
/// handed from the parser to the conversion.
#[verifier::external_type_specification]
#[verifier::external_body]
pub struct ExValue<'text>(keyvalues_parser::Value<'text>);

/// `keyvalues_parser::error::Error`, of which nothing is known here: every
/// such error counts as a document that cannot be read.
#[verifier::external_type_specification]
#[verifier::external_body]
pub struct ExParseError(keyvalues_parser::error::Error);

/// Turns a value of `keyvalues_parser` into a tree of plain values, variant by
/// variant; an object's keys come in the order of its map. It goes as deep
/// as the value nests, which is no deeper than the parser went.
#[verifier::external_body]
fn converted(value: &keyvalues_parser::Value<'_>) -> KeyValue {
    match value {
        keyvalues_parser::Value::Str(s) => KeyValue::Text(s.to_string()),
        keyvalues_parser::Value::Obj(o) => KeyValue::Object(
            o.iter().map(|(k, vs)| (k.to_string(), vs.iter().map(converted).collect())).collect(),
        ),
    }
}

/// `keyvalues_parser::parse` with its default settings, which reads `\` as
/// the start of an escape. The value of the top-level pair comes back as a
/// tree; the top-level key and `#base` lines are dropped. Nothing is
/// promised of the result: the parser gives up where the stack that is left
/// to it, or a limit set for the whole process, does not suffice, so that one
/// text may be read at one time and refused at another.
#[verifier::external_body]
pub(crate) fn parse_document(text: &str) -> (r: Result<KeyValue, keyvalues_parser::error::Error>) {
    match keyvalues_parser::parse(text) {
        Ok(doc) => Ok(converted(&doc.value)),
        Err(e) => Err(e),
    }
}

/// The values under the first of `entries` whose key is `key`.
pub open spec fn values_under(entries: Seq<(String, Vec<KeyValue>)>, key: Seq<char>) -> Option<
    Seq<KeyValue>,
>
    decreases entries.len(),
{
    if entries.len() == 0 {
        None
    } else if entries[0].0@ == key {
        Some(entries[0].1@)
    } else {
        values_under(entries.drop_first(), key)
    }
}

/// The values under the first of `entries` whose key is `key`.
pub fn find_values<'a>(entries: &'a Vec<(String, Vec<KeyValue>)>, key: &str) -> (r: Option<
    &'a Vec<KeyValue>,
>)
    ensures
        r is Some <==> values_under(entries@, key@) is Some,
        r matches Some(v) ==> Some(v@) == values_under(entries@, key@),
{
    let mut i: usize = 0;
    assert(entries@.skip(0) =~= entries@);
    while i < entries.len()
        invariant
            i <= entries.len(),
            values_under(entries@, key@) == values_under(entries@.skip(i as int), key@),
        decreases entries.len() - i,
    {
        assert(entries@.skip(i as int).drop_first() =~= entries@.skip(i + 1));
        assert(entries@.skip(i as int)[0] == entries@[i as int]);
        if same_text(entries[i].0.as_str(), key) {
            return Some(&entries[i].1);
        }
        i += 1;
    }
    None
}

impl KeyValue {
    /// The values that this object holds under `key`.
    pub fn values(&self, key: &str) -> (r: Option<&Vec<KeyValue>>)
        ensures
            match *self {
                KeyValue::Object(entries) => {
                    &&& r is Some <==> values_under(entries@, key@) is Some
                    &&& r matches Some(v) ==> Some(v@) == values_under(entries@, key@)
                },
                KeyValue::Text(_) => r is None,
            },
    {
        match self {
            KeyValue::Text(_) => None,
            KeyValue::Object(entries) => find_values(entries, key),
        }
    }
}

} // verus!
