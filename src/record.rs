//! Task records: a JSON document, and the few fields of it that the archive reads.

use vstd::prelude::*;

verus! {

/// serde_json's dynamically typed JSON value, carried through untouched.
#[verifier::external_type_specification]
#[verifier::external_body]
pub struct ExValue(serde_json::Value);

/// The value serde_json parses `text` into, if it is JSON.
pub uninterp spec fn parsed_json(text: Seq<char>) -> Option<serde_json::Value>;

/// The member `key` of a JSON object, as serde_json's `Value::get` finds it.
pub uninterp spec fn member_of(v: serde_json::Value, key: Seq<char>) -> Option<serde_json::Value>;

/// The text of a JSON string, as serde_json's `Value::as_str` gives it.
pub uninterp spec fn text_of(v: serde_json::Value) -> Option<Seq<char>>;

/// A JSON number that fits an `i64`, as serde_json's `Value::as_i64` gives it.
pub uninterp spec fn integer_of(v: serde_json::Value) -> Option<i64>;

/// Relies on serde_json's `from_str` into a `Value`: `None` when the text is not
/// JSON; the result depends on the text alone.
#[verifier::external_body]
pub(crate) fn parse_document(text: &str) -> (r: Option<serde_json::Value>)
    ensures
        r == parsed_json(text@),
{
    serde_json::from_str::<serde_json::Value>(text).ok()
}

/// Relies on serde_json's `Value::get` with a string key: the member `key` of an
/// object, or `None`.
#[verifier::external_body]
pub(crate) fn member(v: &serde_json::Value, key: &str) -> (r: Option<serde_json::Value>)
    ensures
        r == member_of(*v, key@),
{
    v.get(key).cloned()
}

/// Relies on serde_json's `Value::as_str`: the text of a JSON string, or `None`.
#[verifier::external_body]
pub(crate) fn as_text(v: &serde_json::Value) -> (r: Option<String>)
    ensures
        match r {
            Some(s) => text_of(*v) == Some(s@),
            None => text_of(*v) is None,
        },
{
    v.as_str().map(|s| s.to_string())
}

/// Relies on serde_json's `Value::as_i64`: a JSON number that fits an `i64`, or `None`.
#[verifier::external_body]
pub(crate) fn as_integer(v: &serde_json::Value) -> (r: Option<i64>)
    ensures
        r == integer_of(*v),
{
    v.as_i64()
}

/// The member `key` of `doc`, when it is a string.
pub open spec fn text_field(doc: serde_json::Value, key: Seq<char>) -> Option<Seq<char>> {
    match member_of(doc, key) {
        Some(v) => text_of(v),
        None => None,
    }
}

/// The member `key` of `doc`, when it is an integer.
pub open spec fn integer_field(doc: serde_json::Value, key: Seq<char>) -> Option<i64> {
    match member_of(doc, key) {
        Some(v) => integer_of(v),
        None => None,
    }
}

/// The text of an optional string.
pub open spec fn text_view(s: Option<String>) -> Option<Seq<char>> {
    match s {
        Some(t) => Some(t@),
        None => None,
    }
}

/// A task record: its whole JSON document, kept verbatim, and the fields the
/// archive reads from it (`None` where the member is absent or of another type).
#[derive(Debug, PartialEq, Eq)]
pub struct TaskRecord {
    pub id: Option<String>,
    pub name: Option<String>,
    pub timestamp: Option<String>,
    pub total_count: Option<i64>,
    pub group_name: Option<String>,
    pub document: serde_json::Value,
}

/// The member `key` of `doc`, when it is a string.
fn text_member(doc: &serde_json::Value, key: &str) -> (r: Option<String>)
    ensures
        text_view(r) == text_field(*doc, key@),
{
    match member(doc, key) {
        Some(v) => as_text(&v),
        None => None,
    }
}

/// The member `key` of `doc`, when it is an integer.
fn integer_member(doc: &serde_json::Value, key: &str) -> (r: Option<i64>)
    ensures
        r == integer_field(*doc, key@),
{
    match member(doc, key) {
        Some(v) => as_integer(&v),
        None => None,
    }
}

impl TaskRecord {
    /// Reads the fields `id`, `name`, `timestamp`, `total_count` and `group_name`
    /// of a record document, and keeps the document.
    pub fn from_document(document: serde_json::Value) -> (r: TaskRecord)
        ensures
            r.document == document,
            text_view(r.id) == text_field(document, "id"@),
            text_view(r.name) == text_field(document, "name"@),
            text_view(r.timestamp) == text_field(document, "timestamp"@),
            r.total_count == integer_field(document, "total_count"@),
            text_view(r.group_name) == text_field(document, "group_name"@),
    {
        let id = text_member(&document, "id");
        let name = text_member(&document, "name");
        let timestamp = text_member(&document, "timestamp");
        let total_count = integer_member(&document, "total_count");
        let group_name = text_member(&document, "group_name");
        TaskRecord { id, name, timestamp, total_count, group_name, document }
    }
}

} // verus!
