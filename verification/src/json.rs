//! The JSON side of the service: the values a row is shaped into, the
//! ordered map that holds them (`ordermap::OrderMap`), and the decoding of
//! JSON columns (`serde_json`). The outside calls stand behind the trusted
//! items of this module.
use vstd::prelude::*;
use ordermap::OrderMap;
use crate::module::tags::models::Tag;

verus! {

// ---------------------------------------------------------------------------
// Row values and their ordered map
// ---------------------------------------------------------------------------

/// A value that a row contributes to its JSON object.
#[derive(Debug)]
pub enum JsonField {
    Int(i64),
    Text(String),
    Bool(bool),
    Tags(Vec<Tag>),
}

/// What a [`JsonField`] holds, as a mathematical value.
pub enum FieldValue {
    Int(i64),
    Text(Seq<char>),
    Bool(bool),
    Tags(Seq<Tag>),
}

impl View for JsonField {
    type V = FieldValue;

    open spec fn view(&self) -> FieldValue {
        match self {
            JsonField::Int(i) => FieldValue::Int(*i),
            JsonField::Text(s) => FieldValue::Text(s@),
            JsonField::Bool(b) => FieldValue::Bool(*b),
            JsonField::Tags(v) => FieldValue::Tags(v@),
        }
    }
}

#[verifier::external_type_specification]
#[verifier::external_body]
#[verifier::reject_recursive_types(K)]
#[verifier::reject_recursive_types(V)]
#[verifier::reject_recursive_types(S)]
pub struct ExOrderMap<K, V, S>(OrderMap<K, V, S>);

/// The entries of a map, in the map's order, each key by its text.
pub uninterp spec fn ordermap_entries(m: OrderMap<String, JsonField>) -> Seq<(Seq<char>, FieldValue)>;

/// The position of the entry with key `key`, if there is one.
pub open spec fn key_position(entries: Seq<(Seq<char>, FieldValue)>, key: Seq<char>) -> Option<int>
    decreases entries.len(),
{
    if entries.len() == 0 {
        None
    } else if entries.last().0 == key {
        Some(entries.len() - 1)
    } else {
        key_position(entries.drop_last(), key)
    }
}

/// A key that no entry holds has no position.
pub proof fn lemma_key_absent(entries: Seq<(Seq<char>, FieldValue)>, key: Seq<char>)
    requires
        forall|i: int| 0 <= i < entries.len() ==> entries[i].0 != key,
    ensures
        key_position(entries, key) is None,
    decreases entries.len(),
{
    if entries.len() > 0 {
        assert(entries.last().0 != key);
        lemma_key_absent(entries.drop_last(), key);
    }
}

/// Trusted: `OrderMap::new`. The new map has no entries.
#[verifier::external_body]
pub(crate) fn ordermap_new() -> (m: OrderMap<String, JsonField>)
    ensures
        ordermap_entries(m) == Seq::<(Seq<char>, FieldValue)>::empty(),
{
    OrderMap::new()
}

/// Trusted: `OrderMap::insert`. As its documentation and source say, a key
/// already present keeps its place and gets the new value, and the old value
/// is handed back; a new key goes last, and `None` is handed back.
#[verifier::external_body]
pub(crate) fn ordermap_insert(m: &mut OrderMap<String, JsonField>, key: String, value: JsonField) -> (r: Option<JsonField>)
    ensures
        match key_position(ordermap_entries(*old(m)), key@) {
            Some(i) => {
                &&& ordermap_entries(*final(m)) == ordermap_entries(*old(m)).update(i, (key@, value@))
                &&& r matches Some(v) && v@ == ordermap_entries(*old(m))[i].1
            },
            None => {
                &&& ordermap_entries(*final(m)) == ordermap_entries(*old(m)).push((key@, value@))
                &&& r is None
            },
        },
{
    m.insert(key, value)
}

// ---------------------------------------------------------------------------
// JSON columns
// ---------------------------------------------------------------------------

#[verifier::external_type_specification]
#[verifier::external_body]
pub struct ExJsonValue(serde_json::Value);

#[verifier::external_type_specification]
#[verifier::external_body]
pub struct ExJsonError(serde_json::Error);

/// A parsed JSON document, its top-level array split out.
pub enum JsonDocument {
    Array(Vec<serde_json::Value>),
    Other(serde_json::Value),
}

/// What `serde_json::from_slice::<serde_json::Value>` gives back for `raw`,
/// with a top-level array's elements split out.
pub uninterp spec fn json_document(raw: Seq<u8>) -> Result<JsonDocument, serde_json::Error>;

/// Trusted: `serde_json::from_slice::<serde_json::Value>`. Its outcome (the
/// error, or the parsed document with a top-level array's elements split
/// out) is claimed to be a function of the bytes alone, named
/// `json_document`; what the values hold is not stated.
#[verifier::external_body]
pub(crate) fn parse_json(raw: &[u8]) -> (r: Result<JsonDocument, serde_json::Error>)
    ensures
        r == json_document(raw@),
{
    match serde_json::from_slice::<serde_json::Value>(raw) {
        Ok(serde_json::Value::Array(items)) => Ok(JsonDocument::Array(items)),
        Ok(other) => Ok(JsonDocument::Other(other)),
        Err(e) => Err(e),
    }
}

} // verus!
