//! Reading JSON text into documents, by way of `serde_json`.

use crate::document::{
    items_view, lemma_items_view_push, lemma_members_view_push, members_view, Document, Json,
    Number,
};
use serde_json::Value;
use vstd::prelude::*;

verus! {

/// `serde_json::Value`, carried through as it is: nothing inside it is seen
/// but by way of `value_parts`.
#[verifier::external_type_specification]
#[verifier::external_body]
pub struct ExValue(serde_json::Value);

/// `serde_json::Error`, of which only its presence is used.
#[verifier::external_type_specification]
#[verifier::external_body]
pub struct ExError(serde_json::Error);

/// What `serde_json` reads from a text: the JSON value that the text denotes,
/// or nothing where the text is not one well-formed JSON value.
pub uninterp spec fn parsed_json(text: Seq<char>) -> Option<Json>;

/// The JSON value that a `serde_json::Value` holds.
pub uninterp spec fn value_json(value: Value) -> Json;

/// One level of a `serde_json::Value`: which variant it is, and what that
/// variant holds.
enum ValueParts<'a> {
    Null,
    Bool(bool),
    Number(Number),
    String(&'a String),
    Array(&'a Vec<Value>),
    Object(Vec<(&'a String, &'a Value)>),
}

/// The JSON values of a list of `serde_json` values, in order.
spec fn values_json(values: Seq<Value>) -> Seq<Json> {
    values.map_values(|value: Value| value_json(value))
}

/// The members that a list of named `serde_json` values denotes.
spec fn fields_json(fields: Seq<(&String, &Value)>) -> Map<Seq<char>, Json>
    decreases fields.len(),
{
    if fields.len() == 0 {
        Map::empty()
    } else {
        fields_json(fields.drop_last()).insert(fields.last().0@, value_json(*fields.last().1))
    }
}

/// The JSON value that one level of a `serde_json::Value` denotes, given the
/// JSON values of what it holds.
spec fn parts_json(parts: ValueParts) -> Json {
    match parts {
        ValueParts::Null => Json::Null,
        ValueParts::Bool(b) => Json::Bool(b),
        ValueParts::Number(n) => Json::Number(n),
        ValueParts::String(s) => Json::String(s@),
        ValueParts::Array(values) => Json::Array(values_json(values@)),
        ValueParts::Object(fields) => Json::Object(fields_json(fields@)),
    }
}

/// No two of `fields` have the same name.
spec fn distinct_names(fields: Seq<(&String, &Value)>) -> bool {
    forall|i: int, j: int| 0 <= i < j < fields.len() ==> fields[i].0@ != fields[j].0@
}

/// Calls `serde_json::from_str` for a `serde_json::Value`. Not proved: that the
/// outcome is a function of the text alone, which `parsed_json` names. The
/// call succeeds exactly where `parsed_json` has a value, and the value read
/// holds it.
#[verifier::external_body]
fn value_from_str(text: &str) -> (r: Result<Value, serde_json::Error>)
    ensures
        match r {
            Ok(value) => parsed_json(text@) == Some(value_json(value)),
            Err(_) => parsed_json(text@) is None,
        },
{
    serde_json::from_str::<Value>(text)
}

/// Takes a `serde_json::Value` apart by one level: a null, a boolean, a
/// number (told apart by `as_u64`, `as_i64` and `as_f64`), a string, the
/// items of an array, or the members of an object as `Map::iter` hands them
/// out. Not proved: that the value holds the JSON value which these parts
/// denote, and that a map hands out each name once.
#[verifier::external_body]
fn value_parts<'a>(value: &'a Value) -> (parts: ValueParts<'a>)
    ensures
        parts_json(parts) == value_json(*value),
        parts matches ValueParts::Object(fields) ==> distinct_names(fields@),
{
    match value {
        Value::Null => ValueParts::Null,
        Value::Bool(b) => ValueParts::Bool(*b),
        Value::Number(n) => ValueParts::Number(
            match (n.as_u64(), n.as_i64()) {
                (Some(u), _) => Number::PosInt(u),
                (_, Some(i)) => Number::NegInt(i),
                _ => Number::Float(n.as_f64().unwrap_or_default().to_bits()),
            },
        ),
        Value::String(s) => ValueParts::String(s),
        Value::Array(a) => ValueParts::Array(a),
        Value::Object(o) => ValueParts::Object(o.iter().collect()),
    }
}

/// Each of distinctly named fields is a member of what they denote, and
/// there are finitely many members.
proof fn lemma_fields_json(fields: Seq<(&String, &Value)>, at: int)
    requires
        distinct_names(fields),
        0 <= at < fields.len(),
    ensures
        fields_json(fields).dom().finite(),
        fields_json(fields).contains_key(fields[at].0@),
        fields_json(fields)[fields[at].0@] == value_json(*fields[at].1),
    decreases fields.len(),
{
    let rest = fields.drop_last();
    assert(distinct_names(rest)) by {
        assert forall|i: int, j: int| 0 <= i < j < rest.len() implies rest[i].0@ != rest[j].0@ by {
            assert(rest[i] == fields[i] && rest[j] == fields[j]);
        }
    }
    if rest.len() > 0 {
        lemma_fields_json(rest, if at < rest.len() { at } else { 0 });
    } else {
        assert(fields_json(rest) == Map::<Seq<char>, Json>::empty());
    }
}

/// Builds the document of a `serde_json::Value`, level by level.
fn document_from_value(value: &Value) -> (d: Document)
    ensures
        d@ == value_json(*value),
    decreases value_json(*value),
{
    match value_parts(value) {
        ValueParts::Null => Document::Null,
        ValueParts::Bool(b) => Document::Bool(b),
        ValueParts::Number(n) => Document::Number(n),
        ValueParts::String(s) => Document::String(s.clone()),
        ValueParts::Array(values) => {
            let mut items: Vec<Document> = Vec::new();
            let mut i: usize = 0;
            while i < values.len()
                invariant
                    i <= values.len(),
                    value_json(*value) == Json::Array(values_json(values@)),
                    items_view(items@) == values_json(values@).take(i as int),
                decreases values.len() - i,
            {
                proof {
                    let whole = value_json(*value);
                    assert(whole->Array_0[i as int] == value_json(values@[i as int]));
                    assert(decreases_to!(whole => whole->Array_0));
                    assert(decreases_to!(whole->Array_0 => whole->Array_0[i as int]));
                }
                let item = document_from_value(&values[i]);
                proof {
                    lemma_items_view_push(items@, item);
                    assert(values_json(values@).take(i + 1) =~= values_json(values@).take(
                        i as int,
                    ).push(item@));
                }
                items.push(item);
                i = i + 1;
            }
            assert(values_json(values@).take(i as int) =~= values_json(values@));
            Document::Array(items)
        },
        ValueParts::Object(fields) => {
            let mut entries: Vec<(String, Document)> = Vec::new();
            let mut i: usize = 0;
            while i < fields.len()
                invariant
                    i <= fields.len(),
                    distinct_names(fields@),
                    value_json(*value) == Json::Object(fields_json(fields@)),
                    members_view(entries@) == fields_json(fields@.take(i as int)),
                decreases fields.len() - i,
            {
                proof {
                    let whole = value_json(*value);
                    lemma_fields_json(fields@, i as int);
                    assert(decreases_to!(whole => whole->Object_0));
                    assert(decreases_to!(whole->Object_0 => whole->Object_0[fields@[i as int].0@]));
                }
                let name = fields[i].0.clone();
                let member = document_from_value(fields[i].1);
                proof {
                    lemma_members_view_push(entries@, name, member);
                    assert(fields@.take(i + 1).drop_last() =~= fields@.take(i as int));
                }
                entries.push((name, member));
                i = i + 1;
            }
            assert(fields@.take(i as int) =~= fields@);
            Document::Object(entries)
        },
    }
}

/// Reads a JSON text into a document. Malformed text gives `None`.
pub fn parse_document(text: &str) -> (r: Option<Document>)
    ensures
        match r {
            Some(document) => parsed_json(text@) == Some(document@),
            None => parsed_json(text@) is None,
        },
{
    match value_from_str(text) {
        Ok(value) => Some(document_from_value(&value)),
        Err(_) => None,
    }
}

} // verus!
