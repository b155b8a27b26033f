//! The query engine: lookups, property projections and batch queries over
//! one snapshot of the registry. It holds no state of its own.

use crate::document::{
    find_member, items_view, lemma_items_view_index, lemma_items_view_push,
    lemma_members_view_push, member, members_view, Document, Json,
};
use crate::registry::{lookup, Registry};
use vstd::prelude::*;

verus! {

/// A batch query: the subjects asked for, in order, and the property names to
/// narrow each document to, if any.
pub struct Query {
    pub subjects: Vec<String>,
    pub properties: Option<Vec<String>>,
}

/// `name` is one of `properties`.
pub open spec fn requested(properties: Seq<String>, name: Seq<char>) -> bool {
    exists|i: int| 0 <= i < properties.len() && #[trigger] properties[i]@ == name
}

/// The members of `json` that `properties` name. A name that `json` has no
/// member for is left out.
pub open spec fn projected_members(json: Json, properties: Seq<String>) -> Map<Seq<char>, Json> {
    Map::new(
        |name: Seq<char>| requested(properties, name) && member(json, name) is Some,
        |name: Seq<char>| member(json, name)->0,
    )
}

/// The projection of `json` on `properties`: an object of the requested
/// members that `json` has.
pub open spec fn projected(json: Json, properties: Seq<String>) -> Json {
    Json::Object(projected_members(json, properties))
}

/// What a batch query returns for one document that was found: the whole
/// document, or its projection where properties were given.
pub open spec fn answer(json: Json, properties: Option<Seq<String>>) -> Json {
    match properties {
        Some(properties) => projected(json, properties),
        None => json,
    }
}

/// What a batch query returns for one subject: nothing where the mapping does
/// not hold it.
pub open spec fn answer_for(
    mapping: Map<Seq<char>, Json>,
    properties: Option<Seq<String>>,
    subject: String,
) -> Option<Json> {
    if mapping.contains_key(subject@) {
        Some(answer(mapping[subject@], properties))
    } else {
        None
    }
}

/// What a batch query returns: the answers for the subjects that the mapping
/// holds, in the order in which they were asked for.
pub open spec fn batch_of(
    mapping: Map<Seq<char>, Json>,
    subjects: Seq<String>,
    properties: Option<Seq<String>>,
) -> Seq<Json> {
    subjects.filter_map(|subject: String| answer_for(mapping, properties, subject))
}

/// The names of an optional list of properties, as a ghost sequence.
pub open spec fn properties_of(properties: Option<&Vec<String>>) -> Option<Seq<String>> {
    match properties {
        Some(properties) => Some(properties@),
        None => None,
    }
}

/// The value of the property `name` of `subject` in `mapping`: none where
/// the subject is missing, and none where its document has no such member.
pub open spec fn property_of(
    mapping: Map<Seq<char>, Json>,
    subject: Seq<char>,
    name: Seq<char>,
) -> Option<Json> {
    match lookup(mapping, subject) {
        Some(json) => member(json, name),
        None => None,
    }
}

/// A property of a subject that the mapping does not hold is not found,
/// whatever its name.
pub proof fn lemma_property_of_missing_subject(
    mapping: Map<Seq<char>, Json>,
    subject: Seq<char>,
    name: Seq<char>,
)
    requires
        !mapping.contains_key(subject),
    ensures
        property_of(mapping, subject, name) is None,
{
}

/// A projection has exactly the requested members that the document has,
/// each with the document's value. A member that was not requested is left
/// out, not set to null.
pub proof fn lemma_projected_member(json: Json, properties: Seq<String>, name: Seq<char>)
    ensures
        member(projected(json, properties), name) == if requested(properties, name) {
            member(json, name)
        } else {
            None
        },
{
}

/// A batch query over `subjects` followed by `subject` is the batch query
/// over `subjects`, followed by the answer for `subject` where the mapping
/// holds it and by nothing where it does not.
pub proof fn lemma_batch_push(
    mapping: Map<Seq<char>, Json>,
    subjects: Seq<String>,
    subject: String,
    properties: Option<Seq<String>>,
)
    ensures
        batch_of(mapping, subjects.push(subject), properties) == match answer_for(
            mapping,
            properties,
            subject,
        ) {
            Some(json) => batch_of(mapping, subjects, properties).push(json),
            None => batch_of(mapping, subjects, properties),
        },
{
    assert(subjects.push(subject).drop_last() =~= subjects);
}

/// Of three subjects of which the mapping holds the first and the last but
/// not the middle one, a batch query without properties returns the
/// documents of the first and the last, in that order, and nothing for the
/// one that is missing.
pub proof fn lemma_batch_drops_missing(
    mapping: Map<Seq<char>, Json>,
    first: String,
    missing: String,
    last: String,
)
    requires
        mapping.contains_key(first@),
        !mapping.contains_key(missing@),
        mapping.contains_key(last@),
    ensures
        batch_of(mapping, seq![first, missing, last], None) == seq![mapping[first@], mapping[last@]],
{
    let none = Seq::<String>::empty();
    lemma_batch_push(mapping, none, first, None);
    lemma_batch_push(mapping, none.push(first), missing, None);
    lemma_batch_push(mapping, none.push(first).push(missing), last, None);
    assert(seq![first, missing, last] =~= none.push(first).push(missing).push(last));
    assert(batch_of(mapping, none, None) =~= Seq::<Json>::empty());
}

/// Every answer of a batch query is the answer for one of the subjects asked
/// for, read from the one mapping that the query ran against.
pub proof fn lemma_batch_reads_one_mapping(
    mapping: Map<Seq<char>, Json>,
    subjects: Seq<String>,
    properties: Option<Seq<String>>,
    at: int,
)
    requires
        0 <= at < batch_of(mapping, subjects, properties).len(),
    ensures
        exists|i: int|
            0 <= i < subjects.len() && mapping.contains_key(subjects[i]@) && batch_of(
                mapping,
                subjects,
                properties,
            )[at] == answer(mapping[#[trigger] subjects[i]@], properties),
{
    let answers = batch_of(mapping, subjects, properties);
    let answer_one = |subject: String| answer_for(mapping, properties, subject);
    assert(answers.contains(answers[at]));
    subjects.lemma_filter_map_contains(answer_one, answers[at]);
    let subject = choose|subject: String| #[trigger]
        subjects.contains(subject) && answer_one(subject) == Some(answers[at]);
    let i = choose|i: int| 0 <= i < subjects.len() && subjects[i] == subject;
    assert(mapping.contains_key(subjects[i]@));
}

/// The document of `subject`, as the registry holds it.
pub fn resolve_single<'a>(registry: &'a Registry, subject: &str) -> (r: Option<&'a Document>)
    ensures
        match r {
            Some(document) => lookup(registry@, subject@) == Some(document@),
            None => lookup(registry@, subject@) is None,
        },
{
    registry.get(subject)
}

/// The value of the property `name` of `subject`: `None` where the registry
/// has no such subject, and where its document has no member of that name
/// (a document that is no object has none).
pub fn resolve_properties<'a>(registry: &'a Registry, subject: &str, name: &str) -> (r: Option<
    &'a Document,
>)
    ensures
        match r {
            Some(value) => property_of(registry@, subject@, name@) == Some(value@),
            None => property_of(registry@, subject@, name@) is None,
        },
{
    match registry.get(subject) {
        Some(document) => document.get(name),
        None => None,
    }
}

/// Narrows `document` to the members that `properties` name. The result is an
/// object with one member for each requested name that `document` has, each
/// name once, in the order of their first request.
pub fn project(document: &Document, properties: &Vec<String>) -> (r: Document)
    ensures
        r@ == projected(document@, properties@),
        r matches Document::Object(entries) && forall|i: int, j: int|
            0 <= i < j < entries.len() ==> entries@[i].0@ != entries@[j].0@,
{
    let mut entries: Vec<(String, Document)> = Vec::new();
    let mut i: usize = 0;
    while i < properties.len()
        invariant
            i <= properties.len(),
            members_view(entries@) =~= projected_members(document@, properties@.take(i as int)),
            forall|a: int, b: int| 0 <= a < b < entries.len() ==> entries@[a].0@ != entries@[b].0@,
        decreases properties.len() - i,
    {
        let name = &properties[i];
        let ghost before = properties@.take(i as int);
        let ghost after = properties@.take(i + 1);
        proof {
            assert(after[i as int]@ == name@);
            assert forall|n: Seq<char>| requested(after, n) <==> requested(before, n) || n
                == name@ by {
                if requested(before, n) {
                    let k = choose|k: int| 0 <= k < before.len() && #[trigger] before[k]@ == n;
                    assert(after[k]@ == n);
                }
                if requested(after, n) && n != name@ {
                    let k = choose|k: int| 0 <= k < after.len() && #[trigger] after[k]@ == n;
                    assert(before[k]@ == n);
                }
            }
        }
        match document.get(name.as_str()) {
            Some(value) => {
                if find_member(&entries, name.as_str()).is_none() {
                    let copy = value.clone();
                    let key = name.clone();
                    proof {
                        lemma_members_view_push(entries@, key, copy);
                    }
                    entries.push((key, copy));
                }
            },
            None => {},
        }
        i = i + 1;
    }
    assert(properties@.take(i as int) =~= properties@);
    Document::Object(entries)
}

/// Answers a batch query against one snapshot: for each subject that the
/// registry holds, in the order asked, its whole document, or its projection
/// where `properties` is given. Subjects that the registry does not hold are
/// left out without a trace.
pub fn batch(registry: &Registry, subjects: &Vec<String>, properties: Option<&Vec<String>>) -> (r:
    Vec<Document>)
    ensures
        items_view(r@) == batch_of(registry@, subjects@, properties_of(properties)),
        r@.len() == batch_of(registry@, subjects@, properties_of(properties)).len(),
        forall|i: int|
            0 <= i < r@.len() ==> (#[trigger] r@[i])@ == batch_of(
                registry@,
                subjects@,
                properties_of(properties),
            )[i],
{
    let ghost answer_one = |subject: String|
        answer_for(registry@, properties_of(properties), subject);
    let mut found: Vec<Document> = Vec::new();
    let mut i: usize = 0;
    while i < subjects.len()
        invariant
            i <= subjects.len(),
            answer_one == |subject: String|
                answer_for(registry@, properties_of(properties), subject),
            items_view(found@) == subjects@.take(i as int).filter_map(answer_one),
        decreases subjects.len() - i,
    {
        proof {
            subjects@.lemma_filter_map_take_succ(answer_one, i as int);
        }
        match registry.get(subjects[i].as_str()) {
            Some(document) => {
                let entry = match properties {
                    Some(properties) => project(document, properties),
                    None => document.clone(),
                };
                proof {
                    lemma_items_view_push(found@, entry);
                }
                found.push(entry);
            },
            None => {},
        }
        i = i + 1;
    }
    proof {
        assert(subjects@.take(i as int) =~= subjects@);
        lemma_items_view_index(found@);
    }
    found
}

} // verus!
