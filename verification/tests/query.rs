use tokenapi::document::{Document, Number};
use tokenapi::query::{batch, project, resolve_properties, resolve_single};
use tokenapi::registry::{Registry, Snapshot};

fn n(value: u64) -> Document {
    Document::Number(Number::PosInt(value))
}

fn object(members: &[(&str, Document)]) -> Document {
    Document::Object(members.iter().map(|(k, v)| (k.to_string(), v.clone())).collect())
}

fn doc_a() -> Document {
    object(&[("p1", n(1)), ("p2", n(2))])
}

fn doc_b() -> Document {
    object(&[("p1", n(10)), ("p3", Document::Null)])
}

fn registry_ab() -> Registry {
    let mut snapshot = Snapshot::new();
    snapshot.insert("a".to_string(), doc_a());
    snapshot.insert("b".to_string(), doc_b());
    let mut registry = Registry::new();
    registry.replace(snapshot);
    registry
}

fn names(list: &[&str]) -> Vec<String> {
    list.iter().map(|s| s.to_string()).collect()
}

#[test]
fn resolve_single_passes_the_lookup_through() {
    let registry = registry_ab();
    assert_eq!(resolve_single(&registry, "a"), Some(&doc_a()));
    assert_eq!(resolve_single(&registry, "b"), Some(&doc_b()));
    assert_eq!(resolve_single(&registry, "missing"), None);
}

#[test]
fn resolve_properties_of_a_missing_subject_is_not_found() {
    let registry = registry_ab();
    assert_eq!(resolve_properties(&registry, "missing-subject", "anything"), None);
    assert_eq!(resolve_properties(&Registry::new(), "missing-subject", "anything"), None);
}

#[test]
fn resolve_properties_finds_a_member() {
    let registry = registry_ab();
    assert_eq!(resolve_properties(&registry, "a", "p1"), Some(&n(1)));
    assert_eq!(resolve_properties(&registry, "a", "p2"), Some(&n(2)));
    assert_eq!(resolve_properties(&registry, "b", "p3"), Some(&Document::Null));
}

#[test]
fn resolve_properties_of_a_missing_member_is_not_found() {
    let registry = registry_ab();
    assert_eq!(resolve_properties(&registry, "a", "p3"), None);
    assert_eq!(resolve_properties(&registry, "b", "p2"), None);
}

#[test]
fn resolve_properties_of_a_document_that_is_no_object_is_not_found() {
    let mut snapshot = Snapshot::new();
    snapshot.insert("list".to_string(), Document::Array(vec![doc_a()]));
    snapshot.insert("word".to_string(), Document::String("p1".to_string()));
    let mut registry = Registry::new();
    registry.replace(snapshot);
    assert_eq!(resolve_properties(&registry, "list", "p1"), None);
    assert_eq!(resolve_properties(&registry, "word", "p1"), None);
}

#[test]
fn batch_drops_a_missing_subject_and_keeps_the_order() {
    let registry = registry_ab();
    let found = batch(&registry, &names(&["a", "missing", "b"]), None);
    assert_eq!(found, vec![doc_a(), doc_b()]);
    let found = batch(&registry, &names(&["b", "missing", "a"]), None);
    assert_eq!(found, vec![doc_b(), doc_a()]);
}

#[test]
fn batch_projects_on_the_requested_properties() {
    let mut snapshot = Snapshot::new();
    snapshot.insert("a".to_string(), doc_a());
    let mut registry = Registry::new();
    registry.replace(snapshot);
    let properties = names(&["p1"]);
    let found = batch(&registry, &names(&["a"]), Some(&properties));
    assert_eq!(found, vec![object(&[("p1", n(1))])]);
}

#[test]
fn batch_leaves_out_properties_that_a_document_lacks() {
    let registry = registry_ab();
    let properties = names(&["p3", "p1", "p9"]);
    let found = batch(&registry, &names(&["a", "b"]), Some(&properties));
    assert_eq!(
        found,
        vec![object(&[("p1", n(1))]), object(&[("p3", Document::Null), ("p1", n(10))])]
    );
}

#[test]
fn batch_answers_a_subject_as_often_as_it_is_asked_for() {
    let registry = registry_ab();
    let found = batch(&registry, &names(&["a", "a"]), None);
    assert_eq!(found, vec![doc_a(), doc_a()]);
}

#[test]
fn batch_of_nothing_is_empty() {
    let registry = registry_ab();
    assert_eq!(batch(&registry, &Vec::new(), None), Vec::new());
    assert_eq!(batch(&registry, &names(&["x", "y"]), None), Vec::new());
    assert_eq!(batch(&Registry::new(), &names(&["a"]), None), Vec::new());
}

#[test]
fn batch_with_no_property_requested_gives_empty_objects() {
    let registry = registry_ab();
    let properties = Vec::new();
    let found = batch(&registry, &names(&["a", "x", "b"]), Some(&properties));
    assert_eq!(found, vec![object(&[]), object(&[])]);
}

#[test]
fn project_keeps_the_requested_members_only() {
    assert_eq!(project(&doc_a(), &names(&["p1"])), object(&[("p1", n(1))]));
    assert_eq!(project(&doc_a(), &names(&["p2", "p1"])), object(&[("p2", n(2)), ("p1", n(1))]));
    assert_eq!(project(&doc_a(), &names(&["p3"])), object(&[]));
}

#[test]
fn project_takes_a_name_asked_twice_once() {
    assert_eq!(project(&doc_a(), &names(&["p1", "p1", "p2", "p1"])), object(&[("p1", n(1)), ("p2", n(2))]));
}

#[test]
fn project_of_a_document_that_is_no_object_is_an_empty_object() {
    assert_eq!(project(&Document::Array(vec![doc_a()]), &names(&["p1"])), object(&[]));
    assert_eq!(project(&Document::Null, &names(&["p1"])), object(&[]));
}

#[test]
fn project_reads_the_member_that_counts() {
    let doc = object(&[("p1", n(1)), ("p1", n(5))]);
    assert_eq!(project(&doc, &names(&["p1"])), object(&[("p1", n(5))]));
}
