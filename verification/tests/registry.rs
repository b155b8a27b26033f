use tokenapi::document::{Document, Number};
use tokenapi::registry::{Registry, Snapshot};

fn tagged(generation: u64) -> Document {
    Document::Object(vec![(
        "generation".to_string(),
        Document::Number(Number::PosInt(generation)),
    )])
}

fn snapshot_of(subjects: &[&str], generation: u64) -> Snapshot {
    let mut snapshot = Snapshot::new();
    for subject in subjects {
        snapshot.insert(subject.to_string(), tagged(generation));
    }
    snapshot
}

#[test]
fn a_new_registry_is_empty() {
    let registry = Registry::new();
    assert_eq!(registry.len(), 0);
    assert_eq!(registry.get("a"), None);
    assert_eq!(registry.get(""), None);
}

#[test]
fn a_new_snapshot_is_empty() {
    let snapshot = Snapshot::new();
    assert_eq!(snapshot.len(), 0);
    assert_eq!(snapshot.get("a"), None);
}

#[test]
fn snapshot_insert_sets_and_overwrites() {
    let mut snapshot = Snapshot::new();
    snapshot.insert("a".to_string(), tagged(1));
    snapshot.insert("b".to_string(), tagged(2));
    assert_eq!(snapshot.len(), 2);
    snapshot.insert("a".to_string(), tagged(3));
    assert_eq!(snapshot.len(), 2);
    assert_eq!(snapshot.get("a"), Some(&tagged(3)));
    assert_eq!(snapshot.get("b"), Some(&tagged(2)));
    assert_eq!(snapshot.get("c"), None);
}

#[test]
fn get_returns_the_document_of_a_subject_that_is_held() {
    let mut registry = Registry::new();
    registry.replace(snapshot_of(&["a", "b"], 1));
    assert_eq!(registry.get("a"), Some(&tagged(1)));
    assert_eq!(registry.get("b"), Some(&tagged(1)));
    assert_eq!(registry.len(), 2);
}

#[test]
fn get_returns_none_for_a_subject_never_loaded() {
    let mut registry = Registry::new();
    registry.replace(snapshot_of(&["a", "b"], 1));
    assert_eq!(registry.get("c"), None);
    assert_eq!(registry.get("A"), None);
    assert_eq!(registry.get("a "), None);
}

#[test]
fn replace_is_strict_and_no_merge() {
    let mut registry = Registry::new();
    registry.replace(snapshot_of(&["a", "b"], 1));
    registry.replace(snapshot_of(&["a"], 2));
    assert_eq!(registry.get("a"), Some(&tagged(2)));
    assert_eq!(registry.get("b"), None);
    assert_eq!(registry.len(), 1);
}

#[test]
fn replace_with_an_empty_snapshot_empties_the_registry() {
    let mut registry = Registry::new();
    registry.replace(snapshot_of(&["a", "b", "c"], 1));
    registry.replace(Snapshot::new());
    assert_eq!(registry.len(), 0);
    assert_eq!(registry.get("a"), None);
}

#[test]
fn one_read_pass_sees_one_generation() {
    let mut registry = Registry::new();
    let subjects = ["a", "b", "c", "d"];
    for generation in 1..20u64 {
        registry.replace(snapshot_of(&subjects, generation));
        let reader = &registry;
        for subject in subjects {
            assert_eq!(reader.get(subject), Some(&tagged(generation)));
        }
    }
}
