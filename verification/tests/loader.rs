use tokenapi::document::{Document, Number};
use tokenapi::loader::{enter, file_stem, load, read_mappings, LoadError, SourceFile};
use tokenapi::registry::{Registry, Snapshot};

fn file(name: &str, contents: &str) -> SourceFile {
    SourceFile { name: Some(name.to_string()), contents: Some(contents.to_string()) }
}

fn unreadable(name: &str) -> SourceFile {
    SourceFile { name: Some(name.to_string()), contents: None }
}

fn one(n: u64) -> Document {
    Document::Object(vec![("v".to_string(), Document::Number(Number::PosInt(n)))])
}

fn stem(name: &str) -> Option<String> {
    file_stem(name)
}

#[test]
fn file_stem_cuts_at_the_last_dot() {
    assert_eq!(stem("a.json"), Some("a".to_string()));
    assert_eq!(stem("a.b.json"), Some("a.b".to_string()));
    assert_eq!(stem("foo."), Some("foo".to_string()));
    assert_eq!(stem("..a"), Some(".".to_string()));
    assert_eq!(stem("a..json"), Some("a.".to_string()));
    assert_eq!(
        stem("5c4f08f47124b8e7ce9a4d0a00a5939da624cf6e533e1dc9de9b49c5556e636c6542656e6e793630.json"),
        Some("5c4f08f47124b8e7ce9a4d0a00a5939da624cf6e533e1dc9de9b49c5556e636c6542656e6e793630".to_string())
    );
}

#[test]
fn file_stem_keeps_a_name_without_a_dot_or_with_a_leading_one() {
    assert_eq!(stem("noext"), Some("noext".to_string()));
    assert_eq!(stem(".hidden"), Some(".hidden".to_string()));
    assert_eq!(stem("a"), Some("a".to_string()));
}

#[test]
fn file_stem_counts_characters_not_bytes() {
    assert_eq!(stem("é.json"), Some("é".to_string()));
    assert_eq!(stem("名前.データ.json"), Some("名前.データ".to_string()));
    assert_eq!(stem("é"), Some("é".to_string()));
}

#[test]
fn file_stem_has_none_for_names_of_no_file() {
    assert_eq!(stem(""), None);
    assert_eq!(stem("."), None);
    assert_eq!(stem(".."), None);
    assert_eq!(stem("..."), Some("..".to_string()));
}

#[test]
fn enter_puts_a_document_under_the_stem() {
    let mut snapshot = Snapshot::new();
    assert!(enter(&mut snapshot, Some("a.json"), Some(one(1))));
    assert_eq!(snapshot.len(), 1);
    assert_eq!(snapshot.get("a"), Some(&one(1)));
    assert_eq!(snapshot.get("a.json"), None);
}

#[test]
fn enter_passes_over_what_has_no_name_no_stem_or_no_document() {
    let mut snapshot = Snapshot::new();
    assert!(!enter(&mut snapshot, None, Some(one(1))));
    assert!(!enter(&mut snapshot, Some(".."), Some(one(1))));
    assert!(!enter(&mut snapshot, Some(""), Some(one(1))));
    assert!(!enter(&mut snapshot, Some("a.json"), None));
    assert!(!enter(&mut snapshot, None, None));
    assert_eq!(snapshot.len(), 0);
}

#[test]
fn enter_overwrites_an_earlier_document_of_the_same_stem() {
    let mut snapshot = Snapshot::new();
    assert!(enter(&mut snapshot, Some("a.json"), Some(one(1))));
    assert!(enter(&mut snapshot, Some("a.txt"), Some(one(2))));
    assert_eq!(snapshot.len(), 1);
    assert_eq!(snapshot.get("a"), Some(&one(2)));
}

#[test]
fn load_counts_the_well_formed_files_only() {
    let files = vec![
        file("a.json", "{\"v\": 1}"),
        file("broken.json", "{\"v\": "),
        file("b.json", "{\"v\": 2}"),
        unreadable("locked.json"),
        file("c.json", "{\"v\": 3}"),
        file("empty.json", ""),
    ];
    let snapshot = load(Some(&files)).ok().unwrap();
    assert_eq!(snapshot.len(), 3);
    assert_eq!(snapshot.get("a"), Some(&one(1)));
    assert_eq!(snapshot.get("b"), Some(&one(2)));
    assert_eq!(snapshot.get("c"), Some(&one(3)));
    assert_eq!(snapshot.get("broken"), None);
    assert_eq!(snapshot.get("locked"), None);
    assert_eq!(snapshot.get("empty"), None);
}

#[test]
fn load_of_an_empty_directory_is_empty() {
    let files: Vec<SourceFile> = Vec::new();
    let snapshot = load(Some(&files)).ok().unwrap();
    assert_eq!(snapshot.len(), 0);
}

#[test]
fn load_fails_on_an_invalid_path() {
    assert_eq!(load(None).err(), Some(LoadError::InvalidPath));
}

#[test]
fn load_gives_the_document_that_the_file_holds() {
    let source = "{\"subject\": \"abc\", \"name\": {\"value\": \"Token\"}, \"n\": [1, 2]}";
    let files = vec![file("abc.json", source)];
    let snapshot = load(Some(&files)).ok().unwrap();
    assert_eq!(snapshot.get("abc").cloned(), tokenapi::json::parse_document(source));
    assert_eq!(
        snapshot.get("abc"),
        Some(&Document::Object(vec![
            ("n".to_string(), Document::Array(vec![
                Document::Number(Number::PosInt(1)),
                Document::Number(Number::PosInt(2)),
            ])),
            ("name".to_string(), Document::Object(vec![
                ("value".to_string(), Document::String("Token".to_string())),
            ])),
            ("subject".to_string(), Document::String("abc".to_string())),
        ]))
    );
}

#[test]
fn load_does_not_ask_for_an_object() {
    let files = vec![file("list.json", "[1]"), file("word.json", "\"w\""), file("nil.json", "null")];
    let snapshot = load(Some(&files)).ok().unwrap();
    assert_eq!(snapshot.len(), 3);
    assert_eq!(snapshot.get("nil"), Some(&Document::Null));
}

#[test]
fn load_keeps_the_later_of_two_files_with_one_stem() {
    let files = vec![file("a.json", "{\"v\": 1}"), file("a.txt", "{\"v\": 2}")];
    let snapshot = load(Some(&files)).ok().unwrap();
    assert_eq!(snapshot.len(), 1);
    assert_eq!(snapshot.get("a"), Some(&one(2)));
}

#[test]
fn load_keeps_an_earlier_file_where_the_later_one_is_malformed() {
    let files = vec![file("a.json", "{\"v\": 1}"), file("a.txt", "not json")];
    let snapshot = load(Some(&files)).ok().unwrap();
    assert_eq!(snapshot.get("a"), Some(&one(1)));
}

#[test]
fn load_passes_over_entries_without_a_name() {
    let files = vec![
        SourceFile { name: None, contents: Some("{\"v\": 1}".to_string()) },
        file("..", "{\"v\": 1}"),
        file("b.json", "{\"v\": 2}"),
    ];
    let snapshot = load(Some(&files)).ok().unwrap();
    assert_eq!(snapshot.len(), 1);
    assert_eq!(snapshot.get("b"), Some(&one(2)));
}

#[test]
fn read_mappings_publishes_what_was_loaded() {
    let mut registry = Registry::new();
    let files = vec![file("a.json", "{\"v\": 1}"), file("b.json", "{\"v\": 2}"), file("x", "?")];
    assert_eq!(read_mappings(Some(&files), &mut registry), Ok(2));
    assert_eq!(registry.len(), 2);
    assert_eq!(registry.get("a"), Some(&one(1)));
    assert_eq!(registry.get("b"), Some(&one(2)));
    assert_eq!(registry.get("x"), None);
}

#[test]
fn a_reload_forgets_a_subject_whose_file_is_gone() {
    let mut registry = Registry::new();
    let first = vec![file("a.json", "{\"v\": 1}"), file("b.json", "{\"v\": 2}")];
    assert_eq!(read_mappings(Some(&first), &mut registry), Ok(2));
    assert_eq!(registry.get("b"), Some(&one(2)));
    let second = vec![file("a.json", "{\"v\": 1}")];
    assert_eq!(read_mappings(Some(&second), &mut registry), Ok(1));
    assert_eq!(registry.get("a"), Some(&one(1)));
    assert_eq!(registry.get("b"), None);
}

#[test]
fn a_reload_from_an_invalid_path_leaves_the_registry_as_it_was() {
    let mut registry = Registry::new();
    let first = vec![file("a.json", "{\"v\": 1}"), file("b.json", "{\"v\": 2}")];
    assert_eq!(read_mappings(Some(&first), &mut registry), Ok(2));
    assert_eq!(read_mappings(None, &mut registry), Err(LoadError::InvalidPath));
    assert_eq!(registry.len(), 2);
    assert_eq!(registry.get("a"), Some(&one(1)));
    assert_eq!(registry.get("b"), Some(&one(2)));
}
