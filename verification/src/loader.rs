//! The loader: from the files of a directory to a snapshot.
//!
//! Scanning the directory and reading its files is the caller's part. The
//! loader takes what the scan found and decides what enters the snapshot.

use crate::document::{Document, Json};
use crate::json::{parse_document, parsed_json};
use crate::registry::{lookup, replaced, Registry, Snapshot};
use vstd::prelude::*;
use vstd::string::StrSliceExecFns;

verus! {

/// One directory entry as the scan found it.
pub struct SourceFile {
    /// The entry's file name (the last component of its path), or `None`
    /// where the name is not valid Unicode.
    pub name: Option<String>,
    /// The file's contents as text, or `None` where it could not be read.
    pub contents: Option<String>,
}

/// Why a load produced no snapshot.
#[derive(Debug, PartialEq, Eq, Structural, Clone, Copy)]
pub enum LoadError {
    /// The root path does not resolve to a directory.
    InvalidPath,
}

/// `at` is the place of the last dot of `name`.
pub open spec fn is_last_dot(name: Seq<char>, at: int) -> bool {
    &&& 0 <= at < name.len()
    &&& name[at] == '.'
    &&& forall|j: int| at < j < name.len() ==> name[j] != '.'
}

/// `name` is empty, `.` or `..`: it names no file.
pub open spec fn names_no_file(name: Seq<char>) -> bool {
    &&& name.len() <= 2
    &&& forall|i: int| 0 <= i < name.len() ==> name[i] == '.'
}

/// The stem of a file name: the name up to its last dot, or the whole name
/// where it has no dot or only a leading one. Empty, `.` and `..` have none.
pub open spec fn stem_of(name: Seq<char>) -> Option<Seq<char>> {
    if names_no_file(name) {
        None
    } else if exists|at: int| 0 < at && is_last_dot(name, at) {
        Some(name.take(choose|at: int| 0 < at && is_last_dot(name, at)))
    } else {
        Some(name)
    }
}

/// Derives the subject from a file name: its stem.
pub fn file_stem(name: &str) -> (r: Option<String>)
    ensures
        match r {
            Some(stem) => stem_of(name@) == Some(stem@),
            None => stem_of(name@) is None,
        },
{
    let len = name.unicode_len();
    let mut last_dot: usize = 0;
    let mut dots_only = true;
    let mut i: usize = 0;
    for c in it: name.chars()
        invariant
            it.seq() == name@,
            len == name@.len(),
            i == it.index(),
            last_dot == 0 || last_dot < i,
            last_dot > 0 ==> name@[last_dot as int] == '.',
            forall|j: int| last_dot < j < i ==> name@[j] != '.',
            dots_only <==> forall|j: int| 0 <= j < i ==> name@[j] == '.',
    {
        if c == '.' {
            last_dot = i;
        } else {
            dots_only = false;
        }
        i = i + 1;
    }
    if dots_only && len <= 2 {
        None
    } else if last_dot > 0 {
        assert(is_last_dot(name@, last_dot as int));
        Some(name.substring_char(0, last_dot).to_owned())
    } else {
        Some(name.to_owned())
    }
}

/// The mapping after one directory entry was weighed: the entry's document
/// stands under the stem of its name, in place of any document that stood
/// there, where the entry has a name with a stem and a document; otherwise
/// the mapping is as before.
pub open spec fn entered(
    mapping: Map<Seq<char>, Json>,
    name: Option<Seq<char>>,
    document: Option<Json>,
) -> Map<Seq<char>, Json> {
    match (name, document) {
        (Some(name), Some(document)) => match stem_of(name) {
            Some(subject) => mapping.insert(subject, document),
            None => mapping,
        },
        _ => mapping,
    }
}

/// The name of an entry as a sequence of characters.
pub open spec fn name_of(file: SourceFile) -> Option<Seq<char>> {
    match file.name {
        Some(name) => Some(name@),
        None => None,
    }
}

/// The JSON value that an entry's file holds: none where the file could not
/// be read or its text is not well-formed JSON.
pub open spec fn json_of(file: SourceFile) -> Option<Json> {
    match file.contents {
        Some(text) => parsed_json(text@),
        None => None,
    }
}

/// The entry enters the snapshot: it has a name with a stem, readable
/// contents, and these are well-formed JSON.
pub open spec fn loadable(file: SourceFile) -> bool {
    &&& name_of(file) matches Some(name)
    &&& stem_of(name) is Some
    &&& json_of(file) is Some
}

/// The subject under which a loadable entry enters the snapshot.
pub open spec fn subject_of(file: SourceFile) -> Seq<char>
    recommends
        loadable(file),
{
    stem_of(name_of(file)->0)->0
}

/// The mapping that a scan loads: its entries weighed one after the other,
/// starting from the empty mapping.
pub open spec fn loaded(files: Seq<SourceFile>) -> Map<Seq<char>, Json>
    decreases files.len(),
{
    if files.len() == 0 {
        Map::empty()
    } else {
        entered(loaded(files.drop_last()), name_of(files.last()), json_of(files.last()))
    }
}

/// No two loadable entries of `files` have the same subject.
pub open spec fn distinct_subjects(files: Seq<SourceFile>) -> bool {
    forall|i: int, j: int|
        0 <= i < j < files.len() && loadable(files[i]) && loadable(files[j]) ==> subject_of(
            files[i],
        ) != subject_of(files[j])
}

/// A load holds a subject exactly where some loadable entry has it as the
/// stem of its name. So a subject that no well-formed file carries is not
/// found after the load.
pub proof fn lemma_loaded_subjects(files: Seq<SourceFile>, subject: Seq<char>)
    ensures
        loaded(files).dom().finite(),
        loaded(files).contains_key(subject) <==> exists|i: int|
            0 <= i < files.len() && loadable(files[i]) && #[trigger] subject_of(files[i])
                == subject,
    decreases files.len(),
{
    if files.len() > 0 {
        let rest = files.drop_last();
        lemma_loaded_subjects(rest, subject);
        if loaded(rest).contains_key(subject) {
            let i = choose|i: int|
                0 <= i < rest.len() && loadable(rest[i]) && #[trigger] subject_of(rest[i])
                    == subject;
            assert(loadable(files[i]) && subject_of(files[i]) == subject);
        }
        if loadable(files.last()) && subject_of(files.last()) == subject {
            assert(subject_of(files[files.len() - 1]) == subject);
        }
        if exists|i: int|
            0 <= i < files.len() && loadable(files[i]) && #[trigger] subject_of(files[i])
                == subject {
            let i = choose|i: int|
                0 <= i < files.len() && loadable(files[i]) && #[trigger] subject_of(files[i])
                    == subject;
            if i < files.len() - 1 {
                assert(loadable(rest[i]) && subject_of(rest[i]) == subject);
            }
        }
    }
}

/// A load holds, under the subject of a loadable entry, the JSON value of
/// that entry's file, provided that no later entry has the same subject.
pub proof fn lemma_loaded_document(files: Seq<SourceFile>, at: int)
    requires
        0 <= at < files.len(),
        loadable(files[at]),
        forall|j: int|
            at < j < files.len() && loadable(files[j]) ==> subject_of(files[j]) != subject_of(
                files[at],
            ),
    ensures
        loaded(files).contains_key(subject_of(files[at])),
        loaded(files)[subject_of(files[at])] == json_of(files[at])->0,
    decreases files.len(),
{
    if at < files.len() - 1 {
        lemma_loaded_document(files.drop_last(), at);
    }
}

/// A load of entries with distinct subjects holds as many subjects as there
/// are loadable entries: files that are unreadable or malformed, and entries
/// without a stem, add nothing.
pub proof fn lemma_loaded_len(files: Seq<SourceFile>)
    requires
        distinct_subjects(files),
    ensures
        loaded(files).len() == files.filter(|file: SourceFile| loadable(file)).len(),
    decreases files.len(),
{
    reveal(Seq::filter);
    if files.len() > 0 {
        let rest = files.drop_last();
        let last = files.last();
        assert(distinct_subjects(rest)) by {
            assert forall|i: int, j: int|
                0 <= i < j < rest.len() && loadable(rest[i]) && loadable(
                    rest[j],
                ) implies subject_of(rest[i]) != subject_of(rest[j]) by {
                assert(rest[i] == files[i] && rest[j] == files[j]);
            }
        }
        lemma_loaded_len(rest);
        if loadable(last) {
            lemma_loaded_subjects(rest, subject_of(last));
            if loaded(rest).contains_key(subject_of(last)) {
                let i = choose|i: int|
                    0 <= i < rest.len() && loadable(rest[i]) && #[trigger] subject_of(rest[i])
                        == subject_of(last);
                assert(rest[i] == files[i] && last == files[files.len() - 1]);
            }
        }
    }
}

/// Loading anew forgets: once a load has replaced the registry's mapping, a
/// subject that no loadable entry of the new scan carries is not found, even
/// where the mapping held it before.
pub proof fn lemma_reload_forgets(
    mapping: Map<Seq<char>, Json>,
    files: Seq<SourceFile>,
    subject: Seq<char>,
)
    requires
        forall|i: int|
            0 <= i < files.len() && loadable(files[i]) ==> #[trigger] subject_of(files[i])
                != subject,
    ensures
        lookup(replaced(mapping, loaded(files)), subject) is None,
{
    lemma_loaded_subjects(files, subject);
}

/// Weighs one directory entry, given its name and the document read from it
/// (`None` where the file was unreadable or malformed), and puts the document
/// into `snapshot` where both are there and the name has a stem. Returns
/// whether it did.
pub fn enter(snapshot: &mut Snapshot, name: Option<&str>, document: Option<Document>) -> (r: bool)
    ensures
        final(snapshot)@ == entered(
            old(snapshot)@,
            match name {
                Some(name) => Some(name@),
                None => None,
            },
            match document {
                Some(document) => Some(document@),
                None => None,
            },
        ),
        r <==> name is Some && document is Some && stem_of(name->0@) is Some,
{
    match (name, document) {
        (Some(name), Some(document)) => match file_stem(name) {
            Some(subject) => {
                snapshot.insert(subject, document);
                true
            },
            None => false,
        },
        _ => false,
    }
}

/// Builds a snapshot from a directory scan. `None` stands for a root path that
/// does not resolve to a directory; it is the one failure. Entries without a
/// stem, unreadable files and malformed JSON are passed over, and of two
/// entries with one stem the later one stays.
pub fn load(listing: Option<&Vec<SourceFile>>) -> (r: Result<Snapshot, LoadError>)
    ensures
        match r {
            Ok(snapshot) => listing matches Some(files) && snapshot@ == loaded(files@),
            Err(error) => listing is None && error == LoadError::InvalidPath,
        },
{
    let files = match listing {
        Some(files) => files,
        None => {
            return Err(LoadError::InvalidPath);
        },
    };
    let mut snapshot = Snapshot::new();
    let mut i: usize = 0;
    while i < files.len()
        invariant
            i <= files.len(),
            snapshot@ == loaded(files@.take(i as int)),
        decreases files.len() - i,
    {
        let file = &files[i];
        let document = match &file.contents {
            Some(text) => parse_document(text.as_str()),
            None => None,
        };
        let name = match &file.name {
            Some(name) => Some(name.as_str()),
            None => None,
        };
        proof {
            assert(files@.take(i + 1).drop_last() =~= files@.take(i as int));
            assert(files@.take(i + 1).last() == files@[i as int]);
        }
        enter(&mut snapshot, name, document);
        i = i + 1;
    }
    assert(files@.take(i as int) =~= files@);
    Ok(snapshot)
}

/// Loads a directory scan and publishes the result. On success the registry
/// holds exactly what was loaded, and the number of its subjects is returned.
/// On failure the registry is left as it was.
pub fn read_mappings(listing: Option<&Vec<SourceFile>>, mappings: &mut Registry) -> (r: Result<
    usize,
    LoadError,
>)
    ensures
        match r {
            Ok(count) => listing matches Some(files) && final(mappings)@ == loaded(files@) && count
                == loaded(files@).len(),
            Err(error) => listing is None && error == LoadError::InvalidPath && final(mappings)@
                == old(mappings)@,
        },
{
    match load(listing) {
        Ok(snapshot) => {
            mappings.replace(snapshot);
            Ok(mappings.len())
        },
        Err(error) => Err(error),
    }
}

} // verus!
