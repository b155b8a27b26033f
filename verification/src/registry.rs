//! The registry: the current mapping from subjects to documents, looked up by
//! subject and replaced as a whole.

use crate::document::{Document, Json};
use vstd::hash_map::StringHashMap;
use vstd::prelude::*;

verus! {

/// What a lookup of `subject` finds in `mapping`.
pub open spec fn lookup(mapping: Map<Seq<char>, Json>, subject: Seq<char>) -> Option<Json> {
    if mapping.contains_key(subject) {
        Some(mapping[subject])
    } else {
        None
    }
}

/// The mapping of a registry that held `mapping` once `snapshot` has replaced
/// it: the snapshot, whole, and nothing else.
pub open spec fn replaced(mapping: Map<Seq<char>, Json>, snapshot: Map<Seq<char>, Json>) -> Map<
    Seq<char>,
    Json,
> {
    snapshot
}

/// Replacing is strict, not a merge: after it a lookup finds what the new
/// snapshot holds, so a subject that the snapshot omits is not found, whether
/// or not the registry held it before.
pub proof fn lemma_replace_is_strict(
    mapping: Map<Seq<char>, Json>,
    snapshot: Map<Seq<char>, Json>,
    subject: Seq<char>,
)
    ensures
        lookup(replaced(mapping, snapshot), subject) == lookup(snapshot, subject),
        !snapshot.contains_key(subject) ==> lookup(replaced(mapping, snapshot), subject) is None,
{
}

/// A lookup of a subject that the mapping does not hold finds nothing, and a
/// lookup of one that it holds finds its document.
pub proof fn lemma_lookup_found(mapping: Map<Seq<char>, Json>, subject: Seq<char>)
    ensures
        lookup(mapping, subject) is Some <==> mapping.contains_key(subject),
        lookup(mapping, subject) matches Some(json) ==> json == mapping[subject],
{
}

/// A complete mapping from subjects to documents, as one load produces it.
pub struct Snapshot {
    documents: StringHashMap<Document>,
}

impl View for Snapshot {
    type V = Map<Seq<char>, Json>;

    closed spec fn view(&self) -> Map<Seq<char>, Json> {
        self.documents@.map_values(|document: Document| document@)
    }
}

impl Snapshot {
    /// The empty mapping.
    pub fn new() -> (r: Snapshot)
        ensures
            r@ == Map::<Seq<char>, Json>::empty(),
    {
        let r = Snapshot { documents: StringHashMap::new() };
        assert(r@ =~= Map::<Seq<char>, Json>::empty());
        r
    }

    /// Sets the document of `subject`, in place of any that it had.
    pub fn insert(&mut self, subject: String, document: Document)
        ensures
            final(self)@ == old(self)@.insert(subject@, document@),
    {
        self.documents.insert(subject, document);
        assert(self@ =~= old(self)@.insert(subject@, document@));
    }

    /// The document of `subject`, if the mapping has one.
    pub fn get(&self, subject: &str) -> (r: Option<&Document>)
        ensures
            match r {
                Some(document) => lookup(self@, subject@) == Some(document@),
                None => lookup(self@, subject@) is None,
            },
    {
        self.documents.get(subject)
    }

    /// The number of subjects.
    pub fn len(&self) -> (r: usize)
        ensures
            r == self@.len(),
    {
        assert(self@.dom() =~= self.documents@.dom());
        self.documents.len()
    }
}

/// The subject-to-document store that serves lookups. It starts empty and
/// changes only by `replace`, which takes it from one snapshot to the next
/// with nothing in between: a reader holds `&Registry`, the writer
/// `&mut Registry`, so no lookup can see part of each.
pub struct Registry {
    current: Snapshot,
}

impl View for Registry {
    type V = Map<Seq<char>, Json>;

    closed spec fn view(&self) -> Map<Seq<char>, Json> {
        self.current@
    }
}

impl Registry {
    /// A registry with no subjects.
    pub fn new() -> (r: Registry)
        ensures
            r@ == Map::<Seq<char>, Json>::empty(),
    {
        Registry { current: Snapshot::new() }
    }

    /// The document of `subject` in the current snapshot, or `None` where the
    /// snapshot has no such subject.
    pub fn get(&self, subject: &str) -> (r: Option<&Document>)
        ensures
            match r {
                Some(document) => lookup(self@, subject@) == Some(document@),
                None => lookup(self@, subject@) is None,
            },
    {
        self.current.get(subject)
    }

    /// Puts `snapshot` in place of the current mapping. Nothing of the old
    /// mapping stays.
    pub fn replace(&mut self, snapshot: Snapshot)
        ensures
            final(self)@ == replaced(old(self)@, snapshot@),
    {
        self.current = snapshot;
    }

    /// The number of subjects in the current snapshot.
    pub fn len(&self) -> (r: usize)
        ensures
            r == self@.len(),
    {
        self.current.len()
    }
}

} // verus!
