//! JSON documents and their mathematical model.

use vstd::prelude::*;

verus! {

/// A JSON number, held by the integer that stands for it: a non-negative
/// integer, a negative integer, or the IEEE 754 bit pattern of a finite
/// double.
#[derive(Clone, Copy, Debug, PartialEq, Eq)]
pub enum Number {
    PosInt(u64),
    NegInt(i64),
    Float(u64),
}

/// The mathematical value of a JSON document.
pub enum Json {
    Null,
    Bool(bool),
    Number(Number),
    String(Seq<char>),
    Array(Seq<Json>),
    Object(Map<Seq<char>, Json>),
}

/// A JSON document as the registry stores and serves it.
///
/// An object is a list of `(name, value)` members. Where a name occurs more
/// than once the last occurrence is the member of that name. The JSON value
/// that a document denotes is its view: two documents are the same JSON
/// exactly where their views are equal, whereas `==` compares them as
/// written, member lists included.
#[derive(Debug, PartialEq, Eq)]
pub enum Document {
    Null,
    Bool(bool),
    Number(Number),
    String(String),
    Array(Vec<Document>),
    Object(Vec<(String, Document)>),
}

/// The values of a list of documents, in order.
pub open spec fn items_view(items: Seq<Document>) -> Seq<Json>
    decreases items,
{
    if items.len() == 0 {
        Seq::empty()
    } else {
        items_view(items.drop_last()).push(items.last()@)
    }
}

/// The members that a list of `(name, value)` pairs denotes: later pairs
/// replace earlier ones of the same name.
pub open spec fn members_view(entries: Seq<(String, Document)>) -> Map<Seq<char>, Json>
    decreases entries,
{
    if entries.len() == 0 {
        Map::empty()
    } else {
        members_view(entries.drop_last()).insert(entries.last().0@, entries.last().1@)
    }
}

impl View for Document {
    type V = Json;

    open spec fn view(&self) -> Json
        decreases self,
    {
        match self {
            Document::Null => Json::Null,
            Document::Bool(b) => Json::Bool(*b),
            Document::Number(n) => Json::Number(*n),
            Document::String(s) => Json::String(s@),
            Document::Array(items) => Json::Array(items_view(items@)),
            Document::Object(entries) => Json::Object(members_view(entries@)),
        }
    }
}

/// The member of `json` named `name`: a value only where `json` is an object
/// that has such a member.
pub open spec fn member(json: Json, name: Seq<char>) -> Option<Json> {
    match json {
        Json::Object(members) => if members.contains_key(name) {
            Some(members[name])
        } else {
            None
        },
        _ => None,
    }
}

/// Appending a document appends its value.
pub proof fn lemma_items_view_push(items: Seq<Document>, item: Document)
    ensures
        items_view(items.push(item)) == items_view(items).push(item@),
{
    assert(items.push(item).drop_last() =~= items);
}

/// A list of documents and the list of their values correspond index by index.
pub proof fn lemma_items_view_index(items: Seq<Document>)
    ensures
        items_view(items).len() == items.len(),
        forall|i: int| 0 <= i < items.len() ==> #[trigger] items_view(items)[i] == items[i]@,
    decreases items.len(),
{
    if items.len() > 0 {
        lemma_items_view_index(items.drop_last());
        assert(items_view(items) == items_view(items.drop_last()).push(items.last()@));
    } else {
        assert(items_view(items) == Seq::<Json>::empty());
    }
}

/// Appending a pair sets the member of its name.
pub proof fn lemma_members_view_push(entries: Seq<(String, Document)>, name: String, value: Document)
    ensures
        members_view(entries.push((name, value))) == members_view(entries).insert(name@, value@),
{
    assert(entries.push((name, value)).drop_last() =~= entries);
}

/// The member of a name is the value of the last pair that carries it; a name
/// that no pair carries has no member.
pub proof fn lemma_members_view_last(entries: Seq<(String, Document)>, name: Seq<char>, at: int)
    requires
        -1 <= at < entries.len(),
        at >= 0 ==> entries[at].0@ == name,
        forall|j: int| at < j < entries.len() ==> entries[j].0@ != name,
    ensures
        at >= 0 ==> members_view(entries).contains_key(name) && members_view(entries)[name]
            == entries[at].1@,
        at < 0 ==> !members_view(entries).contains_key(name),
    decreases entries.len(),
{
    if entries.len() > 0 {
        let last = entries.last();
        assert(members_view(entries) == members_view(entries.drop_last()).insert(last.0@, last.1@));
        if at < entries.len() - 1 {
            lemma_members_view_last(entries.drop_last(), name, at);
        }
    } else {
        assert(members_view(entries) == Map::<Seq<char>, Json>::empty());
    }
}

/// Finds the last pair of `entries` that is named `name`.
pub fn find_member(entries: &Vec<(String, Document)>, name: &str) -> (r: Option<usize>)
    ensures
        match r {
            Some(at) => at < entries.len() && entries@[at as int].0@ == name@ && members_view(
                entries@,
            ).contains_key(name@) && members_view(entries@)[name@] == entries@[at as int].1@,
            None => !members_view(entries@).contains_key(name@),
        },
        r matches Some(at) ==> forall|j: int| at < j < entries.len() ==> entries@[j].0@ != name@,
        r is None ==> forall|j: int| 0 <= j < entries.len() ==> entries@[j].0@ != name@,
{
    let wanted = name.to_owned();
    let mut i: usize = entries.len();
    while i > 0
        invariant
            i <= entries.len(),
            wanted@ == name@,
            forall|j: int| i <= j < entries.len() ==> entries@[j].0@ != name@,
        decreases i,
    {
        i = i - 1;
        if entries[i].0 == wanted {
            proof {
                lemma_members_view_last(entries@, name@, i as int);
            }
            return Some(i);
        }
    }
    proof {
        lemma_members_view_last(entries@, name@, -1);
    }
    None
}

impl Document {
    /// Looks up the member named `name`. Only an object has members, and
    /// among pairs of one name the last one counts.
    pub fn get(&self, name: &str) -> (r: Option<&Document>)
        ensures
            match r {
                Some(found) => member(self@, name@) == Some(found@),
                None => member(self@, name@) is None,
            },
    {
        match self {
            Document::Object(entries) => match find_member(entries, name) {
                Some(at) => Some(&entries[at].1),
                None => None,
            },
            _ => None,
        }
    }
}

/// Copies a list of documents, item by item.
fn clone_items(items: &Vec<Document>) -> (res: Vec<Document>)
    ensures
        items_view(res@) == items_view(items@),
    decreases items,
{
    let mut res: Vec<Document> = Vec::new();
    let mut i: usize = 0;
    while i < items.len()
        invariant
            i <= items.len(),
            items_view(res@) == items_view(items@.take(i as int)),
        decreases items.len() - i,
    {
        let item = items[i].clone();
        proof {
            lemma_items_view_push(res@, item);
            lemma_items_view_push(items@.take(i as int), items@[i as int]);
            assert(items@.take(i + 1) =~= items@.take(i as int).push(items@[i as int]));
        }
        res.push(item);
        i = i + 1;
    }
    assert(items@.take(i as int) =~= items@);
    res
}

/// Copies a list of members, pair by pair.
fn clone_members(entries: &Vec<(String, Document)>) -> (res: Vec<(String, Document)>)
    ensures
        members_view(res@) == members_view(entries@),
    decreases entries,
{
    let mut res: Vec<(String, Document)> = Vec::new();
    let mut i: usize = 0;
    while i < entries.len()
        invariant
            i <= entries.len(),
            members_view(res@) == members_view(entries@.take(i as int)),
        decreases entries.len() - i,
    {
        let name = entries[i].0.clone();
        let value = entries[i].1.clone();
        proof {
            lemma_members_view_push(res@, name, value);
            lemma_members_view_push(entries@.take(i as int), entries@[i as int].0, entries@[i as int].1);
            assert(entries@.take(i + 1) =~= entries@.take(i as int).push(entries@[i as int]));
        }
        res.push((name, value));
        i = i + 1;
    }
    assert(entries@.take(i as int) =~= entries@);
    res
}

impl Clone for Document {
    /// A deep copy: it denotes the same JSON value.
    fn clone(&self) -> (res: Self)
        ensures
            res@ == self@,
        decreases self,
    {
        match self {
            Document::Null => Document::Null,
            Document::Bool(b) => Document::Bool(*b),
            Document::Number(n) => Document::Number(*n),
            Document::String(s) => Document::String(s.clone()),
            Document::Array(items) => Document::Array(clone_items(items)),
            Document::Object(entries) => Document::Object(clone_members(entries)),
        }
    }
}

} // verus!
