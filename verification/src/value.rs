//! Wire documents.
//!
//! Every view of this crate is rendered into a [`Value`]: a tree of scalars,
//! lists and objects that is complete in memory before any encoder sees it.
//! An object keeps its members in the order in which they were emitted, so
//! the order of a rendered map is part of the document. The mathematical
//! form of a `Value` is a [`Doc`]; all contracts speak of documents.

use vstd::prelude::*;

verus! {

/// One member of an object: its key and the document under it.
pub type Member = (Seq<char>, Doc);

/// The mathematical form of a wire document.
pub enum Doc {
    Bool(bool),
    Int(int),
    Str(Seq<char>),
    List(Seq<Doc>),
    Object(Seq<Member>),
}

impl Doc {
    /// The members of an object, in order; no members for any other document.
    pub open spec fn members(self) -> Seq<Member> {
        match self {
            Doc::Object(members) => members,
            _ => Seq::empty(),
        }
    }

    /// The keys of an object, in order.
    pub open spec fn keys(self) -> Seq<Seq<char>> {
        Seq::new(self.members().len(), |i: int| self.members()[i].0)
    }

    /// Whether some member of the object has the key `key`.
    pub open spec fn has_key(self, key: Seq<char>) -> bool {
        exists|i: int| 0 <= i < self.members().len() && (#[trigger] self.members()[i]).0 == key
    }

    /// Whether member `i` is the first one with the key `key`.
    pub open spec fn first_at(self, key: Seq<char>, i: int) -> bool {
        &&& 0 <= i < self.members().len()
        &&& self.members()[i].0 == key
        &&& forall|j: int| 0 <= j < i ==> (#[trigger] self.members()[j]).0 != key
    }

    /// The position of the first member with the key `key`.
    pub open spec fn position(self, key: Seq<char>) -> int
        recommends
            self.has_key(key),
    {
        choose|i: int| self.first_at(key, i)
    }

    /// The document under the first member with the key `key`, if there is one.
    pub open spec fn get(self, key: Seq<char>) -> Option<Doc> {
        if self.has_key(key) {
            Some(self.members()[self.position(key)].1)
        } else {
            None
        }
    }
}

/// At most one position is the first one with a given key.
pub proof fn lemma_first_at_unique(doc: Doc, key: Seq<char>, i: int, j: int)
    requires
        doc.first_at(key, i),
        doc.first_at(key, j),
    ensures
        i == j,
{
    if i < j {
        assert(doc.members()[i].0 != key);
    } else if j < i {
        assert(doc.members()[j].0 != key);
    }
}

/// Where a member is the first with its key, `position` and `get` find it.
pub proof fn lemma_get_first(doc: Doc, key: Seq<char>, i: int)
    requires
        doc.first_at(key, i),
    ensures
        doc.has_key(key),
        doc.position(key) == i,
        doc.get(key) == Some(doc.members()[i].1),
{
    assert(doc.members()[i].0 == key);
    lemma_first_at_unique(doc, key, i, doc.position(key));
}

/// A wire document held in memory.
#[derive(Debug, PartialEq, Eq)]
pub enum Value {
    Bool(bool),
    Int(i64),
    Str(String),
    List(Vec<Value>),
    Object(Vec<(String, Value)>),
}

/// The documents of a list's items, in order.
pub open spec fn items_doc(items: Seq<Value>) -> Seq<Doc> {
    Seq::new(items.len(), |i: int| items[i].doc())
}

/// The members of an object, in order, each with the view of its key.
pub open spec fn members_doc(members: Seq<(String, Value)>) -> Seq<Member> {
    Seq::new(members.len(), |i: int| (members[i].0@, members[i].1.doc()))
}

impl Value {
    /// The document that this value holds.
    pub open spec fn doc(&self) -> Doc
        decreases self,
    {
        match self {
            Value::Bool(b) => Doc::Bool(*b),
            Value::Int(n) => Doc::Int(*n as int),
            Value::Str(s) => Doc::Str(s@),
            Value::List(items) => Doc::List(
                Seq::new(
                    items@.len(),
                    |i: int|
                        if 0 <= i < items@.len() {
                            items@[i].doc()
                        } else {
                            Doc::Bool(false)
                        },
                ),
            ),
            Value::Object(members) => Doc::Object(
                Seq::new(
                    members@.len(),
                    |i: int|
                        if 0 <= i < members@.len() {
                            (members@[i].0@, members@[i].1.doc())
                        } else {
                            (Seq::empty(), Doc::Bool(false))
                        },
                ),
            ),
        }
    }

    /// A string document.
    pub fn string(s: &str) -> (v: Value)
        ensures
            v@ == Doc::Str(s@),
    {
        Value::Str(String::from_str(s))
    }

    /// A list of the given items, in their order.
    pub fn list(items: Vec<Value>) -> (v: Value)
        ensures
            v@ == Doc::List(items_doc(items@)),
    {
        let v = Value::List(items);
        proof {
            assert(v@->List_0 =~= items_doc(items@));
        }
        v
    }

    /// An object of the given members, in their order.
    pub fn object(members: Vec<(String, Value)>) -> (v: Value)
        ensures
            v@ == Doc::Object(members_doc(members@)),
    {
        let v = Value::Object(members);
        proof {
            assert(v@->Object_0 =~= members_doc(members@));
        }
        v
    }

    /// The value under the first member with the key `key`, if this is an
    /// object that has one.
    pub fn get(&self, key: &str) -> (found: Option<&Value>)
        ensures
            match found {
                Some(v) => self@.get(key@) == Some(v@),
                None => self@.get(key@) is None,
            },
    {
        match self {
            Value::Object(members) => {
                let wanted = String::from_str(key);
                proof {
                    assert(self@->Object_0 =~= members_doc(members@));
                }
                let mut i: usize = 0;
                while i < members.len()
                    invariant
                        i <= members@.len(),
                        wanted@ == key@,
                        self@ == Doc::Object(members_doc(members@)),
                        forall|j: int| 0 <= j < i ==> (#[trigger] self@.members()[j]).0 != key@,
                    decreases members@.len() - i,
                {
                    if members[i].0 == wanted {
                        proof {
                            lemma_get_first(self@, key@, i as int);
                        }
                        return Some(&members[i].1);
                    }
                    i += 1;
                }
                None
            },
            _ => None,
        }
    }
}

impl View for Value {
    type V = Doc;

    open spec fn view(&self) -> Doc {
        self.doc()
    }
}

/// Appends the member `key: value` to the members of an object under
/// construction.
pub fn push_member(members: &mut Vec<(String, Value)>, key: &str, value: Value)
    ensures
        members_doc(final(members)@) == members_doc(old(members)@).push((key@, value@)),
{
    members.push((String::from_str(key), value));
    proof {
        assert(members_doc(members@) =~= members_doc(old(members)@).push((key@, value@)));
    }
}

/// Appends `item` to the items of a list under construction.
pub fn push_item(items: &mut Vec<Value>, item: Value)
    ensures
        items_doc(final(items)@) == items_doc(old(items)@).push(item@),
{
    items.push(item);
    proof {
        assert(items_doc(items@) =~= items_doc(old(items)@).push(item@));
    }
}

} // verus!
