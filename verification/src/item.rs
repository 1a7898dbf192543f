use vstd::prelude::*;

use crate::text::same_text;

verus! {

/// The mathematical content of a parsed manifest value: a tree of tables,
/// arrays and scalars. Contracts across the crate are stated over this type.
pub enum Node {
    Str(Seq<char>),
    Bool(bool),
    Array(Seq<Node>),
    Table(Seq<(Seq<char>, Node)>),
    Other,
}

/// Position of the first entry of `entries` stored under `key`, or
/// `entries.len()` when there is none.
pub open spec fn first_index_of(entries: Seq<(Seq<char>, Node)>, key: Seq<char>) -> int
    decreases entries.len(),
{
    if entries.len() == 0 {
        0
    } else if entries[0].0 == key {
        0
    } else {
        1 + first_index_of(entries.skip(1), key)
    }
}

/// Whether some entry of `entries` is stored under `key`.
pub open spec fn has_key(entries: Seq<(Seq<char>, Node)>, key: Seq<char>) -> bool {
    exists|i: int| 0 <= i < entries.len() && (#[trigger] entries[i]).0 == key
}

/// The value stored under `key`, if any; the first one when a sequence that
/// is not a proper table holds the key more than once.
pub open spec fn lookup(entries: Seq<(Seq<char>, Node)>, key: Seq<char>) -> Option<Node> {
    if has_key(entries, key) {
        Some(entries[first_index_of(entries, key)].1)
    } else {
        None
    }
}

impl Node {
    /// The value under `key` where the node is a table that holds the key.
    pub open spec fn get(self, key: Seq<char>) -> Option<Node> {
        match self {
            Node::Table(t) => lookup(t, key),
            _ => None,
        }
    }
}

/// No two entries share a key.
pub open spec fn distinct_keys(entries: Seq<(Seq<char>, Node)>) -> bool {
    forall|i: int, j: int|
        0 <= i < j < entries.len() ==> (#[trigger] entries[i]).0 != (#[trigger] entries[j]).0
}

/// `first_index_of` finds the key exactly when it is present, and nothing
/// before the position it returns is stored under the key.
pub proof fn lemma_first_index_of(entries: Seq<(Seq<char>, Node)>, key: Seq<char>)
    ensures
        0 <= first_index_of(entries, key) <= entries.len(),
        has_key(entries, key) <==> first_index_of(entries, key) < entries.len(),
        has_key(entries, key) ==> entries[first_index_of(entries, key)].0 == key,
        forall|j: int| 0 <= j < first_index_of(entries, key) ==> (#[trigger] entries[j]).0 != key,
    decreases entries.len(),
{
    if entries.len() == 0 {
    } else if entries[0].0 == key {
    } else {
        let rest = entries.skip(1);
        lemma_first_index_of(rest, key);
        let k = first_index_of(rest, key);
        if has_key(entries, key) {
            let i = choose|i: int| 0 <= i < entries.len() && (#[trigger] entries[i]).0 == key;
            assert(rest[i - 1].0 == key);
        }
        if has_key(rest, key) {
            assert(entries[k + 1] == rest[k]);
        }
        assert forall|j: int| 0 <= j < 1 + k implies (#[trigger] entries[j]).0 != key by {
            if j > 0 {
                assert(entries[j] == rest[j - 1]);
            }
        }
    }
}

/// A parsed manifest value.
#[derive(Debug, PartialEq, Eq)]
pub enum Item {
    String(String),
    Bool(bool),
    Array(Vec<Item>),
    Table(Table),
    /// Any scalar the extraction rules never read: numbers and dates.
    Other,
}

/// A table of a manifest: keys with their values, in the order in which they
/// were inserted. No key occurs twice.
#[derive(Debug, PartialEq, Eq)]
pub struct Table {
    entries: Vec<(String, Item)>,
}

impl View for Item {
    type V = Node;

    open spec fn view(&self) -> Node
        decreases self,
    {
        match self {
            Item::String(s) => Node::Str(s@),
            Item::Bool(b) => Node::Bool(*b),
            Item::Array(items) => Node::Array(
                Seq::new(
                    items@.len(),
                    |i: int|
                        if 0 <= i < items@.len() {
                            items@[i].view()
                        } else {
                            Node::Other
                        },
                ),
            ),
            Item::Table(t) => Node::Table(t.view()),
            Item::Other => Node::Other,
        }
    }
}

/// The content of a list of stored entries.
spec fn content_of(entries: Seq<(String, Item)>) -> Seq<(Seq<char>, Node)>
    decreases entries,
{
    Seq::new(
        entries.len(),
        |i: int|
            if 0 <= i < entries.len() {
                (entries[i].0@, entries[i].1.view())
            } else {
                (Seq::empty(), Node::Other)
            },
    )
}

impl View for Table {
    type V = Seq<(Seq<char>, Node)>;

    closed spec fn view(&self) -> Seq<(Seq<char>, Node)>
        decreases self,
    {
        content_of(self.entries@)
    }
}

impl Table {
    #[verifier::type_invariant]
    closed spec fn keys_occur_once(&self) -> bool {
        distinct_keys(self@)
    }

    /// The empty table.
    pub fn new() -> (t: Table)
        ensures
            t@ == Seq::<(Seq<char>, Node)>::empty(),
    {
        let t = Table { entries: Vec::new() };
        assert(t@ =~= Seq::<(Seq<char>, Node)>::empty());
        t
    }

    /// Number of entries. The call also recalls that the keys are distinct.
    pub fn len(&self) -> (n: usize)
        ensures
            n == self@.len(),
            distinct_keys(self@),
    {
        proof {
            use_type_invariant(self);
        }
        self.entries.len()
    }

    /// The key of the entry at position `i`.
    pub fn key_at(&self, i: usize) -> (key: &str)
        requires
            i < self@.len(),
        ensures
            key@ == self@[i as int].0,
    {
        self.entries[i].0.as_str()
    }

    /// The value of the entry at position `i`.
    pub fn value_at(&self, i: usize) -> (value: &Item)
        requires
            i < self@.len(),
        ensures
            value@ == self@[i as int].1,
    {
        &self.entries[i].1
    }

    /// Position of the entry stored under `key`.
    fn position(&self, key: &str) -> (at: usize)
        ensures
            at == first_index_of(self@, key@),
    {
        let mut i: usize = 0;
        while i < self.entries.len()
            invariant
                i <= self.entries@.len(),
                self@.len() == self.entries@.len(),
                forall|j: int| 0 <= j < i ==> (#[trigger] self@[j]).0 != key@,
            decreases self.entries@.len() - i,
        {
            if same_text(self.entries[i].0.as_str(), key) {
                proof {
                    lemma_first_index_of(self@, key@);
                    assert(self@[i as int].0 == key@);
                }
                return i;
            }
            i += 1;
        }
        proof {
            lemma_first_index_of(self@, key@);
        }
        i
    }

    /// Whether the table holds an entry under `key`.
    pub fn contains_key(&self, key: &str) -> (found: bool)
        ensures
            found == has_key(self@, key@),
    {
        let at = self.position(key);
        proof {
            lemma_first_index_of(self@, key@);
        }
        at < self.entries.len()
    }

    /// The value stored under `key`, if the table holds one.
    pub fn get(&self, key: &str) -> (found: Option<&Item>)
        ensures
            found is Some == lookup(self@, key@) is Some,
            found matches Some(v) ==> lookup(self@, key@) == Some(v@),
    {
        let at = self.position(key);
        proof {
            lemma_first_index_of(self@, key@);
        }
        if at < self.entries.len() {
            Some(&self.entries[at].1)
        } else {
            None
        }
    }

    /// Stores `value` under `key`. A key that is already present keeps its
    /// position and takes the new value; a new key goes to the end.
    pub fn insert(&mut self, key: String, value: Item)
        ensures
            has_key(old(self)@, key@) ==> final(self)@ == old(self)@.update(
                first_index_of(old(self)@, key@),
                (key@, value@),
            ),
            !has_key(old(self)@, key@) ==> final(self)@ == old(self)@.push((key@, value@)),
    {
        let at = self.position(key.as_str());
        proof {
            use_type_invariant(&*self);
            lemma_first_index_of(self@, key@);
        }
        let ghost before = self@;
        let mut taken = Table::new();
        core::mem::swap(self, &mut taken);
        let Table { entries } = taken;
        let mut entries = entries;
        if at < entries.len() {
            entries.set(at, (key, value));
        } else {
            entries.push((key, value));
        }
        proof {
            let after = content_of(entries@);
            if at < before.len() {
                assert(after =~= before.update(at as int, (key@, value@)));
            } else {
                assert(after =~= before.push((key@, value@)));
            }
            assert forall|i: int, j: int| 0 <= i < j < after.len() implies (#[trigger] after[i]).0
                != (#[trigger] after[j]).0 by {
                if i < before.len() && j < before.len() {
                    assert(before[i].0 != before[j].0);
                }
            }
        }
        *self = Table { entries };
    }
}

impl Item {
    /// The table, if the value is one.
    pub fn as_table(&self) -> (table: Option<&Table>)
        ensures
            table is Some == self@ is Table,
            table matches Some(t) ==> self@ == Node::Table(t@),
    {
        match self {
            Item::Table(t) => Some(t),
            _ => None,
        }
    }

    /// The value under `key`, if this is a table that holds the key.
    pub fn get(&self, key: &str) -> (found: Option<&Item>)
        ensures
            found is Some == self@.get(key@) is Some,
            found matches Some(v) ==> self@.get(key@) == Some(v@),
    {
        match self {
            Item::Table(t) => t.get(key),
            _ => None,
        }
    }

    /// The text, if the value is a string.
    pub fn as_str(&self) -> (text: Option<&str>)
        ensures
            text is Some == self@ is Str,
            text matches Some(s) ==> self@ == Node::Str(s@),
    {
        match self {
            Item::String(s) => Some(s.as_str()),
            _ => None,
        }
    }

    /// The flag, if the value is a boolean.
    pub fn as_bool(&self) -> (flag: Option<bool>)
        ensures
            flag is Some == self@ is Bool,
            flag matches Some(b) ==> self@ == Node::Bool(b),
    {
        match self {
            Item::Bool(b) => Some(*b),
            _ => None,
        }
    }
}

} // verus!
