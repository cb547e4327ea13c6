//! Tables keyed by text. Entries keep the order in which their keys first
//! came, and a key has the value of its first entry.

use vstd::prelude::*;
use crate::number::Number;
use crate::text::same_text;

verus! {

/// The value that a list of entries gives a key: that of the first entry
/// with the key.
pub open spec fn lookup<V>(entries: Seq<(Seq<char>, V)>, key: Seq<char>) -> Option<V>
    decreases entries.len(),
{
    if entries.len() == 0 {
        None
    } else if entries.first().0 == key {
        Some(entries.first().1)
    } else {
        lookup(entries.drop_first(), key)
    }
}

/// The place of the first entry with a key, or the length of the list if
/// no entry has it.
pub open spec fn first_position<V>(entries: Seq<(Seq<char>, V)>, key: Seq<char>) -> int
    decreases entries.len(),
{
    if entries.len() == 0 || entries.first().0 == key {
        0
    } else {
        1 + first_position(entries.drop_first(), key)
    }
}

/// The first entry with a key stands where no entry before it has the key.
pub proof fn lemma_first_position<V>(entries: Seq<(Seq<char>, V)>, key: Seq<char>, i: int)
    requires
        0 <= i <= entries.len(),
        i < entries.len() ==> entries[i].0 == key,
        forall|j: int| 0 <= j < i ==> entries[j].0 != key,
    ensures
        first_position(entries, key) == i,
    decreases i,
{
    if i > 0 {
        lemma_first_position(entries.drop_first(), key, i - 1);
    }
}

/// A key that no entry of a list has is not given a value by it.
pub proof fn lemma_lookup_none<V>(entries: Seq<(Seq<char>, V)>, key: Seq<char>)
    requires
        forall|j: int| 0 <= j < entries.len() ==> entries[j].0 != key,
    ensures
        lookup(entries, key) is None,
    decreases entries.len(),
{
    if entries.len() > 0 {
        lemma_lookup_none(entries.drop_first(), key);
    }
}

/// The first entry with a key decides its value.
pub proof fn lemma_lookup_first<V>(entries: Seq<(Seq<char>, V)>, key: Seq<char>, i: int)
    requires
        0 <= i < entries.len(),
        entries[i].0 == key,
        forall|j: int| 0 <= j < i ==> entries[j].0 != key,
    ensures
        lookup(entries, key) == Some(entries[i].1),
    decreases i,
{
    if i > 0 {
        lemma_lookup_first(entries.drop_first(), key, i - 1);
    }
}

/// Replacing the value of an entry changes the value of no other key.
pub proof fn lemma_lookup_update<V>(
    entries: Seq<(Seq<char>, V)>,
    i: int,
    value: V,
    key: Seq<char>,
)
    requires
        0 <= i < entries.len(),
        entries[i].0 != key,
    ensures
        lookup(entries.update(i, (entries[i].0, value)), key) == lookup(entries, key),
    decreases entries.len(),
{
    let updated = entries.update(i, (entries[i].0, value));
    if i == 0 {
        assert(updated.drop_first() == entries.drop_first());
    } else {
        assert(updated.drop_first() == entries.drop_first().update(
            i - 1,
            (entries.drop_first()[i - 1].0, value),
        ));
        if entries.first().0 != key {
            lemma_lookup_update(entries.drop_first(), i - 1, value, key);
        }
    }
}

/// An entry put at the end gives its key a value only where the key had
/// none, and changes no other key.
pub proof fn lemma_lookup_push<V>(
    entries: Seq<(Seq<char>, V)>,
    entry: (Seq<char>, V),
    key: Seq<char>,
)
    ensures
        lookup(entries.push(entry), key) == if lookup(entries, key) is Some {
            lookup(entries, key)
        } else if entry.0 == key {
            Some(entry.1)
        } else {
            None
        },
    decreases entries.len(),
{
    if entries.len() == 0 {
        assert(entries.push(entry).drop_first() == entries);
    } else {
        assert(entries.push(entry).drop_first() == entries.drop_first().push(entry));
        lemma_lookup_push(entries.drop_first(), entry, key);
    }
}

/// Whether no two entries of a list have the same key.
pub open spec fn distinct_keys<V>(entries: Seq<(Seq<char>, V)>) -> bool {
    forall|i: int, j: int| 0 <= i < j < entries.len() ==> entries[i].0 != entries[j].0
}

/// A table from names to values.
///
/// Its view is the mapping it stands for. `entries` gives keys and values
/// in their order, for the code that walks a table. A table that is made
/// with `new` and filled with `insert` holds no key twice: it is
/// well-formed.
#[derive(Debug, PartialEq, Eq)]
pub struct Table<V> {
    entries: Vec<(String, V)>,
}

/// Names and their numbers: the parameters of one template application, or
/// the resolved values of the stats that a transform depends on.
pub type ValueTable = Table<Number>;

impl<V> View for Table<V> {
    type V = Map<Seq<char>, V>;

    open spec fn view(&self) -> Map<Seq<char>, V> {
        Map::new(
            |k: Seq<char>| lookup(self.entries(), k) is Some,
            |k: Seq<char>| lookup(self.entries(), k)->0,
        )
    }
}

impl<V> Table<V> {
    /// The entries in their order, each key by its characters.
    pub closed spec fn entries(&self) -> Seq<(Seq<char>, V)> {
        self.entries@.map_values(|e: (String, V)| (e.0@, e.1))
    }

    /// Whether no key occurs twice in the table.
    pub open spec fn wf(&self) -> bool {
        distinct_keys(self.entries())
    }

    /// The table without entries.
    pub fn new() -> (table: Self)
        ensures
            table.entries() == Seq::<(Seq<char>, V)>::empty(),
            table@ == Map::<Seq<char>, V>::empty(),
            table.wf(),
    {
        let table = Table { entries: Vec::new() };
        assert(table.entries() == Seq::<(Seq<char>, V)>::empty());
        assert(table@ == Map::<Seq<char>, V>::empty());
        table
    }

    /// The number of entries.
    pub fn len(&self) -> (n: usize)
        ensures
            n == self.entries().len(),
    {
        self.entries.len()
    }

    /// The position of the first entry with a key.
    fn position(&self, key: &str) -> (found: Option<usize>)
        ensures
            match found {
                Some(i) => i < self.entries().len() && self.entries()[i as int].0 == key@
                    && lookup(self.entries(), key@) == Some(self.entries()[i as int].1),
                None => lookup(self.entries(), key@) is None && forall|j: int|
                    0 <= j < self.entries().len() ==> self.entries()[j].0 != key@,
            },
            found matches Some(i) ==> i == first_position(self.entries(), key@) && forall|j: int|
                0 <= j < i ==> self.entries()[j].0 != key@,
    {
        let mut i: usize = 0;
        while i < self.entries.len()
            invariant
                i <= self.entries.len(),
                self.entries().len() == self.entries.len(),
                forall|j: int| 0 <= j < i ==> self.entries()[j].0 != key@,
            decreases self.entries.len() - i,
        {
            if same_text(self.entries[i].0.as_str(), key) {
                proof {
                    lemma_lookup_first(self.entries(), key@, i as int);
                    lemma_first_position(self.entries(), key@, i as int);
                }
                return Some(i);
            }
            i += 1;
        }
        proof {
            lemma_lookup_none(self.entries(), key@);
        }
        None
    }

    /// Whether the table holds a key.
    pub fn contains_key(&self, key: &str) -> (held: bool)
        ensures
            held == self@.contains_key(key@),
    {
        self.position(key).is_some()
    }

    /// The value of a key, if the table holds it.
    pub fn get(&self, key: &str) -> (value: Option<&V>)
        ensures
            value is Some == self@.contains_key(key@),
            value matches Some(v) ==> *v == self@[key@],
    {
        match self.position(key) {
            Some(i) => Some(&self.entries[i].1),
            None => None,
        }
    }

    /// The key of the entry at a position.
    pub fn key_at(&self, i: usize) -> (key: &String)
        requires
            i < self.entries().len(),
        ensures
            key@ == self.entries()[i as int].0,
    {
        &self.entries[i].0
    }

    /// The value of the entry at a position.
    pub fn value_at(&self, i: usize) -> (value: &V)
        requires
            i < self.entries().len(),
        ensures
            *value == self.entries()[i as int].1,
    {
        &self.entries[i].1
    }

    /// A table with the same entries.
    pub fn duplicate(&self) -> (copy: Self) where V: Copy
        ensures
            copy.entries() == self.entries(),
            copy@ == self@,
    {
        let mut entries: Vec<(String, V)> = Vec::new();
        let mut i: usize = 0;
        while i < self.entries.len()
            invariant
                i <= self.entries.len(),
                entries@.map_values(|e: (String, V)| (e.0@, e.1)) == self.entries().take(i as int),
            decreases self.entries.len() - i,
        {
            let ghost before = entries@;
            entries.push((self.entries[i].0.clone(), self.entries[i].1));
            assert(entries@.map_values(|e: (String, V)| (e.0@, e.1)) == before.map_values(
                |e: (String, V)| (e.0@, e.1),
            ).push(self.entries()[i as int]));
            assert(self.entries().take(i + 1) == self.entries().take(i as int).push(
                self.entries()[i as int],
            ));
            i += 1;
        }
        assert(self.entries().take(i as int) == self.entries());
        Table { entries }
    }

    /// Gives a key its value. A key that the table held keeps its place and
    /// hands back the value it had; a new key goes to the end.
    pub fn insert(&mut self, key: String, value: V) -> (previous: Option<V>)
        ensures
            final(self)@ == old(self)@.insert(key@, value),
            previous is Some == old(self)@.contains_key(key@),
            previous matches Some(v) ==> v == old(self)@[key@],
            !old(self)@.contains_key(key@) ==> final(self).entries() == old(self).entries().push(
                (key@, value),
            ),
            old(self)@.contains_key(key@) ==> final(self).entries() == old(self).entries().update(
                first_position(old(self).entries(), key@),
                (key@, value),
            ),
            old(self).wf() ==> final(self).wf(),
    {
        let ghost before = self.entries();
        match self.position(key.as_str()) {
            Some(i) => {
                let mut value = value;
                std::mem::swap(&mut self.entries[i].1, &mut value);
                proof {
                    let given = self.entries()[i as int].1;
                    assert(self.entries() == before.update(i as int, (before[i as int].0, given)));
                    lemma_lookup_first(self.entries(), key@, i as int);
                    assert forall|k: Seq<char>| k != key@ implies lookup(self.entries(), k)
                        == lookup(before, k) by {
                        lemma_lookup_update(before, i as int, given, k);
                    }
                    assert(self@ =~= Map::new(
                        |k: Seq<char>| lookup(before, k) is Some,
                        |k: Seq<char>| lookup(before, k)->0,
                    ).insert(key@, given));
                }
                Some(value)
            },
            None => {
                self.entries.push((key, value));
                proof {
                    assert(self.entries() == before.push((key@, value)));
                    assert forall|k: Seq<char>|
                        lookup(self.entries(), k) == if lookup(before, k) is Some {
                            lookup(before, k)
                        } else if key@ == k {
                            Some(value)
                        } else {
                            None
                        } by {
                        lemma_lookup_push(before, (key@, value), k);
                    }
                    assert(self@ =~= Map::new(
                        |k: Seq<char>| lookup(before, k) is Some,
                        |k: Seq<char>| lookup(before, k)->0,
                    ).insert(key@, value));
                }
                None
            },
        }
    }
}

} // verus!
