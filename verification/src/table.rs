//! A small map from text keys to values, kept as a list in insertion order.

use crate::text::same_text;
use vstd::prelude::*;

verus! {

/// Index of the first of `keys` at or after `from` that equals `key`.
pub open spec fn index_from(keys: Seq<Seq<char>>, key: Seq<char>, from: int) -> Option<int>
    decreases keys.len() - from,
{
    if from < 0 || from >= keys.len() {
        None
    } else if keys[from] == key {
        Some(from)
    } else {
        index_from(keys, key, from + 1)
    }
}

/// Index of the first of `keys` that equals `key`.
pub open spec fn index_of(keys: Seq<Seq<char>>, key: Seq<char>) -> Option<int> {
    index_from(keys, key, 0)
}

/// Whether no key occurs twice.
pub open spec fn distinct(keys: Seq<Seq<char>>) -> bool {
    forall|i: int, j: int| 0 <= i < j < keys.len() ==> keys[i] != keys[j]
}

/// Where `index_from` finds a key it stands, and does not stand before;
/// where it finds none, none of the keys from `from` on is it.
pub proof fn lemma_index_from(keys: Seq<Seq<char>>, key: Seq<char>, from: int)
    requires
        0 <= from,
    ensures
        match index_from(keys, key, from) {
            Some(i) => from <= i < keys.len() && keys[i] == key && forall|j: int|
                from <= j < i ==> keys[j] != key,
            None => forall|j: int| from <= j < keys.len() ==> keys[j] != key,
        },
    decreases keys.len() - from,
{
    if from < keys.len() && keys[from] != key {
        lemma_index_from(keys, key, from + 1);
    }
}

/// With distinct keys, the index of a key is the one place where it stands.
pub proof fn lemma_index_of_unique(keys: Seq<Seq<char>>, i: int)
    requires
        distinct(keys),
        0 <= i < keys.len(),
    ensures
        index_of(keys, keys[i]) == Some(i),
{
    lemma_index_from(keys, keys[i], 0);
}

/// Where a key stands after another was added at the end.
pub proof fn lemma_index_from_push(
    keys: Seq<Seq<char>>,
    added: Seq<char>,
    key: Seq<char>,
    from: int,
)
    requires
        0 <= from <= keys.len(),
    ensures
        index_from(keys.push(added), key, from) == match index_from(keys, key, from) {
            Some(i) => Some(i),
            None => if key == added {
                Some(keys.len() as int)
            } else {
                None
            },
        },
    decreases keys.len() - from,
{
    let longer = keys.push(added);
    if from < keys.len() {
        if keys[from] != key {
            lemma_index_from_push(keys, added, key, from + 1);
        }
    } else {
        assert(index_from(longer, key, from + 1) is None);
    }
}

/// A map from text keys to values of type `V`.
pub struct Table<V> {
    entries: Vec<(String, V)>,
}

impl<V> Table<V> {
    /// The keys in the order in which they were first inserted.
    pub closed spec fn keys(&self) -> Seq<Seq<char>> {
        Seq::new(self.entries@.len(), |i: int| self.entries@[i].0@)
    }

    /// The value that goes with each key of `keys()`.
    pub closed spec fn values(&self) -> Seq<V> {
        Seq::new(self.entries@.len(), |i: int| self.entries@[i].1)
    }

    /// No key occurs twice.
    pub open spec fn wf(&self) -> bool {
        &&& distinct(self.keys())
        &&& self.keys().len() == self.values().len()
    }

    /// The map that the table stands for.
    pub open spec fn view(&self) -> Map<Seq<char>, V> {
        Map::new(
            |key: Seq<char>| index_of(self.keys(), key) is Some,
            |key: Seq<char>| self.values()[index_of(self.keys(), key)->0],
        )
    }

    /// With distinct keys, the map holds each key with the value beside it.
    pub proof fn lemma_entry(&self, i: int)
        requires
            self.wf(),
            0 <= i < self.keys().len(),
        ensures
            self@.contains_key(self.keys()[i]),
            self@[self.keys()[i]] == self.values()[i],
    {
        lemma_index_of_unique(self.keys(), i);
    }

    /// Each key of the map stands somewhere in the list, with its value
    /// beside it.
    pub proof fn lemma_key(&self, key: Seq<char>) -> (i: int)
        requires
            self@.contains_key(key),
        ensures
            0 <= i < self.keys().len(),
            self.keys()[i] == key,
            self.values()[i] == self@[key],
    {
        lemma_index_from(self.keys(), key, 0);
        index_of(self.keys(), key)->0
    }

    /// An empty table.
    pub fn new() -> (t: Self)
        ensures
            t.wf(),
            t@ == Map::<Seq<char>, V>::empty(),
            t.keys() == Seq::<Seq<char>>::empty(),
    {
        let t = Table { entries: Vec::new() };
        t
    }

    /// Number of keys.
    pub fn len(&self) -> (n: usize)
        ensures
            n == self.keys().len(),
            n == self.values().len(),
    {
        self.entries.len()
    }

    /// The value of the `i`-th key in insertion order.
    pub fn value_at(&self, i: usize) -> (value: &V)
        requires
            i < self.keys().len(),
        ensures
            *value == self.values()[i as int],
    {
        &self.entries[i].1
    }

    /// Where `key` stands, if it is there.
    pub fn position(&self, key: &str) -> (r: Option<usize>)
        ensures
            match r {
                Some(i) => index_of(self.keys(), key@) == Some(i as int) && i < self.keys().len(),
                None => index_of(self.keys(), key@) is None,
            },
    {
        let mut i: usize = 0;
        while i < self.entries.len()
            invariant
                i <= self.entries.len(),
                index_of(self.keys(), key@) == index_from(self.keys(), key@, i as int),
            decreases self.entries.len() - i,
        {
            if same_text(self.entries[i].0.as_str(), key) {
                return Some(i);
            }
            i = i + 1;
        }
        None
    }

    /// The value of `key`, if it is there.
    pub fn get(&self, key: &str) -> (r: Option<&V>)
        ensures
            match r {
                Some(value) => self@.contains_key(key@) && self@[key@] == *value,
                None => !self@.contains_key(key@),
            },
    {
        match self.position(key) {
            Some(i) => Some(&self.entries[i].1),
            None => None,
        }
    }

    /// Whether `key` is there.
    pub fn contains_key(&self, key: &str) -> (b: bool)
        ensures
            b == self@.contains_key(key@),
    {
        self.position(key).is_some()
    }

    /// Sets `key` to `value`. A key that is there keeps its place; a new
    /// one goes to the end.
    pub fn insert(&mut self, key: String, value: V)
        requires
            old(self).wf(),
        ensures
            final(self).wf(),
            final(self)@ == old(self)@.insert(key@, value),
            match index_of(old(self).keys(), key@) {
                Some(i) => final(self).keys() == old(self).keys() && final(self).values() == old(
                    self,
                ).values().update(i, value),
                None => final(self).keys() == old(self).keys().push(key@) && final(self).values()
                    == old(self).values().push(value),
            },
    {
        let ghost keys = self.keys();
        proof {
            lemma_index_from(keys, key@, 0);
        }
        match self.position(key.as_str()) {
            Some(i) => {
                self.entries[i] = (key, value);
                proof {
                    assert(self.keys() =~= keys);
                    assert forall|k: Seq<char>| index_of(keys, k) is Some implies (
                    #[trigger] self@[k]) == old(self)@.insert(key@, value)[k] by {
                        lemma_index_from(keys, k, 0);
                    }
                }
            },
            None => {
                self.entries.push((key, value));
                proof {
                    assert(self.keys() =~= keys.push(key@));
                    assert forall|k: Seq<char>|
                        index_of(self.keys(), k) == if index_of(keys, k) is Some {
                            index_of(keys, k)
                        } else if k == key@ {
                            Some(keys.len() as int)
                        } else {
                            None
                        } by {
                        lemma_index_from_push(keys, key@, k, 0);
                    }
                    assert forall|k: Seq<char>| index_of(keys, k) is Some implies (
                    #[trigger] self@[k]) == old(self)@[k] by {
                        lemma_index_from(keys, k, 0);
                    }
                }
            },
        }
    }
}

} // verus!
