//! An ordered mapping from byte-string keys to byte-string values.
//!
//! Entries keep the order in which their keys were first inserted; inserting
//! under a key that is already present replaces its value in place.

use crate::bytes::{bytes_equal, copy_range};
use vstd::prelude::*;

verus! {

/// The mathematical model of a mapping: its entries in insertion order.
pub type Entries = Seq<(Seq<u8>, Seq<u8>)>;

/// Entry `i` of `entries` has the key `key`.
pub open spec fn key_at(entries: Entries, key: Seq<u8>, i: int) -> bool {
    0 <= i < entries.len() && entries[i].0 == key
}

/// Some entry of `entries` has the key `key`.
pub open spec fn has_key(entries: Entries, key: Seq<u8>) -> bool {
    exists|i: int| key_at(entries, key, i)
}

/// The position of an entry with the key `key`.
pub open spec fn key_index(entries: Entries, key: Seq<u8>) -> int {
    choose|i: int| key_at(entries, key, i)
}

/// No key occurs in two entries.
pub open spec fn distinct_keys(entries: Entries) -> bool {
    forall|i: int, j: int|
        0 <= i < entries.len() && 0 <= j < entries.len() && i != j ==> entries[i].0 != entries[j].0
}

/// The value stored under `key`, if there is one.
pub open spec fn lookup(entries: Entries, key: Seq<u8>) -> Option<Seq<u8>> {
    if has_key(entries, key) {
        Some(entries[key_index(entries, key)].1)
    } else {
        None
    }
}

/// `entries` after writing `value` under `key`: the last write wins, and a key
/// keeps the place of its first insertion.
pub open spec fn inserted(entries: Entries, key: Seq<u8>, value: Seq<u8>) -> Entries {
    if has_key(entries, key) {
        entries.update(key_index(entries, key), (key, value))
    } else {
        entries.push((key, value))
    }
}

/// The mapping built by inserting `pairs` from left to right into an empty one.
pub open spec fn from_pairs(pairs: Entries) -> Entries
    decreases pairs.len(),
{
    if pairs.len() == 0 {
        Seq::empty()
    } else {
        inserted(from_pairs(pairs.drop_last()), pairs.last().0, pairs.last().1)
    }
}

/// With distinct keys, the entry found for a key is the only one with it.
pub proof fn lemma_key_index_unique(entries: Entries, key: Seq<u8>, i: int)
    requires
        distinct_keys(entries),
        key_at(entries, key, i),
    ensures
        has_key(entries, key),
        key_index(entries, key) == i,
        lookup(entries, key) == Some(entries[i].1),
{
    let c = key_index(entries, key);
    assert(key_at(entries, key, c));
    if c != i {
        assert(entries[c].0 != entries[i].0);
    }
}

/// Inserting keeps the keys distinct.
pub proof fn lemma_inserted_distinct(entries: Entries, key: Seq<u8>, value: Seq<u8>)
    requires
        distinct_keys(entries),
    ensures
        distinct_keys(inserted(entries, key, value)),
{
    let after = inserted(entries, key, value);
    if has_key(entries, key) {
        let c = key_index(entries, key);
        assert(key_at(entries, key, c));
        assert forall|i: int, j: int|
            0 <= i < after.len() && 0 <= j < after.len() && i != j implies after[i].0
            != after[j].0 by {
            assert(after[i].0 == entries[i].0);
            assert(after[j].0 == entries[j].0);
        }
    } else {
        assert forall|i: int, j: int|
            0 <= i < after.len() && 0 <= j < after.len() && i != j implies after[i].0
            != after[j].0 by {
            if i == entries.len() {
                assert(!key_at(entries, key, j));
            } else if j == entries.len() {
                assert(!key_at(entries, key, i));
            }
        }
    }
}

/// The last write wins: after an insertion the key holds the new value, every
/// other key holds what it held before, and the mapping grows by one entry
/// exactly when the key is new.
pub proof fn lemma_inserted_lookup(entries: Entries, key: Seq<u8>, value: Seq<u8>, other: Seq<u8>)
    requires
        distinct_keys(entries),
    ensures
        lookup(inserted(entries, key, value), key) == Some(value),
        other != key ==> lookup(inserted(entries, key, value), other) == lookup(entries, other),
        inserted(entries, key, value).len() == entries.len() + (if has_key(entries, key) {
            0int
        } else {
            1int
        }),
{
    let after = inserted(entries, key, value);
    lemma_inserted_distinct(entries, key, value);
    if has_key(entries, key) {
        let c = key_index(entries, key);
        assert(key_at(entries, key, c));
        assert(key_at(after, key, c));
        lemma_key_index_unique(after, key, c);
    } else {
        let n = entries.len() as int;
        assert(key_at(after, key, n));
        lemma_key_index_unique(after, key, n);
    }
    if other != key {
        if has_key(entries, other) {
            let o = key_index(entries, other);
            assert(key_at(entries, other, o));
            assert(key_at(after, other, o));
            lemma_key_index_unique(after, other, o);
        } else {
            if has_key(after, other) {
                let o = key_index(after, other);
                assert(key_at(after, other, o));
                assert(key_at(entries, other, o));
            }
        }
    }
}

/// A mapping built from pairs has distinct keys.
pub proof fn lemma_from_pairs_distinct(pairs: Entries)
    ensures
        distinct_keys(from_pairs(pairs)),
    decreases pairs.len(),
{
    if pairs.len() > 0 {
        lemma_from_pairs_distinct(pairs.drop_last());
        lemma_inserted_distinct(from_pairs(pairs.drop_last()), pairs.last().0, pairs.last().1);
    }
}

/// The entries that a vector of pairs stands for.
pub open spec fn pairs_view(pairs: Seq<(Vec<u8>, Vec<u8>)>) -> Entries {
    Seq::new(pairs.len(), |i: int| (pairs[i].0@, pairs[i].1@))
}

/// An ordered mapping from keys to values, both byte strings.
pub struct Parameters {
    entries: Vec<(Vec<u8>, Vec<u8>)>,
}

impl View for Parameters {
    type V = Entries;

    closed spec fn view(&self) -> Entries {
        pairs_view(self.entries@)
    }
}

impl Parameters {
    #[verifier::type_invariant]
    spec fn keys_are_distinct(&self) -> bool {
        distinct_keys(self@)
    }

    /// An empty mapping.
    pub fn new() -> (parameters: Parameters)
        ensures
            parameters@ == Seq::<(Seq<u8>, Seq<u8>)>::empty(),
    {
        let parameters = Parameters { entries: Vec::new() };
        assert(parameters@ =~= Seq::<(Seq<u8>, Seq<u8>)>::empty());
        parameters
    }

    /// The number of entries.
    pub fn len(&self) -> (n: usize)
        ensures
            n == self@.len(),
    {
        self.entries.len()
    }

    /// Whether the mapping has no entry.
    pub fn is_empty(&self) -> (empty: bool)
        ensures
            empty == (self@.len() == 0),
    {
        self.entries.len() == 0
    }

    fn position(&self, key: &[u8]) -> (found: Option<usize>)
        ensures
            distinct_keys(self@),
            match found {
                Some(i) => key_at(self@, key@, i as int) && key_index(self@, key@) == i,
                None => !has_key(self@, key@),
            },
    {
        proof {
            use_type_invariant(self);
        }
        let mut i: usize = 0;
        while i < self.entries.len()
            invariant
                i <= self.entries@.len(),
                self@.len() == self.entries@.len(),
                distinct_keys(self@),
                forall|j: int| 0 <= j < i ==> !key_at(self@, key@, j),
            decreases self.entries@.len() - i,
        {
            if bytes_equal(self.entries[i].0.as_slice(), key) {
                proof {
                    assert(key_at(self@, key@, i as int));
                    lemma_key_index_unique(self@, key@, i as int);
                }
                return Some(i);
            }
            i = i + 1;
        }
        None
    }

    /// The value stored under `key`, if there is one.
    pub fn get_raw(&self, key: &[u8]) -> (value: Option<&Vec<u8>>)
        ensures
            distinct_keys(self@),
            match value {
                Some(v) => lookup(self@, key@) == Some(v@),
                None => lookup(self@, key@) is None,
            },
    {
        match self.position(key) {
            Some(i) => Some(&self.entries[i].1),
            None => None,
        }
    }

    /// Whether some value is stored under `key`.
    pub fn contains_key(&self, key: &[u8]) -> (present: bool)
        ensures
            present == has_key(self@, key@),
    {
        self.position(key).is_some()
    }

    /// Stores `value` under `key`. A value already stored under `key` is
    /// replaced, and its entry keeps its place.
    pub fn insert(&mut self, key: Vec<u8>, value: Vec<u8>)
        ensures
            final(self)@ == inserted(old(self)@, key@, value@),
            distinct_keys(final(self)@),
    {
        let found = self.position(key.as_slice());
        proof {
            lemma_inserted_distinct(self@, key@, value@);
        }
        let ghost before = self@;
        let mut entries: Vec<(Vec<u8>, Vec<u8>)> = Vec::new();
        assert(pairs_view(entries@) =~= Seq::<(Seq<u8>, Seq<u8>)>::empty());
        core::mem::swap(&mut self.entries, &mut entries);
        match found {
            Some(i) => {
                entries.set(i, (key, value));
                assert(pairs_view(entries@) =~= before.update(i as int, (key@, value@)));
            },
            None => {
                entries.push((key, value));
                assert(pairs_view(entries@) =~= before.push((key@, value@)));
            },
        }
        core::mem::swap(&mut self.entries, &mut entries);
    }

    /// The mapping built by inserting `pairs` from left to right.
    pub fn from_pairs(pairs: &[(Vec<u8>, Vec<u8>)]) -> (parameters: Parameters)
        ensures
            parameters@ == from_pairs(pairs_view(pairs@)),
            distinct_keys(parameters@),
    {
        let mut parameters = Parameters::new();
        let ghost all = pairs_view(pairs@);
        let mut i: usize = 0;
        while i < pairs.len()
            invariant
                i <= pairs@.len(),
                all == pairs_view(pairs@),
                parameters@ == from_pairs(all.take(i as int)),
                distinct_keys(parameters@),
            decreases pairs@.len() - i,
        {
            let key = copy_range(pairs[i].0.as_slice(), 0, pairs[i].0.len());
            let value = copy_range(pairs[i].1.as_slice(), 0, pairs[i].1.len());
            proof {
                let next = all.take(i + 1);
                assert(next.drop_last() =~= all.take(i as int));
                assert(key@ =~= next.last().0);
                assert(value@ =~= next.last().1);
            }
            parameters.insert(key, value);
            i = i + 1;
        }
        assert(all.take(i as int) =~= all);
        parameters
    }

    /// The key and the value of entry `i`, in insertion order.
    pub fn entry(&self, i: usize) -> (pair: (&Vec<u8>, &Vec<u8>))
        requires
            i < self@.len(),
        ensures
            pair.0@ == self@[i as int].0,
            pair.1@ == self@[i as int].1,
    {
        (&self.entries[i].0, &self.entries[i].1)
    }
}

} // verus!
