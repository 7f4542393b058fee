//! A map from strings to values that is walked in the lexicographic order
//! of its keys. It backs the local registries and the remote directory,
//! whose iteration order is part of what they promise.

use vstd::prelude::*;
use crate::text::{lex_less, lemma_lex_irreflexive, lemma_lex_transitive, lemma_lex_total, precedes, same_text};

verus! {

/// Whether the keys stand in strictly increasing order.
pub open spec fn strictly_sorted(keys: Seq<Seq<char>>) -> bool {
    forall|i: int, j: int| 0 <= i < j < keys.len() ==> lex_less(#[trigger] keys[i], #[trigger] keys[j])
}

/// The number of leading keys that come before `key`: in a sorted sequence,
/// the place where `key` stands or would be put.
pub open spec fn rank(keys: Seq<Seq<char>>, key: Seq<char>) -> int
    decreases keys.len(),
{
    if keys.len() == 0 {
        0
    } else if lex_less(keys[0], key) {
        1 + rank(keys.skip(1), key)
    } else {
        0
    }
}

/// `rank` is an index into the keys or one past their end; every key before
/// it is smaller than `key`, and the key at it, if any, is not.
pub proof fn lemma_rank(keys: Seq<Seq<char>>, key: Seq<char>)
    ensures
        0 <= rank(keys, key) <= keys.len(),
        forall|i: int| 0 <= i < rank(keys, key) ==> lex_less(#[trigger] keys[i], key),
        rank(keys, key) < keys.len() ==> !lex_less(keys[rank(keys, key)], key),
    decreases keys.len(),
{
    if keys.len() > 0 && lex_less(keys[0], key) {
        let rest = keys.skip(1);
        lemma_rank(rest, key);
        assert forall|i: int| 0 <= i < rank(keys, key) implies lex_less(#[trigger] keys[i], key) by {
            if i > 0 {
                assert(keys[i] == rest[i - 1]);
            }
        }
        if rank(keys, key) < keys.len() {
            assert(keys[rank(keys, key)] == rest[rank(rest, key)]);
        }
    }
}

/// In a sorted sequence a key occurs at its rank or not at all.
pub proof fn lemma_rank_finds(keys: Seq<Seq<char>>, key: Seq<char>, i: int)
    requires
        strictly_sorted(keys),
        0 <= i < keys.len(),
        keys[i] == key,
    ensures
        rank(keys, key) == i,
{
    lemma_rank(keys, key);
    let r = rank(keys, key);
    lemma_lex_irreflexive(key);
    if r < i {
        assert(lex_less(keys[r], keys[i]));
    } else if r > i {
        assert(lex_less(keys[i], key));
    }
}

/// A map keyed by strings, kept in the order of its keys.
#[derive(Debug)]
pub struct SortedMap<V> {
    entries: Vec<(String, V)>,
}

impl<V> SortedMap<V> {
    /// The keys, in iteration order.
    pub closed spec fn keys(&self) -> Seq<Seq<char>> {
        self.entries@.map_values(|e: (String, V)| e.0@)
    }

    /// The values, in the iteration order of their keys.
    pub closed spec fn values(&self) -> Seq<V> {
        self.entries@.map_values(|e: (String, V)| e.1)
    }

    /// The invariant: keys strictly increasing, hence no key twice.
    pub open spec fn well_formed(&self) -> bool {
        &&& self.keys().len() == self.values().len()
        &&& strictly_sorted(self.keys())
    }

    /// Whether `key` is present.
    pub open spec fn contains_key(&self, key: Seq<char>) -> bool {
        self.keys().contains(key)
    }

    /// An empty map.
    pub fn new() -> (r: Self)
        ensures
            r.well_formed(),
            r.keys() == Seq::<Seq<char>>::empty(),
            r.values() == Seq::<V>::empty(),
    {
        let r = SortedMap { entries: Vec::new() };
        assert(r.keys() =~= Seq::<Seq<char>>::empty());
        assert(r.values() =~= Seq::<V>::empty());
        r
    }

    /// The number of entries.
    pub fn len(&self) -> (n: usize)
        ensures
            n == self.keys().len(),
            n == self.values().len(),
    {
        self.entries.len()
    }

    /// The key of the entry at position `i`.
    pub fn key_at(&self, i: usize) -> (k: &String)
        requires
            i < self.keys().len(),
        ensures
            k@ == self.keys()[i as int],
    {
        &self.entries[i].0
    }

    /// The value of the entry at position `i`.
    pub fn value_at(&self, i: usize) -> (v: &V)
        requires
            i < self.values().len(),
        ensures
            *v == self.values()[i as int],
    {
        &self.entries[i].1
    }

    /// The position of `key`, if it is present.
    pub fn position(&self, key: &str) -> (r: Option<usize>)
        requires
            self.well_formed(),
        ensures
            match r {
                Some(i) => i < self.keys().len() && self.keys()[i as int] == key@,
                None => !self.contains_key(key@),
            },
    {
        let n = self.entries.len();
        let mut i: usize = 0;
        while i < n
            invariant
                i <= n,
                n == self.entries@.len(),
                forall|j: int| 0 <= j < i ==> self.keys()[j] != key@,
            decreases n - i,
        {
            if same_text(self.entries[i].0.as_str(), key) {
                return Some(i);
            }
            i += 1;
        }
        None
    }

    /// Puts `value` under `key`. A value already there is replaced and
    /// handed back; otherwise the entry is added at the key's rank, so that
    /// the keys stay in order.
    pub fn insert(&mut self, key: String, value: V) -> (r: Option<V>)
        requires
            old(self).well_formed(),
        ensures
            final(self).well_formed(),
            match r {
                Some(previous) => {
                    let i = rank(old(self).keys(), key@);
                    &&& old(self).contains_key(key@)
                    &&& previous == old(self).values()[i]
                    &&& final(self).keys() == old(self).keys()
                    &&& final(self).values() == old(self).values().update(i, value)
                },
                None => {
                    let i = rank(old(self).keys(), key@);
                    &&& !old(self).contains_key(key@)
                    &&& final(self).keys() == old(self).keys().insert(i, key@)
                    &&& final(self).values() == old(self).values().insert(i, value)
                },
            },
    {
        let n = self.entries.len();
        let ghost keys = self.keys();
        let ghost vals = self.values();
        let mut i: usize = 0;
        while i < n && precedes(self.entries[i].0.as_str(), key.as_str())
            invariant
                i <= n,
                n == self.entries@.len(),
                self.keys() == keys,
                forall|j: int| 0 <= j < i ==> lex_less(#[trigger] keys[j], key@),
            decreases n - i,
        {
            i += 1;
        }
        proof {
            lemma_rank(keys, key@);
            let r = rank(keys, key@);
            if r < i {
                assert(lex_less(keys[r], key@));
            } else if r > i {
                assert(lex_less(keys[i as int], key@));
            }
            assert(r == i);
        }
        if i < n && same_text(self.entries[i].0.as_str(), key.as_str()) {
            let mut entry = (key, value);
            let slot = &mut self.entries[i];
            core::mem::swap(slot, &mut entry);
            proof {
                assert(self.keys() =~= keys);
                assert(self.values() =~= vals.update(i as int, value));
                assert(keys.contains(key@));
            }
            Some(entry.1)
        } else {
            proof {
                assert forall|j: int| 0 <= j < keys.len() implies #[trigger] keys[j] != key@ by {
                    lemma_lex_irreflexive(key@);
                    if j < i {
                    } else if j == i {
                    } else {
                        lemma_lex_total(keys[i as int], key@);
                        assert(lex_less(keys[i as int], keys[j]));
                        if keys[j] == key@ {
                            lemma_lex_transitive(key@, keys[i as int], key@);
                        }
                    }
                }
            }
            self.entries.insert(i, (key, value));
            proof {
                let nk = keys.insert(i as int, key@);
                assert(self.keys() =~= nk);
                assert(self.values() =~= vals.insert(i as int, value));
                assert forall|a: int, b: int| 0 <= a < b < nk.len() implies lex_less(
                    #[trigger] nk[a],
                    #[trigger] nk[b],
                ) by {
                    if b < i {
                    } else if b == i {
                    } else if a < i {
                        if i < n {
                            lemma_lex_total(keys[i as int], key@);
                            if b - 1 > i {
                                assert(lex_less(keys[i as int], keys[b - 1]));
                                lemma_lex_transitive(key@, keys[i as int], keys[b - 1]);
                            }
                            lemma_lex_transitive(keys[a], key@, keys[b - 1]);
                        }
                    } else if a == i {
                        lemma_lex_total(keys[i as int], key@);
                        if b - 1 > i {
                            assert(lex_less(keys[i as int], keys[b - 1]));
                            lemma_lex_transitive(key@, keys[i as int], keys[b - 1]);
                        }
                    } else {
                        assert(lex_less(keys[a - 1], keys[b - 1]));
                    }
                }
            }
            None
        }
    }
}

} // verus!
