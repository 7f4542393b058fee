//! The remote engine directory: peer engines keyed by a short prefix that
//! is part of the routing namespace, walked in the order of the prefixes.

use vstd::prelude::*;
use vstd::string::*;
use crate::model::{views, FunctionDefinition, FunctionDefinitionView};
use crate::ordered::{strictly_sorted, SortedMap};
use crate::text::{lemma_lex_irreflexive, same_text, starts_with};

verus! {

/// What the description of a peer engine is, as mathematics.
pub struct EngineInformationView {
    pub id: candid::Principal,
    pub name: Seq<char>,
    pub endpoint: Seq<char>,
    pub agent_definitions: Seq<FunctionDefinitionView>,
    pub tool_definitions: Seq<FunctionDefinitionView>,
}

/// A peer engine: who it is, where it is reached and what it exposes.
#[derive(Debug, PartialEq)]
pub struct EngineInformation {
    pub id: candid::Principal,
    pub name: String,
    pub endpoint: String,
    pub agent_definitions: Vec<FunctionDefinition>,
    pub tool_definitions: Vec<FunctionDefinition>,
}

impl View for EngineInformation {
    type V = EngineInformationView;

    open spec fn view(&self) -> EngineInformationView {
        EngineInformationView {
            id: self.id,
            name: self.name@,
            endpoint: self.endpoint@,
            agent_definitions: views(self.agent_definitions@),
            tool_definitions: views(self.tool_definitions@),
        }
    }
}

/// Whether entry `i` is the one whose prefix `rest` begins with and no
/// other entry's matching prefix is longer.
pub open spec fn is_longest_match(prefixes: Seq<Seq<char>>, rest: Seq<char>, i: int) -> bool {
    &&& 0 <= i < prefixes.len()
    &&& prefixes[i].is_prefix_of(rest)
    &&& forall|j: int|
        0 <= j < prefixes.len() && (#[trigger] prefixes[j]).is_prefix_of(rest) ==> prefixes[j].len()
            <= prefixes[i].len()
}

/// Whether `rest` begins with the prefix of some entry.
pub open spec fn matches_some(prefixes: Seq<Seq<char>>, rest: Seq<char>) -> bool {
    exists|j: int| 0 <= j < prefixes.len() && (#[trigger] prefixes[j]).is_prefix_of(rest)
}

/// Whether entry `i` is the first whose endpoint is `endpoint`.
pub open spec fn is_first_at(engines: Seq<EngineInformationView>, endpoint: Seq<char>, i: int) -> bool {
    &&& 0 <= i < engines.len()
    &&& engines[i].endpoint == endpoint
    &&& forall|j: int| 0 <= j < i ==> (#[trigger] engines[j]).endpoint != endpoint
}

/// Whether some entry is reached at `endpoint`.
pub open spec fn serves(engines: Seq<EngineInformationView>, endpoint: Seq<char>) -> bool {
    exists|j: int| 0 <= j < engines.len() && (#[trigger] engines[j]).endpoint == endpoint
}

/// With distinct prefixes, at most one entry is the longest match.
pub proof fn lemma_longest_match_unique(prefixes: Seq<Seq<char>>, rest: Seq<char>, i: int, j: int)
    requires
        strictly_sorted(prefixes),
        is_longest_match(prefixes, rest, i),
        is_longest_match(prefixes, rest, j),
    ensures
        i == j,
{
    assert(prefixes[i].len() == prefixes[j].len());
    assert(prefixes[i] =~= rest.subrange(0, prefixes[i].len() as int));
    assert(prefixes[j] =~= rest.subrange(0, prefixes[j].len() as int));
    lemma_lex_irreflexive(prefixes[i]);
    if i < j {
        assert(crate::text::lex_less(prefixes[i], prefixes[j]));
    } else if j < i {
        assert(crate::text::lex_less(prefixes[j], prefixes[i]));
    }
}

/// The directory of peer engines, keyed by prefix.
#[derive(Debug)]
pub struct RemoteEngines {
    entries: SortedMap<EngineInformation>,
}

impl RemoteEngines {
    /// The prefixes, in iteration order.
    pub closed spec fn prefixes(&self) -> Seq<Seq<char>> {
        self.entries.keys()
    }

    /// The engines, in the iteration order of their prefixes.
    pub closed spec fn engines(&self) -> Seq<EngineInformationView> {
        views(self.entries.values())
    }

    /// The invariant: one engine per prefix, prefixes strictly increasing.
    pub open spec fn well_formed(&self) -> bool {
        &&& self.prefixes().len() == self.engines().len()
        &&& strictly_sorted(self.prefixes())
    }

    /// An empty directory.
    pub fn new() -> (r: Self)
        ensures
            r.well_formed(),
            r.prefixes() == Seq::<Seq<char>>::empty(),
            r.engines() == Seq::<EngineInformationView>::empty(),
    {
        let r = RemoteEngines { entries: SortedMap::new() };
        assert(r.engines() =~= Seq::<EngineInformationView>::empty());
        r
    }

    /// The number of engines.
    pub fn len(&self) -> (n: usize)
        ensures
            n == self.prefixes().len(),
            n == self.engines().len(),
    {
        self.entries.len()
    }

    /// The prefix of the entry at position `i`.
    pub fn prefix_at(&self, i: usize) -> (p: &String)
        requires
            i < self.prefixes().len(),
        ensures
            p@ == self.prefixes()[i as int],
    {
        self.entries.key_at(i)
    }

    /// The engine of the entry at position `i`.
    pub fn engine_at(&self, i: usize) -> (e: &EngineInformation)
        requires
            i < self.engines().len(),
        ensures
            e@ == self.engines()[i as int],
    {
        self.entries.value_at(i)
    }

    /// Publishes `engine` under `prefix`. An engine already published under
    /// that prefix is replaced and handed back; otherwise the entry takes
    /// its place in prefix order.
    pub fn insert(&mut self, prefix: String, engine: EngineInformation) -> (r: Option<
        EngineInformation,
    >)
        requires
            old(self).well_formed(),
        ensures
            final(self).well_formed(),
            match r {
                Some(previous) => {
                    let i = crate::ordered::rank(old(self).prefixes(), prefix@);
                    &&& old(self).prefixes().contains(prefix@)
                    &&& previous@ == old(self).engines()[i]
                    &&& final(self).prefixes() == old(self).prefixes()
                    &&& final(self).engines() == old(self).engines().update(i, engine@)
                },
                None => {
                    let i = crate::ordered::rank(old(self).prefixes(), prefix@);
                    &&& !old(self).prefixes().contains(prefix@)
                    &&& final(self).prefixes() == old(self).prefixes().insert(i, prefix@)
                    &&& final(self).engines() == old(self).engines().insert(i, engine@)
                },
            },
    {
        let ghost before = self.entries.values();
        let ghost place = crate::ordered::rank(self.entries.keys(), prefix@);
        proof {
            crate::ordered::lemma_rank(self.entries.keys(), prefix@);
            if self.entries.keys().contains(prefix@) {
                let k = choose|k: int|
                    0 <= k < self.entries.keys().len() && self.entries.keys()[k] == prefix@;
                crate::ordered::lemma_rank_finds(self.entries.keys(), prefix@, k);
            }
        }
        let r = self.entries.insert(prefix, engine);
        proof {
            match r {
                Some(_) => {
                    assert(views(before.update(place, engine)) =~= views(before).update(
                        place,
                        engine@,
                    ));
                },
                None => {
                    assert(views(before.insert(place, engine)) =~= views(before).insert(
                        place,
                        engine@,
                    ));
                },
            }
        }
        r
    }

    /// The first entry, in prefix order, that is reached at `endpoint`.
    pub fn find_endpoint(&self, endpoint: &str) -> (r: Option<usize>)
        ensures
            match r {
                Some(i) => i < self.prefixes().len() && is_first_at(
                    self.engines(),
                    endpoint@,
                    i as int,
                ),
                None => !serves(self.engines(), endpoint@),
            },
    {
        let n = self.entries.len();
        let mut i: usize = 0;
        while i < n
            invariant
                i <= n,
                n == self.engines().len(),
                n == self.prefixes().len(),
                forall|j: int| 0 <= j < i ==> (#[trigger] self.engines()[j]).endpoint != endpoint@,
            decreases n - i,
        {
            if same_text(self.entries.value_at(i).endpoint.as_str(), endpoint) {
                return Some(i);
            }
            i += 1;
        }
        None
    }

    /// The entry whose prefix `rest` begins with; where several do, the one
    /// with the longest prefix.
    pub fn longest_match(&self, rest: &str) -> (r: Option<usize>)
        ensures
            match r {
                Some(i) => is_longest_match(self.prefixes(), rest@, i as int),
                None => !matches_some(self.prefixes(), rest@),
            },
    {
        let n = self.entries.len();
        let mut best: Option<usize> = None;
        let mut best_len: usize = 0;
        let mut i: usize = 0;
        while i < n
            invariant
                i <= n,
                n == self.prefixes().len(),
                match best {
                    Some(b) => {
                        &&& b < i
                        &&& best_len == self.prefixes()[b as int].len()
                        &&& self.prefixes()[b as int].is_prefix_of(rest@)
                        &&& forall|j: int|
                            0 <= j < i && (#[trigger] self.prefixes()[j]).is_prefix_of(rest@)
                                ==> self.prefixes()[j].len() <= best_len
                    },
                    None => forall|j: int|
                        0 <= j < i ==> !(#[trigger] self.prefixes()[j]).is_prefix_of(rest@),
                },
            decreases n - i,
        {
            let key = self.entries.key_at(i);
            if starts_with(rest, key.as_str()) {
                let len = key.as_str().unicode_len();
                if best.is_none() || len > best_len {
                    best = Some(i);
                    best_len = len;
                }
            }
            i += 1;
        }
        best
    }
}

} // verus!
