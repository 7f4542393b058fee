//! The local definition registry: the catalog of tools, or of agents, that
//! this engine can run itself, keyed by name and walked in name order.

use vstd::prelude::*;
use crate::model::{views, FunctionDefinition, FunctionDefinitionView};
use crate::ordered::{strictly_sorted, SortedMap};
use crate::text::{contains_text, texts};

verus! {

/// Whether a definition called `name` passes the optional name filter.
pub open spec fn wanted(names: Option<Seq<Seq<char>>>, name: Seq<char>) -> bool {
    match names {
        Some(list) => list.contains(name),
        None => true,
    }
}

/// The definitions that pass the optional name filter, in their order.
pub open spec fn select(defs: Seq<FunctionDefinitionView>, names: Option<Seq<Seq<char>>>) -> Seq<
    FunctionDefinitionView,
> {
    defs.filter(|d: FunctionDefinitionView| wanted(names, d.name))
}

/// The optional name filter as character sequences.
pub open spec fn filter_texts(names: Option<&[&str]>) -> Option<Seq<Seq<char>>> {
    match names {
        Some(list) => Some(texts(list@)),
        None => None,
    }
}

/// Whether a definition called `name` passes the optional name filter.
pub fn is_wanted(names: Option<&[&str]>, name: &str) -> (r: bool)
    ensures
        r == wanted(filter_texts(names), name@),
{
    match names {
        Some(list) => contains_text(list, name),
        None => true,
    }
}

/// Why a definition could not be registered.
#[derive(Debug, PartialEq, Eq)]
pub enum RegistryError {
    /// A definition of that name is registered already.
    AlreadyExists(String),
}

/// A catalog of function definitions with unique names.
#[derive(Debug)]
pub struct DefinitionRegistry {
    entries: SortedMap<FunctionDefinition>,
}

impl DefinitionRegistry {
    /// The registered definitions, in name order.
    pub closed spec fn definitions_view(&self) -> Seq<FunctionDefinitionView> {
        views(self.entries.values())
    }

    /// The registered names, in order.
    pub open spec fn names(&self) -> Seq<Seq<char>> {
        self.definitions_view().map_values(|d: FunctionDefinitionView| d.name)
    }

    /// The invariant: names strictly increasing, hence unique.
    pub closed spec fn well_formed(&self) -> bool {
        &&& self.entries.well_formed()
        &&& self.entries.keys() == self.names()
    }

    /// Whether a definition called `name` is registered.
    pub open spec fn has(&self, name: Seq<char>) -> bool {
        self.names().contains(name)
    }

    /// In a well-formed registry the names are strictly increasing.
    pub proof fn lemma_names_sorted(&self)
        requires
            self.well_formed(),
        ensures
            strictly_sorted(self.names()),
    {
    }

    /// An empty registry.
    pub fn new() -> (r: Self)
        ensures
            r.well_formed(),
            r.definitions_view() == Seq::<FunctionDefinitionView>::empty(),
    {
        let r = DefinitionRegistry { entries: SortedMap::new() };
        assert(r.definitions_view() =~= Seq::<FunctionDefinitionView>::empty());
        assert(r.names() =~= Seq::<Seq<char>>::empty());
        r
    }

    /// The number of registered definitions.
    pub fn len(&self) -> (n: usize)
        ensures
            n == self.definitions_view().len(),
    {
        self.entries.len()
    }

    /// Whether a definition called `name` is registered.
    pub fn contains(&self, name: &str) -> (r: bool)
        requires
            self.well_formed(),
        ensures
            r == self.has(name@),
    {
        self.entries.position(name).is_some()
    }

    /// Registers `definition` under its name. A name that is taken already is
    /// refused and the registry stays as it was.
    pub fn add(&mut self, definition: FunctionDefinition) -> (r: Result<(), RegistryError>)
        requires
            old(self).well_formed(),
        ensures
            final(self).well_formed(),
            match r {
                Ok(_) => {
                    &&& !old(self).has(definition@.name)
                    &&& final(self).definitions_view() == old(self).definitions_view().insert(
                        crate::ordered::rank(old(self).names(), definition@.name),
                        definition@,
                    )
                },
                Err(RegistryError::AlreadyExists(name)) => {
                    &&& old(self).has(definition@.name)
                    &&& name@ == definition@.name
                    &&& final(self).definitions_view() == old(self).definitions_view()
                },
            },
    {
        let key = definition.name.clone();
        if self.entries.position(key.as_str()).is_some() {
            return Err(RegistryError::AlreadyExists(key));
        }
        let ghost before = self.entries.values();
        let ghost place = crate::ordered::rank(self.entries.keys(), key@);
        let previous = self.entries.insert(key, definition);
        proof {
            crate::ordered::lemma_rank(old(self).names(), definition@.name);
            assert(views(before.insert(place, definition)) =~= views(before).insert(
                place,
                definition@,
            ));
            assert(self.names() =~= old(self).names().insert(place, definition@.name));
        }
        Ok(())
    }

    /// The definition registered under `name`, if there is one.
    pub fn definition(&self, name: &str) -> (r: Option<FunctionDefinition>)
        requires
            self.well_formed(),
        ensures
            match r {
                Some(d) => self.definitions_view().contains(d@) && d@.name == name@,
                None => !self.has(name@),
            },
    {
        match self.entries.position(name) {
            Some(i) => {
                let d = self.entries.value_at(i).clone();
                assert(self.definitions_view()[i as int] == d@);
                assert(self.names()[i as int] == name@);
                Some(d)
            },
            None => None,
        }
    }

    /// The registered definitions in name order; with a name filter, only
    /// those whose name the filter lists.
    pub fn definitions(&self, names: Option<&[&str]>) -> (r: Vec<FunctionDefinition>)
        requires
            self.well_formed(),
        ensures
            views(r@) == select(self.definitions_view(), filter_texts(names)),
    {
        let ghost all = self.definitions_view();
        let ghost pick = |d: FunctionDefinitionView| wanted(filter_texts(names), d.name);
        let n = self.entries.len();
        let mut out: Vec<FunctionDefinition> = Vec::new();
        let mut i: usize = 0;
        assert(all.take(0) =~= Seq::<FunctionDefinitionView>::empty());
        assert(all.take(0).filter(pick) =~= Seq::<FunctionDefinitionView>::empty()) by {
            reveal(Seq::filter);
        }
        while i < n
            invariant
                i <= n,
                n == all.len(),
                all == self.definitions_view(),
                pick == (|d: FunctionDefinitionView| wanted(filter_texts(names), d.name)),
                views(out@) == all.take(i as int).filter(pick),
            decreases n - i,
        {
            let d = self.entries.value_at(i);
            proof {
                all.lemma_take_succ_push(i as int);
                all.take(i as int).lemma_filter_push(all[i as int], pick);
                assert(d@ == all[i as int]);
            }
            if is_wanted(names, d.name.as_str()) {
                let ghost prior = out@;
                let c = d.clone();
                out.push(c);
                assert(views(out@) =~= views(prior).push(c@));
            }
            i += 1;
        }
        assert(all.take(n as int) =~= all);
        out
    }
}

} // verus!
