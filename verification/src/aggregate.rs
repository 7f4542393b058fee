//! The definition aggregator: the list of definitions advertised to the
//! model, drawn from the peers of the directory and qualified by the
//! routing tag and the peer's prefix.

use vstd::prelude::*;
use vstd::string::*;
use crate::directory::{is_first_at, serves, EngineInformationView, RemoteEngines};
use crate::model::{views, FunctionDefinition, FunctionDefinitionView};
use crate::registry::{filter_texts, is_wanted, select, wanted};
use crate::router::{remote_agent_tag, remote_tool_tag};
use crate::text::join;

verus! {

/// Which catalog of a peer is meant.
#[derive(Clone, Copy, Debug, PartialEq, Eq)]
pub enum Catalog {
    Tools,
    Agents,
}

/// The routing tag under which a catalog's definitions are exposed.
pub open spec fn catalog_tag(catalog: Catalog) -> Seq<char> {
    match catalog {
        Catalog::Tools => remote_tool_tag(),
        Catalog::Agents => remote_agent_tag(),
    }
}

/// The definitions a peer lists in a catalog.
pub open spec fn catalog_of(engine: EngineInformationView, catalog: Catalog) -> Seq<
    FunctionDefinitionView,
> {
    match catalog {
        Catalog::Tools => engine.tool_definitions,
        Catalog::Agents => engine.agent_definitions,
    }
}

/// The definitions that pass the name filter, each renamed to `qualifier`
/// followed by its own name. The filter looks at the bare names.
pub open spec fn exposed(
    defs: Seq<FunctionDefinitionView>,
    names: Option<Seq<Seq<char>>>,
    qualifier: Seq<char>,
) -> Seq<FunctionDefinitionView> {
    select(defs, names).map_values(|d: FunctionDefinitionView| d.with_prefix(qualifier))
}

/// What one peer, published under `prefix`, exposes of a catalog.
pub open spec fn engine_exposed(
    prefix: Seq<char>,
    engine: EngineInformationView,
    catalog: Catalog,
    names: Option<Seq<Seq<char>>>,
) -> Seq<FunctionDefinitionView> {
    exposed(catalog_of(engine, catalog), names, catalog_tag(catalog) + prefix)
}

/// What the first `count` peers expose of a catalog, peer after peer in
/// directory order.
pub open spec fn all_exposed(
    prefixes: Seq<Seq<char>>,
    engines: Seq<EngineInformationView>,
    catalog: Catalog,
    names: Option<Seq<Seq<char>>>,
    count: int,
) -> Seq<FunctionDefinitionView>
    decreases count,
{
    if count <= 0 {
        Seq::empty()
    } else {
        all_exposed(prefixes, engines, catalog, names, count - 1) + engine_exposed(
            prefixes[count - 1],
            engines[count - 1],
            catalog,
            names,
        )
    }
}

/// The remote definitions on offer. Scoped to an endpoint: what the first
/// peer reached there exposes, nothing where no peer is. Unscoped: what
/// all peers expose.
pub open spec fn remote_definitions(
    directory: RemoteEngines,
    catalog: Catalog,
    endpoint: Option<Seq<char>>,
    names: Option<Seq<Seq<char>>>,
) -> Seq<FunctionDefinitionView> {
    match endpoint {
        Some(e) => {
            if serves(directory.engines(), e) {
                let i = choose|i: int| is_first_at(directory.engines(), e, i);
                engine_exposed(directory.prefixes()[i], directory.engines()[i], catalog, names)
            } else {
                Seq::empty()
            }
        },
        None => all_exposed(
            directory.prefixes(),
            directory.engines(),
            catalog,
            names,
            directory.engines().len() as int,
        ),
    }
}

/// The optional endpoint as a character sequence.
pub open spec fn endpoint_text(endpoint: Option<&str>) -> Option<Seq<char>> {
    match endpoint {
        Some(e) => Some(e@),
        None => None,
    }
}

/// Appends to `out` the definitions of `defs` that pass the name filter,
/// each under `qualifier` followed by its own name.
pub fn append_exposed(
    out: &mut Vec<FunctionDefinition>,
    defs: &Vec<FunctionDefinition>,
    names: Option<&[&str]>,
    qualifier: &str,
)
    ensures
        views(final(out)@) == views(old(out)@) + exposed(
            views(defs@),
            filter_texts(names),
            qualifier@,
        ),
{
    let ghost all = views(defs@);
    let ghost start = views(out@);
    let ghost pick = |d: FunctionDefinitionView| wanted(filter_texts(names), d.name);
    let ghost rename = |d: FunctionDefinitionView| d.with_prefix(qualifier@);
    let n = defs.len();
    let mut i: usize = 0;
    proof {
        assert(all.take(0) =~= Seq::<FunctionDefinitionView>::empty());
        assert(all.take(0).filter(pick) =~= Seq::<FunctionDefinitionView>::empty()) by {
            reveal(Seq::filter);
        }
        assert(views(out@) =~= start + all.take(0).filter(pick).map_values(rename));
    }
    while i < n
        invariant
            i <= n,
            n == defs@.len(),
            all == views(defs@),
            pick == (|d: FunctionDefinitionView| wanted(filter_texts(names), d.name)),
            rename == (|d: FunctionDefinitionView| d.with_prefix(qualifier@)),
            views(out@) == start + all.take(i as int).filter(pick).map_values(rename),
        decreases n - i,
    {
        let d = &defs[i];
        proof {
            all.lemma_take_succ_push(i as int);
            all.take(i as int).lemma_filter_push(all[i as int], pick);
            assert(d@ == all[i as int]);
        }
        if is_wanted(names, d.name.as_str()) {
            let ghost prior = out@;
            let c = d.clone().name_with_prefix(qualifier);
            out.push(c);
            proof {
                let kept = all.take(i as int).filter(pick);
                assert(views(out@) =~= views(prior).push(c@));
                assert(kept.push(all[i as int]).map_values(rename) =~= kept.map_values(
                    rename,
                ).push(rename(all[i as int])));
                assert(views(out@) =~= start + kept.push(all[i as int]).map_values(rename));
            }
        }
        i += 1;
    }
    assert(all.take(n as int) =~= all);
}

/// The definitions that one catalog of the directory's peers puts on
/// offer, optionally scoped to the peer at `endpoint` and filtered by name.
pub fn remote_definitions_of(
    directory: &RemoteEngines,
    catalog: Catalog,
    endpoint: Option<&str>,
    names: Option<&[&str]>,
) -> (r: Vec<FunctionDefinition>)
    ensures
        views(r@) == remote_definitions(
            *directory,
            catalog,
            endpoint_text(endpoint),
            filter_texts(names),
        ),
{
    let tag = match catalog {
        Catalog::Tools => "RT_",
        Catalog::Agents => "RA_",
    };
    let mut out: Vec<FunctionDefinition> = Vec::new();
    assert(views(out@) =~= Seq::<FunctionDefinitionView>::empty());
    match endpoint {
        Some(e) => {
            match directory.find_endpoint(e) {
                Some(i) => {
                    let engine = directory.engine_at(i);
                    let qualifier = join(tag, directory.prefix_at(i).as_str());
                    let defs = match catalog {
                        Catalog::Tools => &engine.tool_definitions,
                        Catalog::Agents => &engine.agent_definitions,
                    };
                    append_exposed(&mut out, defs, names, qualifier.as_str());
                    proof {
                        let c = choose|c: int| is_first_at(directory.engines(), e@, c);
                        assert(c == i);
                        assert(views(out@) =~= engine_exposed(
                            directory.prefixes()[i as int],
                            directory.engines()[i as int],
                            catalog,
                            filter_texts(names),
                        ));
                    }
                },
                None => {},
            }
        },
        None => {
            let n = directory.len();
            let mut i: usize = 0;
            while i < n
                invariant
                    i <= n,
                    n == directory.engines().len(),
                    n == directory.prefixes().len(),
                    tag@ == catalog_tag(catalog),
                    views(out@) == all_exposed(
                        directory.prefixes(),
                        directory.engines(),
                        catalog,
                        filter_texts(names),
                        i as int,
                    ),
                decreases n - i,
            {
                let engine = directory.engine_at(i);
                let qualifier = join(tag, directory.prefix_at(i).as_str());
                let defs = match catalog {
                    Catalog::Tools => &engine.tool_definitions,
                    Catalog::Agents => &engine.agent_definitions,
                };
                append_exposed(&mut out, defs, names, qualifier.as_str());
                i += 1;
            }
        },
    }
    out
}

} // verus!
