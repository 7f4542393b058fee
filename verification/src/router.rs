//! The name router: from a call name to the class of the call and to the
//! place that serves it. Routing reads the registries and the directory and
//! changes nothing.

use vstd::prelude::*;
use vstd::string::*;
use crate::directory::{is_longest_match, lemma_longest_match_unique, matches_some, RemoteEngines};
use crate::registry::DefinitionRegistry;
use crate::text::{starts_with, strip_prefix};

verus! {

/// The tag in front of a remote tool's name.
pub open spec fn remote_tool_tag() -> Seq<char> {
    "RT_"@
}

/// The tag in front of a remote agent's name.
pub open spec fn remote_agent_tag() -> Seq<char> {
    "RA_"@
}

/// The tag that marks a name as a local agent's.
pub open spec fn local_agent_tag() -> Seq<char> {
    "LA_"@
}

/// Each routing tag is three characters long.
pub proof fn lemma_tags()
    ensures
        remote_tool_tag() == seq!['R', 'T', '_'],
        remote_agent_tag() == seq!['R', 'A', '_'],
        local_agent_tag() == seq!['L', 'A', '_'],
{
    reveal_strlit("RT_");
    reveal_strlit("RA_");
    reveal_strlit("LA_");
    assert(remote_tool_tag() =~= seq!['R', 'T', '_']);
    assert(remote_agent_tag() =~= seq!['R', 'A', '_']);
    assert(local_agent_tag() =~= seq!['L', 'A', '_']);
}

/// How the completion loop treats a requested call.
#[derive(Clone, Copy, Debug, PartialEq, Eq)]
pub enum CallClass {
    /// Dispatched as a tool call.
    Tool,
    /// Dispatched as an agent run.
    Agent,
    /// Matches nothing: dropped without a word.
    Unknown,
}

/// The class of a call name: a tool if the name is a local tool's or
/// carries the remote-tool tag; else an agent if it is a local agent's or
/// carries an agent tag; else unknown.
pub open spec fn call_class(
    name: Seq<char>,
    tools: DefinitionRegistry,
    agents: DefinitionRegistry,
) -> CallClass {
    if tools.has(name) || remote_tool_tag().is_prefix_of(name) {
        CallClass::Tool
    } else if agents.has(name) || local_agent_tag().is_prefix_of(name)
        || remote_agent_tag().is_prefix_of(name) {
        CallClass::Agent
    } else {
        CallClass::Unknown
    }
}

/// Where a routed name is served, as mathematics.
pub enum TargetView {
    /// By a peer engine: its endpoint and the bare name it knows.
    Remote { endpoint: Seq<char>, name: Seq<char> },
    /// By this engine, under the given registry name.
    Local { name: Seq<char> },
    /// Nowhere; the name is handed back for the error.
    NotFound { name: Seq<char> },
}

/// Where a routed name is served.
#[derive(Debug, PartialEq, Eq)]
pub enum Target {
    Remote { endpoint: String, name: String },
    Local { name: String },
    NotFound { name: String },
}

impl View for Target {
    type V = TargetView;

    open spec fn view(&self) -> TargetView {
        match self {
            Target::Remote { endpoint, name } => TargetView::Remote {
                endpoint: endpoint@,
                name: name@,
            },
            Target::Local { name } => TargetView::Local { name: name@ },
            Target::NotFound { name } => TargetView::NotFound { name: name@ },
        }
    }
}

/// The peer that serves `rest`, the part of a name after a remote tag: the
/// entry with the longest prefix that `rest` begins with, and what is left
/// of `rest` after that prefix. `None` where no prefix matches.
pub open spec fn remote_target(rest: Seq<char>, engines: RemoteEngines) -> Option<TargetView> {
    if matches_some(engines.prefixes(), rest) {
        let i = choose|i: int| is_longest_match(engines.prefixes(), rest, i);
        Some(
            TargetView::Remote {
                endpoint: engines.engines()[i].endpoint,
                name: rest.skip(engines.prefixes()[i].len() as int),
            },
        )
    } else {
        None
    }
}

/// Where a tool name is served. A name with the remote-tool tag belongs to
/// the directory alone; any other name is looked up among the local tools.
pub open spec fn tool_target(
    name: Seq<char>,
    tools: DefinitionRegistry,
    engines: RemoteEngines,
) -> TargetView {
    if remote_tool_tag().is_prefix_of(name) {
        match remote_target(name.skip(3), engines) {
            Some(t) => t,
            None => TargetView::NotFound { name },
        }
    } else if tools.has(name) {
        TargetView::Local { name }
    } else {
        TargetView::NotFound { name }
    }
}

/// Where an agent name is served. A name with the remote-agent tag belongs
/// to the directory alone; any other name, without its local-agent tag if
/// it has one, is looked up among the local agents.
pub open spec fn agent_target(
    name: Seq<char>,
    agents: DefinitionRegistry,
    engines: RemoteEngines,
) -> TargetView {
    if remote_agent_tag().is_prefix_of(name) {
        match remote_target(name.skip(3), engines) {
            Some(t) => t,
            None => TargetView::NotFound { name },
        }
    } else {
        let bare = if local_agent_tag().is_prefix_of(name) {
            name.skip(3)
        } else {
            name
        };
        if agents.has(bare) {
            TargetView::Local { name: bare }
        } else {
            TargetView::NotFound { name: bare }
        }
    }
}

/// Classifies a call name for the completion loop.
pub fn classify(name: &str, tools: &DefinitionRegistry, agents: &DefinitionRegistry) -> (r:
    CallClass)
    requires
        tools.well_formed(),
        agents.well_formed(),
    ensures
        r == call_class(name@, *tools, *agents),
{
    if tools.contains(name) || starts_with(name, "RT_") {
        CallClass::Tool
    } else if agents.contains(name) || starts_with(name, "LA_") || starts_with(name, "RA_") {
        CallClass::Agent
    } else {
        CallClass::Unknown
    }
}

/// Finds the peer that serves `rest`, the part of a name after a remote tag.
pub fn route_remote(rest: &str, engines: &RemoteEngines) -> (r: Option<Target>)
    requires
        engines.well_formed(),
    ensures
        match r {
            Some(t) => Some(t@) == remote_target(rest@, *engines),
            None => remote_target(rest@, *engines) is None,
        },
{
    match engines.longest_match(rest) {
        Some(i) => {
            proof {
                let c = choose|c: int| is_longest_match(engines.prefixes(), rest@, c);
                lemma_longest_match_unique(engines.prefixes(), rest@, i as int, c);
            }
            let prefix = engines.prefix_at(i);
            match strip_prefix(rest, prefix.as_str()) {
                Some(bare) => Some(
                    Target::Remote {
                        endpoint: engines.engine_at(i).endpoint.clone(),
                        name: String::from_str(bare),
                    },
                ),
                None => None,
            }
        },
        None => None,
    }
}

/// Routes a tool name.
pub fn route_tool(name: &str, tools: &DefinitionRegistry, engines: &RemoteEngines) -> (r: Target)
    requires
        tools.well_formed(),
        engines.well_formed(),
    ensures
        r@ == tool_target(name@, *tools, *engines),
{
    proof {
        lemma_tags();
    }
    match strip_prefix(name, "RT_") {
        Some(rest) => match route_remote(rest, engines) {
            Some(t) => t,
            None => Target::NotFound { name: String::from_str(name) },
        },
        None => {
            if tools.contains(name) {
                Target::Local { name: String::from_str(name) }
            } else {
                Target::NotFound { name: String::from_str(name) }
            }
        },
    }
}

/// Routes an agent name.
pub fn route_agent(name: &str, agents: &DefinitionRegistry, engines: &RemoteEngines) -> (r: Target)
    requires
        agents.well_formed(),
        engines.well_formed(),
    ensures
        r@ == agent_target(name@, *agents, *engines),
{
    proof {
        lemma_tags();
    }
    match strip_prefix(name, "RA_") {
        Some(rest) => match route_remote(rest, engines) {
            Some(t) => t,
            None => Target::NotFound { name: String::from_str(name) },
        },
        None => {
            let bare = match strip_prefix(name, "LA_") {
                Some(b) => b,
                None => name,
            };
            if agents.contains(bare) {
                Target::Local { name: String::from_str(bare) }
            } else {
                Target::NotFound { name: String::from_str(bare) }
            }
        },
    }
}

} // verus!
