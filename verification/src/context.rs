//! The execution context: the handle under which an agent or a tool runs.
//! It carries identity and a path label, reads the registries and the
//! directory, and turns a requested call into the dispatch to perform.

use std::sync::Arc;
use vstd::prelude::*;
use vstd::string::*;
use crate::aggregate::{
    endpoint_text, exposed, remote_definitions, remote_definitions_of, Catalog,
};
pub use crate::directory::EngineInformation;
use crate::directory::RemoteEngines;
use crate::model::{opt_text, views, FunctionDefinition, FunctionDefinitionView};
use crate::outside::share;
use crate::registry::{filter_texts, select, DefinitionRegistry};
use crate::router::{
    agent_target, local_agent_tag, route_agent, route_tool, tool_target, Target,
    TargetView,
};
use crate::text::join;

verus! {

/// The label segment of a context derived for the agent `name`.
pub open spec fn agent_label(name: Seq<char>) -> Seq<char> {
    "A:"@ + name
}

/// The label segment of a context derived for the tool `name`.
pub open spec fn tool_label(name: Seq<char>) -> Seq<char> {
    "T:"@ + name
}

/// What a base context is, as mathematics.
pub struct BaseCtxView {
    pub id: candid::Principal,
    pub caller: candid::Principal,
    pub user: Option<Seq<char>>,
    pub path: Seq<char>,
}

impl BaseCtxView {
    /// The context one level down: the same identities, the label extended.
    pub open spec fn child(self, segment: Seq<char>) -> BaseCtxView {
        BaseCtxView { id: self.id, caller: self.caller, user: self.user, path: self.path + segment }
    }

    /// The context one level down, run on behalf of another caller and user.
    pub open spec fn child_with(
        self,
        segment: Seq<char>,
        caller: candid::Principal,
        user: Option<Seq<char>>,
    ) -> BaseCtxView {
        BaseCtxView { id: self.id, caller, user, path: self.path + segment }
    }
}

/// What every call runs under: who the engine is, who called, for which
/// user, and the label of the call chain that led here.
#[derive(Debug, PartialEq, Eq)]
pub struct BaseCtx {
    pub id: candid::Principal,
    pub caller: candid::Principal,
    pub user: Option<String>,
    pub path: String,
}

impl View for BaseCtx {
    type V = BaseCtxView;

    open spec fn view(&self) -> BaseCtxView {
        BaseCtxView {
            id: self.id,
            caller: self.caller,
            user: opt_text(self.user),
            path: self.path@,
        }
    }
}

impl BaseCtx {
    /// A root context.
    pub fn new(id: candid::Principal, caller: candid::Principal, user: Option<String>, path: String) -> (r:
        Self)
        ensures
            r@ == (BaseCtxView { id, caller, user: opt_text(user), path: path@ }),
    {
        BaseCtx { id, caller, user, path }
    }

    /// Derives the context for a nested call whose label segment is `segment`.
    pub fn child(&self, segment: &str) -> (r: Self)
        ensures
            r@ == self@.child(segment@),
    {
        let user = match &self.user {
            Some(u) => Some(u.clone()),
            None => None,
        };
        BaseCtx {
            id: self.id,
            caller: self.caller,
            user,
            path: join(self.path.as_str(), segment),
        }
    }

    /// Derives the context for a nested call made for another caller and user.
    pub fn child_with(&self, segment: &str, caller: candid::Principal, user: Option<String>) -> (r:
        Self)
        ensures
            r@ == self@.child_with(segment@, caller, opt_text(user)),
    {
        BaseCtx { id: self.id, caller, user, path: join(self.path.as_str(), segment) }
    }
}

/// The positional arguments of a signed call to a peer, as mathematics.
pub enum RpcArgsView {
    ToolCall { name: Seq<char>, args: Seq<char> },
    AgentRun { name: Seq<char>, prompt: Seq<char>, attachment: Option<Seq<u8>> },
}

/// The positional arguments of a signed call to a peer.
#[derive(Debug, PartialEq, Eq)]
pub enum RpcArgs {
    /// For a tool: its name and its argument payload.
    ToolCall { name: String, args: String },
    /// For an agent: its name, the prompt and an optional binary attachment.
    AgentRun { name: String, prompt: String, attachment: Option<Vec<u8>> },
}

impl View for RpcArgs {
    type V = RpcArgsView;

    open spec fn view(&self) -> RpcArgsView {
        match self {
            RpcArgs::ToolCall { name, args } => RpcArgsView::ToolCall { name: name@, args: args@ },
            RpcArgs::AgentRun { name, prompt, attachment } => RpcArgsView::AgentRun {
                name: name@,
                prompt: prompt@,
                attachment: match attachment {
                    Some(bytes) => Some(bytes@),
                    None => None,
                },
            },
        }
    }
}

/// A signed call to a peer, as mathematics.
pub struct RpcRequestView {
    pub endpoint: Seq<char>,
    pub method: Seq<char>,
    pub args: RpcArgsView,
}

/// A signed call to a peer: where to, which method, with which arguments.
#[derive(Debug, PartialEq, Eq)]
pub struct RpcRequest {
    pub endpoint: String,
    pub method: String,
    pub args: RpcArgs,
}

impl View for RpcRequest {
    type V = RpcRequestView;

    open spec fn view(&self) -> RpcRequestView {
        RpcRequestView { endpoint: self.endpoint@, method: self.method@, args: self.args@ }
    }
}

/// The call that runs the tool `name` on the peer at `endpoint`.
pub open spec fn tool_rpc(endpoint: Seq<char>, name: Seq<char>, args: Seq<char>) -> RpcRequestView {
    RpcRequestView { endpoint, method: "tool_call"@, args: RpcArgsView::ToolCall { name, args } }
}

/// The call that runs the agent `name` on the peer at `endpoint`.
pub open spec fn agent_rpc(
    endpoint: Seq<char>,
    name: Seq<char>,
    prompt: Seq<char>,
    attachment: Option<Seq<u8>>,
) -> RpcRequestView {
    RpcRequestView {
        endpoint,
        method: "agent_run"@,
        args: RpcArgsView::AgentRun { name, prompt, attachment },
    }
}

/// The bytes of an optional attachment.
pub open spec fn opt_bytes(o: Option<Vec<u8>>) -> Option<Seq<u8>> {
    match o {
        Some(b) => Some(b@),
        None => None,
    }
}

/// A name that no registry and no peer serves.
#[derive(Debug, PartialEq, Eq)]
pub enum DispatchError {
    ToolNotFound(String),
    AgentNotFound(String),
}

impl DispatchError {
    /// The text of the error.
    pub fn message(&self) -> (r: String)
        ensures
            r@ == self@.message(),
    {
        match self {
            DispatchError::ToolNotFound(name) => {
                let mut r = join("tool ", name.as_str());
                r.append(" not found");
                r
            },
            DispatchError::AgentNotFound(name) => {
                let mut r = join("agent ", name.as_str());
                r.append(" not found");
                r
            },
        }
    }
}

/// What is to be done for a tool call, as mathematics.
pub enum ToolDispatchView {
    Local { ctx: BaseCtxView, name: Seq<char>, args: Seq<char> },
    Remote(RpcRequestView),
}

/// What is to be done for a tool call.
#[derive(Debug, PartialEq, Eq)]
pub enum ToolDispatch {
    /// Run the local tool `name` under `ctx` with the raw `args`.
    Local { ctx: BaseCtx, name: String, args: String },
    /// Send the signed call to the peer.
    Remote(RpcRequest),
}

impl View for ToolDispatch {
    type V = ToolDispatchView;

    open spec fn view(&self) -> ToolDispatchView {
        match self {
            ToolDispatch::Local { ctx, name, args } => ToolDispatchView::Local {
                ctx: ctx@,
                name: name@,
                args: args@,
            },
            ToolDispatch::Remote(request) => ToolDispatchView::Remote(request@),
        }
    }
}

/// What an agent context is, as mathematics.
pub struct AgentCtxView {
    pub base: BaseCtxView,
    pub tools: DefinitionRegistry,
    pub agents: DefinitionRegistry,
    pub remote_engines: RemoteEngines,
}

/// What is to be done for an agent run, as mathematics.
pub enum AgentDispatchView {
    Local { ctx: AgentCtxView, name: Seq<char>, prompt: Seq<char>, attachment: Option<Seq<u8>> },
    Remote(RpcRequestView),
}

/// What is to be done for an agent run.
#[derive(Debug)]
pub enum AgentDispatch {
    /// Run the local agent `name` under `ctx`.
    Local { ctx: AgentCtx, name: String, prompt: String, attachment: Option<Vec<u8>> },
    /// Send the signed call to the peer.
    Remote(RpcRequest),
}

impl View for AgentDispatch {
    type V = AgentDispatchView;

    open spec fn view(&self) -> AgentDispatchView {
        match self {
            AgentDispatch::Local { ctx, name, prompt, attachment } => AgentDispatchView::Local {
                ctx: ctx@,
                name: name@,
                prompt: prompt@,
                attachment: opt_bytes(*attachment),
            },
            AgentDispatch::Remote(request) => AgentDispatchView::Remote(request@),
        }
    }
}

/// The name that was not found, as mathematics.
pub enum DispatchErrorView {
    ToolNotFound(Seq<char>),
    AgentNotFound(Seq<char>),
}

impl DispatchErrorView {
    /// The text of the error.
    pub open spec fn message(self) -> Seq<char> {
        match self {
            DispatchErrorView::ToolNotFound(name) => "tool "@ + name + " not found"@,
            DispatchErrorView::AgentNotFound(name) => "agent "@ + name + " not found"@,
        }
    }
}

impl View for DispatchError {
    type V = DispatchErrorView;

    open spec fn view(&self) -> DispatchErrorView {
        match self {
            DispatchError::ToolNotFound(name) => DispatchErrorView::ToolNotFound(name@),
            DispatchError::AgentNotFound(name) => DispatchErrorView::AgentNotFound(name@),
        }
    }
}

/// The view of a dispatch decision or of its failure.
pub open spec fn decision_view<D: View>(r: Result<D, DispatchError>) -> Result<
    D::V,
    DispatchErrorView,
> {
    match r {
        Ok(d) => Ok(d@),
        Err(e) => Err(e@),
    }
}

/// The context of an agent: a base context together with the local tools,
/// the local agents and the directory of peers.
#[derive(Debug)]
pub struct AgentCtx {
    pub base: BaseCtx,
    pub tools: Arc<DefinitionRegistry>,
    pub agents: Arc<DefinitionRegistry>,
    pub remote_engines: Arc<RemoteEngines>,
}

impl View for AgentCtx {
    type V = AgentCtxView;

    open spec fn view(&self) -> AgentCtxView {
        AgentCtxView {
            base: self.base@,
            tools: *self.tools,
            agents: *self.agents,
            remote_engines: *self.remote_engines,
        }
    }
}

impl AgentCtx {
    /// The local tool registry.
    pub open spec fn tools(&self) -> DefinitionRegistry {
        *self.tools
    }

    /// The local agent registry.
    pub open spec fn agents(&self) -> DefinitionRegistry {
        *self.agents
    }

    /// The directory of peers.
    pub open spec fn remote_engines(&self) -> RemoteEngines {
        *self.remote_engines
    }

    /// How a tool call by `name` is executed: by the peer the name routes
    /// to; by the local tool of that name, under a child context labelled
    /// with it; or not at all.
    pub open spec fn tool_dispatch(&self, name: Seq<char>, args: Seq<char>) -> Result<
        ToolDispatchView,
        DispatchErrorView,
    > {
        match tool_target(name, self.tools(), self.remote_engines()) {
            TargetView::Remote { endpoint, name: bare } => Ok(
                ToolDispatchView::Remote(tool_rpc(endpoint, bare, args)),
            ),
            TargetView::Local { name: tool } => Ok(
                ToolDispatchView::Local { ctx: self.base@.child(tool_label(tool)), name: tool, args },
            ),
            TargetView::NotFound { name: missing } => Err(DispatchErrorView::ToolNotFound(missing)),
        }
    }

    /// How an agent run by `name` is executed: by the peer the name routes
    /// to; by the local agent of that name, under a child context labelled
    /// with it; or not at all.
    pub open spec fn agent_dispatch(
        &self,
        name: Seq<char>,
        prompt: Seq<char>,
        attachment: Option<Seq<u8>>,
    ) -> Result<AgentDispatchView, DispatchErrorView> {
        match agent_target(name, self.agents(), self.remote_engines()) {
            TargetView::Remote { endpoint, name: bare } => Ok(
                AgentDispatchView::Remote(agent_rpc(endpoint, bare, prompt, attachment)),
            ),
            TargetView::Local { name: agent } => Ok(
                AgentDispatchView::Local {
                    ctx: AgentCtxView {
                        base: self.base@.child(agent_label(agent)),
                        tools: self.tools(),
                        agents: self.agents(),
                        remote_engines: self.remote_engines(),
                    },
                    name: agent,
                    prompt,
                    attachment,
                },
            ),
            TargetView::NotFound { name: missing } => Err(
                DispatchErrorView::AgentNotFound(missing),
            ),
        }
    }

    /// The invariant: both registries and the directory are well formed.
    pub open spec fn well_formed(&self) -> bool {
        &&& self.tools().well_formed()
        &&& self.agents().well_formed()
        &&& self.remote_engines().well_formed()
    }

    /// A context over the given registries and directory.
    pub fn new(
        base: BaseCtx,
        tools: Arc<DefinitionRegistry>,
        agents: Arc<DefinitionRegistry>,
        remote_engines: Arc<RemoteEngines>,
    ) -> (r: Self)
        requires
            tools.well_formed(),
            agents.well_formed(),
            remote_engines.well_formed(),
        ensures
            r.well_formed(),
            r.base == base,
            r.tools() == *tools,
            r.agents() == *agents,
            r.remote_engines() == *remote_engines,
    {
        AgentCtx { base, tools, agents, remote_engines }
    }

    /// The local tool registry.
    pub fn tool_registry(&self) -> (r: &DefinitionRegistry)
        ensures
            *r == self.tools(),
    {
        &self.tools
    }

    /// The local agent registry.
    pub fn agent_registry(&self) -> (r: &DefinitionRegistry)
        ensures
            *r == self.agents(),
    {
        &self.agents
    }

    /// The directory of peers.
    pub fn directory(&self) -> (r: &RemoteEngines)
        ensures
            *r == self.remote_engines(),
    {
        &self.remote_engines
    }

    /// The context under which the local agent `agent_name` runs.
    pub fn child(&self, agent_name: &str) -> (r: Self)
        ensures
            r@ == (AgentCtxView { base: self.base@.child(agent_label(agent_name@)), ..self@ }),
    {
        let segment = join("A:", agent_name);
        AgentCtx {
            base: self.base.child(segment.as_str()),
            tools: share(&self.tools),
            agents: share(&self.agents),
            remote_engines: share(&self.remote_engines),
        }
    }

    /// The context under which the local tool `tool_name` runs.
    pub fn child_base(&self, tool_name: &str) -> (r: BaseCtx)
        ensures
            r@ == self.base@.child(tool_label(tool_name@)),
    {
        let segment = join("T:", tool_name);
        self.base.child(segment.as_str())
    }

    /// The context under which the local agent `agent_name` runs for
    /// another caller and user.
    pub fn child_with(&self, agent_name: &str, caller: candid::Principal, user: Option<String>) -> (r:
        Self)
        ensures
            r@ == (AgentCtxView {
                base: self.base@.child_with(agent_label(agent_name@), caller, opt_text(user)),
                ..self@
            }),
    {
        let segment = join("A:", agent_name);
        AgentCtx {
            base: self.base.child_with(segment.as_str(), caller, user),
            tools: share(&self.tools),
            agents: share(&self.agents),
            remote_engines: share(&self.remote_engines),
        }
    }

    /// The context under which the local tool `tool_name` runs for another
    /// caller and user.
    pub fn child_base_with(
        &self,
        tool_name: &str,
        caller: candid::Principal,
        user: Option<String>,
    ) -> (r: BaseCtx)
        ensures
            r@ == self.base@.child_with(tool_label(tool_name@), caller, opt_text(user)),
    {
        let segment = join("T:", tool_name);
        self.base.child_with(segment.as_str(), caller, user)
    }

    /// The identity of this engine.
    pub fn id(&self) -> (r: candid::Principal)
        ensures
            r == self.base.id,
    {
        self.base.id
    }

    /// The identity of the caller.
    pub fn caller(&self) -> (r: candid::Principal)
        ensures
            r == self.base.caller,
    {
        self.base.caller
    }

    /// The user on whose behalf the call runs, if one is known.
    pub fn user(&self) -> (r: Option<String>)
        ensures
            opt_text(r) == opt_text(self.base.user),
    {
        match &self.base.user {
            Some(u) => Some(u.clone()),
            None => None,
        }
    }

    /// The definitions of the local tools, optionally filtered by name.
    pub fn tool_definitions(&self, names: Option<&[&str]>) -> (r: Vec<FunctionDefinition>)
        requires
            self.well_formed(),
        ensures
            views(r@) == select(self.tools().definitions_view(), filter_texts(names)),
    {
        self.tools.definitions(names)
    }

    /// The tool definitions that the peers put on offer, each under the
    /// remote-tool tag and its peer's prefix.
    pub fn remote_tool_definitions(&self, endpoint: Option<&str>, names: Option<&[&str]>) -> (r:
        Vec<FunctionDefinition>)
        ensures
            views(r@) == remote_definitions(
                self.remote_engines(),
                Catalog::Tools,
                endpoint_text(endpoint),
                filter_texts(names),
            ),
    {
        remote_definitions_of(&self.remote_engines, Catalog::Tools, endpoint, names)
    }

    /// The definitions of the local agents, optionally filtered by name;
    /// with `with_prefix`, each under the local-agent tag.
    pub fn agent_definitions(&self, names: Option<&[&str]>, with_prefix: bool) -> (r: Vec<
        FunctionDefinition,
    >)
        requires
            self.well_formed(),
        ensures
            views(r@) == if with_prefix {
                exposed(self.agents().definitions_view(), filter_texts(names), local_agent_tag())
            } else {
                select(self.agents().definitions_view(), filter_texts(names))
            },
    {
        let res = self.agents.definitions(names);
        if with_prefix {
            let ghost rename = |d: FunctionDefinitionView| d.with_prefix(local_agent_tag());
            let ghost all = views(res@);
            let n = res.len();
            let mut out: Vec<FunctionDefinition> = Vec::new();
            let mut i: usize = 0;
            while i < n
                invariant
                    i <= n,
                    n == res@.len(),
                    all == views(res@),
                    rename == (|d: FunctionDefinitionView| d.with_prefix(local_agent_tag())),
                    views(out@) == all.take(i as int).map_values(rename),
                decreases n - i,
            {
                let ghost prior = out@;
                let d = res[i].clone().name_with_prefix("LA_");
                out.push(d);
                proof {
                    assert(views(out@) =~= views(prior).push(d@));
                    assert(all.take(i + 1) =~= all.take(i as int).push(all[i as int]));
                }
                i += 1;
            }
            assert(all.take(n as int) =~= all);
            out
        } else {
            res
        }
    }

    /// The agent definitions that the peers put on offer, each under the
    /// remote-agent tag and its peer's prefix.
    pub fn remote_agent_definitions(&self, endpoint: Option<&str>, names: Option<&[&str]>) -> (r:
        Vec<FunctionDefinition>)
        ensures
            views(r@) == remote_definitions(
                self.remote_engines(),
                Catalog::Agents,
                endpoint_text(endpoint),
                filter_texts(names),
            ),
    {
        remote_definitions_of(&self.remote_engines, Catalog::Agents, endpoint, names)
    }

    /// The signed call that runs the tool `name` on the peer at `endpoint`.
    pub fn remote_tool_call(&self, endpoint: &str, name: &str, args: String) -> (r: RpcRequest)
        ensures
            r@ == tool_rpc(endpoint@, name@, args@),
    {
        RpcRequest {
            endpoint: String::from_str(endpoint),
            method: String::from_str("tool_call"),
            args: RpcArgs::ToolCall { name: String::from_str(name), args },
        }
    }

    /// The signed call that runs the agent `agent_name` on the peer at
    /// `endpoint`.
    pub fn remote_agent_run(
        &self,
        endpoint: &str,
        agent_name: &str,
        prompt: String,
        attachment: Option<Vec<u8>>,
    ) -> (r: RpcRequest)
        ensures
            r@ == agent_rpc(endpoint@, agent_name@, prompt@, opt_bytes(attachment)),
    {
        RpcRequest {
            endpoint: String::from_str(endpoint),
            method: String::from_str("agent_run"),
            args: RpcArgs::AgentRun { name: String::from_str(agent_name), prompt, attachment },
        }
    }

    /// Decides how the tool call `name` is executed: by a peer, where the
    /// name routes to one; by the local tool of that name under a child
    /// context labelled with it; or not at all.
    pub fn tool_call(&self, name: &str, args: String) -> (r: Result<ToolDispatch, DispatchError>)
        requires
            self.well_formed(),
        ensures
            decision_view(r) == self.tool_dispatch(name@, args@),
    {
        match route_tool(name, &self.tools, &self.remote_engines) {
            Target::Remote { endpoint, name: bare } => Ok(
                ToolDispatch::Remote(self.remote_tool_call(endpoint.as_str(), bare.as_str(), args)),
            ),
            Target::Local { name: tool } => {
                let ctx = self.child_base(tool.as_str());
                Ok(ToolDispatch::Local { ctx, name: tool, args })
            },
            Target::NotFound { name: missing } => Err(DispatchError::ToolNotFound(missing)),
        }
    }

    /// Decides how the agent `name` is run: by a peer, where the name
    /// routes to one; by the local agent of that name under a child context
    /// labelled with it; or not at all.
    pub fn agent_run(&self, name: &str, prompt: String, attachment: Option<Vec<u8>>) -> (r: Result<
        AgentDispatch,
        DispatchError,
    >)
        requires
            self.well_formed(),
        ensures
            decision_view(r) == self.agent_dispatch(name@, prompt@, opt_bytes(attachment)),
    {
        match route_agent(name, &self.agents, &self.remote_engines) {
            Target::Remote { endpoint, name: bare } => Ok(
                AgentDispatch::Remote(
                    self.remote_agent_run(endpoint.as_str(), bare.as_str(), prompt, attachment),
                ),
            ),
            Target::Local { name: agent } => {
                let ctx = self.child(agent.as_str());
                Ok(AgentDispatch::Local { ctx, name: agent, prompt, attachment })
            },
            Target::NotFound { name: missing } => Err(DispatchError::AgentNotFound(missing)),
        }
    }
}

} // verus!
