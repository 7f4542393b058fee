//! What holds of the library as a whole: laws that relate several of its
//! functions, each proved from the definitions the contracts use.

use vstd::prelude::*;
use vstd::string::*;
use crate::aggregate::{catalog_of, catalog_tag, remote_definitions, Catalog};
use crate::completion::{
    started, ActionView, CompletionErrorView, CompletionView, EventView, Phase, is_offered,
    withdraw,
};
use crate::context::{AgentCtx, DispatchErrorView};
use crate::directory::{is_longest_match, lemma_longest_match_unique, matches_some, RemoteEngines};
use crate::model::{AgentOutputView, CompletionRequestView, FunctionDefinitionView, Usage};
use crate::registry::DefinitionRegistry;
use crate::text::lemma_lex_irreflexive;
use crate::router::{
    agent_target, call_class, lemma_tags, local_agent_tag, remote_agent_tag, remote_tool_tag,
    tool_target, CallClass, TargetView,
};

verus! {

/// Whether an output asks for no tool call.
pub open spec fn asks_nothing(output: AgentOutputView) -> bool {
    match output.tool_calls {
        Some(calls) => calls.len() == 0,
        None => true,
    }
}

/// A model answer without tool calls ends a fresh run at once: the model is
/// invoked once, the answer is returned as it came, and the usage reported
/// is that of the one invocation.
pub proof fn law_no_calls_one_invocation(
    ctx: AgentCtx,
    request: CompletionRequestView,
    output: AgentOutputView,
)
    requires
        asks_nothing(output),
    ensures
        started(request).step(ctx, EventView::Model(output)).0.phase == Phase::Finished,
        started(request).step(ctx, EventView::Model(output)).1 == ActionView::Return(
            AgentOutputView { tool_calls: None, usage: output.usage, ..output },
        ),
{
    let s = started(request);
    assert(Usage::zero().plus(output.usage) == output.usage);
    match output.tool_calls {
        Some(calls) => {
            assert(s.resolved + calls =~= Seq::empty());
        },
        None => {},
    }
}

/// A run that is over stays over: whatever arrives, the model is not asked
/// again.
pub proof fn law_finished_is_final(s: CompletionView, ctx: AgentCtx, event: EventView)
    requires
        s.phase == Phase::Finished,
    ensures
        s.step(ctx, event).0.phase == Phase::Finished,
        s.step(ctx, event).1 == ActionView::Fail(CompletionErrorView::OutOfTurn),
{
}

/// The usage that a step takes from an event: the model's on its answer,
/// the agent's on its output, nothing otherwise.
pub open spec fn usage_taken(phase: Phase, event: EventView) -> Usage {
    match (phase, event) {
        (Phase::AwaitingModel, EventView::Model(output)) => output.usage,
        (Phase::AwaitingAgent, EventView::Agent(Ok(output))) => output.usage,
        _ => Usage::zero(),
    }
}

/// Scanning calls leaves the accumulated usage as it is.
pub proof fn lemma_scan_keeps_usage(s: CompletionView, ctx: AgentCtx)
    ensures
        s.scan(ctx).0.usage == s.usage,
    decreases s.calls.len() - s.cursor,
{
    if !(s.cursor < 0 || s.cursor >= s.calls.len()) {
        let call = s.calls[s.cursor];
        if !is_offered(s.request.tools, call.name) {
            lemma_scan_keeps_usage(CompletionView { cursor: s.cursor + 1, ..s }, ctx);
        } else {
            let t = CompletionView {
                request: CompletionRequestView {
                    tools: withdraw(s.request.tools, call.name),
                    ..s.request
                },
                ..s
            };
            if call_class(call.name, ctx.tools(), ctx.agents()) == CallClass::Unknown {
                lemma_scan_keeps_usage(CompletionView { cursor: t.cursor + 1, ..t }, ctx);
            }
        }
    }
}

/// Usage is additive and monotonic: a step adds to the running total
/// exactly the usage of the event it takes, and never lowers a counter.
pub proof fn law_usage_accumulates(s: CompletionView, ctx: AgentCtx, event: EventView)
    ensures
        s.step(ctx, event).0.usage == s.usage.plus(usage_taken(s.phase, event)),
        s.usage.at_most(s.step(ctx, event).0.usage),
{
    assert(s.usage.plus(Usage::zero()) == s.usage);
    match (s.phase, event) {
        (Phase::AwaitingModel, EventView::Model(output)) => {
            let t = CompletionView {
                phase: s.phase,
                request: s.request,
                usage: s.usage.plus(output.usage),
                resolved: s.resolved,
                output: AgentOutputView { tool_calls: None, ..output },
                has_calls: output.tool_calls is Some,
                calls: match output.tool_calls {
                    Some(calls) => calls,
                    None => Seq::empty(),
                },
                cursor: 0,
                replies: Seq::empty(),
            };
            lemma_scan_keeps_usage(t, ctx);
        },
        (Phase::AwaitingTool, EventView::Tool(Ok(text))) => {
            lemma_scan_keeps_usage(s.record(text), ctx);
        },
        (Phase::AwaitingAgent, EventView::Agent(Ok(output))) => {
            let t = CompletionView { usage: s.usage.plus(output.usage), ..s };
            if output.failed_reason is None {
                lemma_scan_keeps_usage(t.record(output.content), ctx);
            }
        },
        _ => {},
    }
}

/// The run after a series of events.
pub open spec fn run_after(s: CompletionView, ctx: AgentCtx, events: Seq<EventView>) -> CompletionView
    decreases events.len(),
{
    if events.len() == 0 {
        s
    } else {
        run_after(s, ctx, events.drop_last()).step(ctx, events.last()).0
    }
}

/// The usage of everything a run takes from a series of events, added up
/// counter by counter, each sum held at the largest representable value.
pub open spec fn usage_of_events(s: CompletionView, ctx: AgentCtx, events: Seq<EventView>) -> Usage
    decreases events.len(),
{
    if events.len() == 0 {
        Usage::zero()
    } else {
        usage_of_events(s, ctx, events.drop_last()).plus(
            usage_taken(run_after(s, ctx, events.drop_last()).phase, events.last()),
        )
    }
}

/// Saturating addition is associative.
pub proof fn lemma_plus_associative(a: Usage, b: Usage, c: Usage)
    ensures
        a.plus(b).plus(c) == a.plus(b.plus(c)),
{
}

/// After any number of steps the accumulated usage is the usage the run
/// began with plus the sum of what each step took.
pub proof fn law_usage_is_the_sum(s: CompletionView, ctx: AgentCtx, events: Seq<EventView>)
    ensures
        run_after(s, ctx, events).usage == s.usage.plus(usage_of_events(s, ctx, events)),
        s.usage.at_most(run_after(s, ctx, events).usage),
    decreases events.len(),
{
    if events.len() == 0 {
        assert(s.usage.plus(Usage::zero()) == s.usage);
    } else {
        let before = run_after(s, ctx, events.drop_last());
        law_usage_is_the_sum(s, ctx, events.drop_last());
        law_usage_accumulates(before, ctx, events.last());
        lemma_plus_associative(
            s.usage,
            usage_of_events(s, ctx, events.drop_last()),
            usage_taken(before.phase, events.last()),
        );
    }
}

/// Once a dispatch fails the run ends: the output that is returned carries
/// the failure, and the run asks for nothing more.
pub proof fn law_dispatch_error_ends_run(s: CompletionView, ctx: AgentCtx, reason: Seq<char>)
    ensures
        s.phase == Phase::AwaitingTool ==> {
            &&& s.step(ctx, EventView::Tool(Err(reason))).0.phase == Phase::Finished
            &&& s.step(ctx, EventView::Tool(Err(reason))).1 matches ActionView::Return(o)
            &&& o.failed_reason == Some(reason)
            &&& o.usage == s.usage
        },
        s.phase == Phase::AwaitingAgent ==> {
            &&& s.step(ctx, EventView::Agent(Err(reason))).0.phase == Phase::Finished
            &&& s.step(ctx, EventView::Agent(Err(reason))).1 matches ActionView::Return(o)
            &&& o.failed_reason == Some(reason)
            &&& o.usage == s.usage
        },
{
}

/// A scan asks for the model again only after a reply: where a dispatch
/// failed inside it, because nothing serves the name, it returns an output
/// that carries the failure.
pub proof fn law_scan_outcomes(s: CompletionView, ctx: AgentCtx)
    ensures
        s.scan(ctx).1 matches ActionView::Return(o) ==> s.scan(ctx).0.phase == Phase::Finished,
        s.scan(ctx).1 is Fail ==> s.scan(ctx).0.phase == Phase::Finished,
        s.scan(ctx).1 is CallModel ==> s.scan(ctx).0.phase == Phase::AwaitingModel,
        s.scan(ctx).1 is Tool ==> s.scan(ctx).0.phase == Phase::AwaitingTool,
        s.scan(ctx).1 is Agent ==> s.scan(ctx).0.phase == Phase::AwaitingAgent,
    decreases s.calls.len() - s.cursor,
{
    if !(s.cursor < 0 || s.cursor >= s.calls.len()) {
        let call = s.calls[s.cursor];
        if !is_offered(s.request.tools, call.name) {
            law_scan_outcomes(CompletionView { cursor: s.cursor + 1, ..s }, ctx);
        } else {
            let t = CompletionView {
                request: CompletionRequestView {
                    tools: withdraw(s.request.tools, call.name),
                    ..s.request
                },
                ..s
            };
            if call_class(call.name, ctx.tools(), ctx.agents()) == CallClass::Unknown {
                law_scan_outcomes(CompletionView { cursor: t.cursor + 1, ..t }, ctx);
            }
        }
    }
}

/// Whether nothing serves `name`: it is no local tool and no local agent,
/// with its local-agent tag or without, and behind a remote tag it begins
/// with no prefix of the directory.
pub open spec fn unserved(name: Seq<char>, ctx: AgentCtx) -> bool {
    &&& !ctx.tools().has(name)
    &&& !ctx.agents().has(name)
    &&& local_agent_tag().is_prefix_of(name) ==> !ctx.agents().has(name.skip(3))
    &&& remote_tool_tag().is_prefix_of(name) ==> !matches_some(
        ctx.remote_engines().prefixes(),
        name.skip(3),
    )
    &&& remote_agent_tag().is_prefix_of(name) ==> !matches_some(
        ctx.remote_engines().prefixes(),
        name.skip(3),
    )
}

/// A name that nothing serves is not found, as a tool and as an agent.
pub proof fn law_unserved_is_not_found(
    ctx: AgentCtx,
    name: Seq<char>,
    args: Seq<char>,
    prompt: Seq<char>,
    attachment: Option<Seq<u8>>,
)
    requires
        unserved(name, ctx),
    ensures
        ctx.tool_dispatch(name, args) matches Err(DispatchErrorView::ToolNotFound(missing))
            && missing == name,
        ctx.agent_dispatch(name, prompt, attachment) matches Err(
            DispatchErrorView::AgentNotFound(missing),
        ),
{
}

/// The model is never asked to continue with the result of a call that
/// nothing serves. Scanning such a call either passes it over, leaving the
/// replies and the call as they are, or ends the run.
pub proof fn law_unserved_call_gets_no_reply(s: CompletionView, ctx: AgentCtx)
    requires
        0 <= s.cursor < s.calls.len(),
        unserved(s.calls[s.cursor].name, ctx),
    ensures
        ({
            let name = s.calls[s.cursor].name;
            let passed = CompletionView {
                cursor: s.cursor + 1,
                request: CompletionRequestView {
                    tools: if is_offered(s.request.tools, name) {
                        withdraw(s.request.tools, name)
                    } else {
                        s.request.tools
                    },
                    ..s.request
                },
                ..s
            };
            ||| s.scan(ctx) == passed.scan(ctx)
            ||| {
                &&& s.scan(ctx).0.phase == Phase::Finished
                &&& s.scan(ctx).1 matches ActionView::Return(o)
                &&& o.failed_reason is Some
            }
            ||| {
                &&& s.scan(ctx).0.phase == Phase::Finished
                &&& s.scan(ctx).1 == ActionView::Fail(CompletionErrorView::Deserialization)
            }
        }),
{
    let call = s.calls[s.cursor];
    if !is_offered(s.request.tools, call.name) {
        assert(CompletionView {
            cursor: s.cursor + 1,
            request: CompletionRequestView { tools: s.request.tools, ..s.request },
            ..s
        } == CompletionView { cursor: s.cursor + 1, ..s });
    }
}

/// A definition that was withdrawn is no longer on offer: the model cannot
/// have the same capability dispatched twice in one run.
pub proof fn law_withdrawn_is_not_offered(tools: Seq<FunctionDefinitionView>, name: Seq<char>)
    ensures
        !is_offered(withdraw(tools, name), name),
{
    let keep = |d: FunctionDefinitionView| d.name != name;
    let left = withdraw(tools, name);
    assert forall|i: int| 0 <= i < left.len() implies (#[trigger] left[i]).name != name by {
        tools.lemma_filter_pred(keep, i);
    }
}

/// Names are unique within a registry.
pub proof fn law_registry_names_unique(registry: DefinitionRegistry, i: int, j: int)
    requires
        registry.well_formed(),
        0 <= i < j < registry.names().len(),
    ensures
        registry.names()[i] != registry.names()[j],
{
    registry.lemma_names_sorted();
    lemma_lex_irreflexive(registry.names()[i]);
}

/// Prefixes are unique within the directory.
pub proof fn law_directory_prefixes_unique(directory: RemoteEngines, i: int, j: int)
    requires
        directory.well_formed(),
        0 <= i < j < directory.prefixes().len(),
    ensures
        directory.prefixes()[i] != directory.prefixes()[j],
{
    lemma_lex_irreflexive(directory.prefixes()[i]);
}

/// Aggregation is a function of its inputs: asked twice for the same
/// catalog, endpoint and names of an unchanged directory, it answers with
/// the same definitions in the same order.
pub proof fn law_aggregation_repeats(
    directory: RemoteEngines,
    catalog: Catalog,
    endpoint: Option<Seq<char>>,
    names: Option<Seq<Seq<char>>>,
    first: Seq<FunctionDefinitionView>,
    second: Seq<FunctionDefinitionView>,
)
    requires
        first == remote_definitions(directory, catalog, endpoint, names),
        second == remote_definitions(directory, catalog, endpoint, names),
    ensures
        first == second,
{
}

/// Whether the peer at position `i` owns the qualified name made of its
/// prefix and `bare`: no other peer's prefix is a longer beginning of it.
pub open spec fn owns(directory: RemoteEngines, i: int, bare: Seq<char>) -> bool {
    forall|j: int|
        0 <= j < directory.prefixes().len() && (#[trigger] directory.prefixes()[j]).is_prefix_of(
            directory.prefixes()[i] + bare,
        ) ==> directory.prefixes()[j].len() <= directory.prefixes()[i].len()
}

/// A remote definition routes back to where it came from: the name under
/// which peer `i` exposes its definition `k` resolves to that peer's
/// endpoint and the definition's bare name, provided no other peer's
/// prefix is a longer beginning of the qualified name.
pub proof fn law_prefix_round_trip(
    directory: RemoteEngines,
    local: DefinitionRegistry,
    catalog: Catalog,
    i: int,
    k: int,
)
    requires
        directory.well_formed(),
        0 <= i < directory.engines().len(),
        0 <= k < catalog_of(directory.engines()[i], catalog).len(),
        owns(directory, i, catalog_of(directory.engines()[i], catalog)[k].name),
    ensures
        ({
            let definition = catalog_of(directory.engines()[i], catalog)[k];
            let qualified = definition.with_prefix(
                catalog_tag(catalog) + directory.prefixes()[i],
            ).name;
            let origin = TargetView::Remote {
                endpoint: directory.engines()[i].endpoint,
                name: definition.name,
            };
            match catalog {
                Catalog::Tools => tool_target(qualified, local, directory) == origin,
                Catalog::Agents => agent_target(qualified, local, directory) == origin,
            }
        }),
{
    lemma_tags();
    let definition = catalog_of(directory.engines()[i], catalog)[k];
    let prefix = directory.prefixes()[i];
    let tag = catalog_tag(catalog);
    let qualified = tag + prefix + definition.name;
    let rest = prefix + definition.name;
    assert(qualified.skip(3) =~= rest);
    assert(qualified.subrange(0, 3) =~= tag);
    assert(rest.subrange(0, prefix.len() as int) =~= prefix);
    assert(is_longest_match(directory.prefixes(), rest, i));
    let c = choose|c: int| is_longest_match(directory.prefixes(), rest, c);
    lemma_longest_match_unique(directory.prefixes(), rest, i, c);
    assert(rest.skip(prefix.len() as int) =~= definition.name);
}

} // verus!
