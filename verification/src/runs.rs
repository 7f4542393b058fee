//! Laws over whole runs of the completion loop: what holds of every state
//! a run reaches and of every output and request it hands out, whatever
//! the model, the tools and the agents answer.

use vstd::prelude::*;
use vstd::string::*;
use crate::completion::{
    blank_output, is_offered, started, withdraw, ActionView, CompletionErrorView, CompletionView,
    EventView, Phase,
};
use crate::context::AgentCtx;
use crate::laws::{
    law_unserved_is_not_found, lemma_scan_keeps_usage, run_after, unserved, usage_taken,
};
use crate::model::{
    AgentOutputView, CompletionRequestView, HistoryEntryView, ToolCallView, Usage,
};
use crate::outside::agent_args_prompt;
use crate::router::{call_class, CallClass};

verus! {

/// The calls a run holds: those of the iterations that are over, then
/// those of the current one.
pub open spec fn held_calls(s: CompletionView) -> Seq<ToolCallView> {
    s.resolved + s.calls
}

/// The history a model output hands back, empty where it hands back none.
pub open spec fn history_of(output: AgentOutputView) -> Seq<HistoryEntryView> {
    match output.full_history {
        Some(h) => h,
        None => Seq::empty(),
    }
}

/// The calls a model output asks for, none where it has no list.
pub open spec fn calls_of(output: AgentOutputView) -> Seq<ToolCallView> {
    match output.tool_calls {
        Some(calls) => calls,
        None => Seq::empty(),
    }
}

/// What holds of every state a run reaches: the run's own invariant; calls
/// are held only while an iteration has a list of them; a dispatch is out
/// only for a call that something serves; and between iterations nothing
/// is pending.
pub open spec fn sound(s: CompletionView, ctx: AgentCtx) -> bool {
    &&& s.well_formed()
    &&& !s.has_calls ==> s.calls.len() == 0
    &&& (s.phase == Phase::AwaitingTool || s.phase == Phase::AwaitingAgent) ==> !unserved(
        s.calls[s.cursor].name,
        ctx,
    )
    &&& s.phase == Phase::AwaitingModel ==> s.calls.len() == 0 && s.replies.len() == 0
}

/// What a scan leads to. It never touches the usage, the calls or the
/// replies. Where it hands out a dispatch, the call at the cursor is one
/// that something serves. Where it asks for the model, there were replies,
/// and they follow the history the model handed back. Where it returns,
/// the output carries the accumulated usage and either all calls held, or,
/// with a failure, those of this iteration.
pub proof fn lemma_scan_summary(s: CompletionView, ctx: AgentCtx)
    requires
        s.consistent(),
        !s.has_calls ==> s.calls.len() == 0,
    ensures
        ({
            let (t, a) = s.scan(ctx);
            &&& t.usage == s.usage
            &&& match a {
                ActionView::Tool(_) | ActionView::Agent(_) => {
                    &&& t.calls == s.calls
                    &&& t.replies == s.replies
                    &&& t.resolved == s.resolved
                    &&& t.has_calls == s.has_calls
                    &&& t.output == s.output
                    &&& s.cursor <= t.cursor < t.calls.len()
                    &&& !unserved(t.calls[t.cursor].name, ctx)
                    &&& a is Tool ==> t.phase == Phase::AwaitingTool
                    &&& a is Agent ==> t.phase == Phase::AwaitingAgent
                },
                ActionView::CallModel => {
                    &&& t.phase == Phase::AwaitingModel
                    &&& s.replies.len() > 0
                    &&& t.resolved == held_calls(s)
                    &&& t.request.chat_history == history_of(s.output) + s.replies
                    &&& t.calls.len() == 0
                    &&& !t.has_calls
                    &&& t.replies.len() == 0
                    &&& t.cursor == 0
                    &&& t.output == blank_output()
                },
                ActionView::Return(o) => {
                    &&& t.phase == Phase::Finished
                    &&& o.usage == s.usage
                    &&& {
                        ||| {
                            &&& s.replies.len() == 0
                            &&& o.failed_reason == s.output.failed_reason
                            &&& o.tool_calls == if held_calls(s).len() == 0 {
                                None
                            } else {
                                Some(held_calls(s))
                            }
                        }
                        ||| {
                            &&& o.failed_reason is Some
                            &&& o.tool_calls == if s.has_calls {
                                Some(s.calls)
                            } else {
                                None
                            }
                        }
                    }
                },
                ActionView::Fail(e) => {
                    &&& t.phase == Phase::Finished
                    &&& e == CompletionErrorView::Deserialization
                },
            }
        }),
    decreases s.calls.len() - s.cursor,
{
    if s.cursor >= s.calls.len() {
        if !s.has_calls {
            assert(s.resolved + s.calls =~= s.resolved);
        }
    } else {
        let call = s.calls[s.cursor];
        if !is_offered(s.request.tools, call.name) {
            lemma_scan_summary(CompletionView { cursor: s.cursor + 1, ..s }, ctx);
        } else {
            let w = CompletionView {
                request: CompletionRequestView {
                    tools: withdraw(s.request.tools, call.name),
                    ..s.request
                },
                ..s
            };
            match call_class(call.name, ctx.tools(), ctx.agents()) {
                CallClass::Tool => {
                    if unserved(call.name, ctx) {
                        law_unserved_is_not_found(ctx, call.name, call.args, call.args, None);
                    }
                },
                CallClass::Agent => {
                    match agent_args_prompt(call.args) {
                        Some(prompt) => {
                            if unserved(call.name, ctx) {
                                law_unserved_is_not_found(ctx, call.name, call.args, prompt, None);
                            }
                        },
                        None => {},
                    }
                },
                CallClass::Unknown => {
                    lemma_scan_summary(CompletionView { cursor: w.cursor + 1, ..w }, ctx);
                },
            }
        }
    }
}

/// Whether two calls ask for the same thing: same identifier, same name,
/// same argument payload.
pub open spec fn same_request(a: ToolCallView, b: ToolCallView) -> bool {
    a.id == b.id && a.name == b.name && a.args == b.args
}

/// Whether `held` is the list `asked` with nothing changed but results,
/// and with every call that nothing serves exactly as it was asked.
pub open spec fn follows(held: Seq<ToolCallView>, asked: Seq<ToolCallView>, ctx: AgentCtx) -> bool {
    &&& held.len() == asked.len()
    &&& forall|k: int|
        0 <= k < asked.len() ==> same_request(#[trigger] held[k], asked[k]) && (unserved(
            asked[k].name,
            ctx,
        ) ==> held[k] == asked[k])
}

/// Whether `entry` is the tool-role message that answers `call`.
pub open spec fn answers(entry: HistoryEntryView, call: ToolCallView) -> bool {
    &&& entry matches HistoryEntryView::Message(m)
    &&& m.role == "tool"@
    &&& m.name is None
    &&& m.tool_call_id == Some(call.id)
}

/// Whether every entry answers one of the calls asked for that something
/// serves.
pub open spec fn answer_served_calls(
    entries: Seq<HistoryEntryView>,
    asked: Seq<ToolCallView>,
    ctx: AgentCtx,
) -> bool {
    forall|r: int|
        #![trigger entries[r]]
        0 <= r < entries.len() ==> exists|k: int|
            #![trigger asked[k]]
            0 <= k < asked.len() && !unserved(asked[k].name, ctx) && answers(entries[r], asked[k])
}

/// Whether a run is in step with the calls the model has asked for so far:
/// it is sound, it holds those calls with nothing changed but the results
/// of calls that something serves, and its replies answer such calls only.
pub open spec fn tracks(s: CompletionView, asked: Seq<ToolCallView>, ctx: AgentCtx) -> bool {
    &&& sound(s, ctx)
    &&& follows(held_calls(s), asked, ctx)
    &&& answer_served_calls(s.replies, asked, ctx)
}

/// Whether the calls on an output are the last of the calls asked for,
/// with every call that nothing serves exactly as it was asked.
pub open spec fn output_follows(o: AgentOutputView, asked: Seq<ToolCallView>, ctx: AgentCtx) -> bool {
    match o.tool_calls {
        Some(list) => list.len() <= asked.len() && follows(
            list,
            asked.skip(asked.len() - list.len()),
            ctx,
        ),
        None => true,
    }
}

/// The calls that a step takes in: those of the model's answer, where the
/// run waits for one.
pub open spec fn newly_asked(phase: Phase, event: EventView) -> Seq<ToolCallView> {
    match (phase, event) {
        (Phase::AwaitingModel, EventView::Model(output)) => calls_of(output),
        _ => Seq::empty(),
    }
}

/// Recording the result of the call at the cursor keeps a run in step,
/// where that call is one that something serves.
pub proof fn lemma_record_tracks(
    s: CompletionView,
    asked: Seq<ToolCallView>,
    ctx: AgentCtx,
    result: Seq<char>,
)
    requires
        tracks(s, asked, ctx),
        s.phase == Phase::AwaitingTool || s.phase == Phase::AwaitingAgent,
    ensures
        s.record(result).consistent(),
        s.record(result).has_calls == s.has_calls,
        s.has_calls,
        follows(held_calls(s.record(result)), asked, ctx),
        answer_served_calls(s.record(result).replies, asked, ctx),
{
    let r = s.record(result);
    let i = s.resolved.len() + s.cursor;
    assert(held_calls(s)[i] == s.calls[s.cursor]);
    assert forall|k: int| 0 <= k < asked.len() implies same_request(
        #[trigger] held_calls(r)[k],
        asked[k],
    ) && (unserved(asked[k].name, ctx) ==> held_calls(r)[k] == asked[k]) by {
        assert(same_request(held_calls(s)[k], asked[k]));
        if k != i {
            assert(held_calls(r)[k] == held_calls(s)[k]);
        }
    }
    assert forall|n: int| 0 <= n < r.replies.len() implies exists|k: int|
        #![trigger asked[k]]
        0 <= k < asked.len() && !unserved(asked[k].name, ctx) && answers(
            #[trigger] r.replies[n],
            asked[k],
        ) by {
        if n < s.replies.len() {
            assert(r.replies[n] == s.replies[n]);
        } else {
            assert(same_request(held_calls(s)[i], asked[i]));
            assert(answers(r.replies[n], asked[i]));
        }
    }
}

/// A step keeps a run in step with what the model has asked for. Where
/// the step returns an output, the calls on it are the last of those asked
/// for, and a call that nothing serves is on it exactly as it was asked.
/// Where the step asks for the model again, the request's history is the
/// one the model handed back followed by messages that answer served
/// calls, and by nothing else.
pub proof fn law_step_tracks(
    s: CompletionView,
    ctx: AgentCtx,
    event: EventView,
    asked: Seq<ToolCallView>,
)
    requires
        s.phase != Phase::Finished,
        tracks(s, asked, ctx),
    ensures
        ({
            let (t, a) = s.step(ctx, event);
            let now = asked + newly_asked(s.phase, event);
            let head = history_of(s.output);
            &&& t.phase != Phase::Finished ==> tracks(t, now, ctx)
            &&& a matches ActionView::Return(o) ==> output_follows(o, now, ctx)
            &&& a is CallModel ==> {
                &&& head.len() < t.request.chat_history.len()
                &&& t.request.chat_history == head + t.request.chat_history.skip(head.len() as int)
                &&& answer_served_calls(t.request.chat_history.skip(head.len() as int), now, ctx)
            }
        }),
{
    let (t, a) = s.step(ctx, event);
    let now = asked + newly_asked(s.phase, event);
    let head = history_of(s.output);
    match (s.phase, event) {
        (Phase::AwaitingModel, EventView::Model(output)) => {
            let m = CompletionView {
                phase: s.phase,
                request: s.request,
                usage: s.usage.plus(output.usage),
                resolved: s.resolved,
                output: AgentOutputView { tool_calls: None, ..output },
                has_calls: output.tool_calls is Some,
                calls: calls_of(output),
                cursor: 0,
                replies: Seq::empty(),
            };
            lemma_scan_summary(m, ctx);
            assert(held_calls(s) =~= s.resolved);
            assert(held_calls(m) =~= held_calls(s) + calls_of(output));
            assert forall|k: int| 0 <= k < now.len() implies same_request(
                #[trigger] held_calls(m)[k],
                now[k],
            ) && (unserved(now[k].name, ctx) ==> held_calls(m)[k] == now[k]) by {
                if k < asked.len() {
                    assert(same_request(held_calls(s)[k], asked[k]));
                }
            }
            lemma_after_scan(m, ctx, now);
        },
        (Phase::AwaitingTool, EventView::Tool(Ok(text))) => {
            assert(now =~= asked);
            lemma_record_tracks(s, asked, ctx, text);
            lemma_scan_summary(s.record(text), ctx);
            lemma_after_scan(s.record(text), ctx, now);
        },
        (Phase::AwaitingAgent, EventView::Agent(Ok(output))) => {
            assert(now =~= asked);
            let u = CompletionView { usage: s.usage.plus(output.usage), ..s };
            if output.failed_reason is Some {
                lemma_current_calls_follow(s, asked, ctx);
            } else {
                assert(held_calls(u) == held_calls(s));
                lemma_record_tracks(u, asked, ctx, output.content);
                lemma_scan_summary(u.record(output.content), ctx);
                lemma_after_scan(u.record(output.content), ctx, now);
            }
        },
        (Phase::AwaitingTool, EventView::Tool(Err(_))) => {
            assert(now =~= asked);
            lemma_current_calls_follow(s, asked, ctx);
        },
        (Phase::AwaitingAgent, EventView::Agent(Err(_))) => {
            assert(now =~= asked);
            lemma_current_calls_follow(s, asked, ctx);
        },
        _ => {},
    }
}

/// The calls of the current iteration are the last of the calls asked for.
pub proof fn lemma_current_calls_follow(s: CompletionView, asked: Seq<ToolCallView>, ctx: AgentCtx)
    requires
        follows(held_calls(s), asked, ctx),
    ensures
        s.calls.len() <= asked.len(),
        follows(s.calls, asked.skip(asked.len() - s.calls.len()), ctx),
{
    let tail = asked.skip(asked.len() - s.calls.len());
    assert forall|k: int| 0 <= k < tail.len() implies same_request(#[trigger] s.calls[k], tail[k])
        && (unserved(tail[k].name, ctx) ==> s.calls[k] == tail[k]) by {
        let j = s.resolved.len() + k;
        assert(held_calls(s)[j] == s.calls[k]);
        assert(same_request(held_calls(s)[j], asked[j]));
    }
}

/// What a scan leads to from a state that is in step, but for its phase.
pub proof fn lemma_after_scan(m: CompletionView, ctx: AgentCtx, now: Seq<ToolCallView>)
    requires
        m.consistent(),
        !m.has_calls ==> m.calls.len() == 0,
        follows(held_calls(m), now, ctx),
        answer_served_calls(m.replies, now, ctx),
    ensures
        ({
            let (t, a) = m.scan(ctx);
            let head = history_of(m.output);
            &&& t.phase != Phase::Finished ==> tracks(t, now, ctx)
            &&& a matches ActionView::Return(o) ==> output_follows(o, now, ctx)
            &&& a is CallModel ==> {
                &&& head.len() < t.request.chat_history.len()
                &&& t.request.chat_history == head + t.request.chat_history.skip(head.len() as int)
                &&& answer_served_calls(t.request.chat_history.skip(head.len() as int), now, ctx)
            }
        }),
{
    lemma_scan_summary(m, ctx);
    let (t, a) = m.scan(ctx);
    let head = history_of(m.output);
    match a {
        ActionView::Tool(_) | ActionView::Agent(_) => {
            assert(held_calls(t) == held_calls(m));
        },
        ActionView::CallModel => {
            assert(held_calls(t) =~= held_calls(m));
            assert(t.request.chat_history.skip(head.len() as int) =~= m.replies);
            assert(answer_served_calls(t.replies, now, ctx));
        },
        ActionView::Return(o) => {
            match o.tool_calls {
                Some(list) => {
                    if list == held_calls(m) {
                        assert(now.skip(now.len() - list.len()) =~= now);
                    } else {
                        lemma_current_calls_follow(m, now, ctx);
                    }
                },
                None => {},
            }
        },
        ActionView::Fail(_) => {},
    }
}

/// The calls the model has asked for in the course of a series of events,
/// answer after answer, as they came.
pub open spec fn asked_so_far(s: CompletionView, ctx: AgentCtx, events: Seq<EventView>) -> Seq<
    ToolCallView,
>
    decreases events.len(),
{
    if events.len() == 0 {
        Seq::empty()
    } else {
        asked_so_far(s, ctx, events.drop_last()) + newly_asked(
            run_after(s, ctx, events.drop_last()).phase,
            events.last(),
        )
    }
}

/// Whatever a run is fed, as long as it is not over it is in step with
/// what the model has asked for.
pub proof fn law_run_tracks(request: CompletionRequestView, ctx: AgentCtx, events: Seq<EventView>)
    ensures
        ({
            let s = run_after(started(request), ctx, events);
            s.phase != Phase::Finished ==> tracks(
                s,
                asked_so_far(started(request), ctx, events),
                ctx,
            )
        }),
    decreases events.len(),
{
    let s0 = started(request);
    if events.len() == 0 {
        assert(held_calls(s0) =~= Seq::<ToolCallView>::empty());
    } else {
        let before = run_after(s0, ctx, events.drop_last());
        law_run_tracks(request, ctx, events.drop_last());
        if before.phase != Phase::Finished {
            law_step_tracks(before, ctx, events.last(), asked_so_far(s0, ctx, events.drop_last()));
        }
    }
}

/// Over a whole run, a call that nothing serves is never answered and
/// never changed. Whatever the run was fed before, the step that follows
/// returns an output on which such a call stands exactly as the model
/// asked for it, or asks for the model with a history of what the model
/// handed back followed by messages that answer served calls alone.
pub proof fn law_unserved_calls_over_a_run(
    request: CompletionRequestView,
    ctx: AgentCtx,
    events: Seq<EventView>,
    event: EventView,
)
    ensures
        ({
            let s = run_after(started(request), ctx, events);
            let (t, a) = s.step(ctx, event);
            let asked = asked_so_far(started(request), ctx, events.push(event));
            let head = history_of(s.output);
            &&& a matches ActionView::Return(o) ==> output_follows(o, asked, ctx)
            &&& a is CallModel ==> {
                &&& head.len() < t.request.chat_history.len()
                &&& t.request.chat_history == head + t.request.chat_history.skip(head.len() as int)
                &&& answer_served_calls(t.request.chat_history.skip(head.len() as int), asked, ctx)
            }
        }),
{
    let s0 = started(request);
    let s = run_after(s0, ctx, events);
    assert(events.push(event).drop_last() =~= events);
    law_run_tracks(request, ctx, events);
    if s.phase != Phase::Finished {
        law_step_tracks(s, ctx, event, asked_so_far(s0, ctx, events));
    }
}

/// Messages that answer served calls alone hold none for an identifier
/// that no served call has.
pub proof fn law_no_answer_for_other_identifier(
    entries: Seq<HistoryEntryView>,
    asked: Seq<ToolCallView>,
    ctx: AgentCtx,
    id: Seq<char>,
    r: int,
)
    requires
        answer_served_calls(entries, asked, ctx),
        forall|k: int| 0 <= k < asked.len() && !unserved((#[trigger] asked[k]).name, ctx) ==> asked[k].id != id,
        0 <= r < entries.len(),
    ensures
        !(entries[r] matches HistoryEntryView::Message(m) && m.tool_call_id == Some(id)),
{
    let e = entries[r];
    let k = choose|k: int|
        #![trigger asked[k]]
        0 <= k < asked.len() && !unserved(asked[k].name, ctx) && answers(e, asked[k]);
    assert(answers(e, asked[k]));
}

/// Where the model's answer asks for one call only and nothing serves it,
/// the run ends with that step: the model is not invoked again, and an
/// output that is returned has the call on it, last, as it was asked.
pub proof fn law_unserved_only_call_ends_run(
    s: CompletionView,
    ctx: AgentCtx,
    output: AgentOutputView,
    call: ToolCallView,
)
    requires
        s.phase == Phase::AwaitingModel,
        output.tool_calls == Some(seq![call]),
        unserved(call.name, ctx),
    ensures
        ({
            let (t, a) = s.step(ctx, EventView::Model(output));
            &&& t.phase == Phase::Finished
            &&& a is Return || a is Fail
            &&& a matches ActionView::Return(o) ==> {
                &&& o.tool_calls matches Some(list)
                &&& list.len() > 0
                &&& list.last() == call
            }
        }),
{
    let m = CompletionView {
        phase: s.phase,
        request: s.request,
        usage: s.usage.plus(output.usage),
        resolved: s.resolved,
        output: AgentOutputView { tool_calls: None, ..output },
        has_calls: true,
        calls: seq![call],
        cursor: 0,
        replies: Seq::empty(),
    };
    lemma_scan_summary(m, ctx);
    assert(held_calls(m) =~= s.resolved.push(call));
    let (t, a) = m.scan(ctx);
    if a is Tool || a is Agent {
        assert(t.cursor == 0);
    }
}

/// Every output a step returns carries the usage the run has accumulated,
/// what the step itself took included.
pub proof fn law_returned_usage_is_total(s: CompletionView, ctx: AgentCtx, event: EventView)
    ensures
        s.step(ctx, event).1 matches ActionView::Return(o) ==> {
            &&& o.usage == s.step(ctx, event).0.usage
            &&& o.usage == s.usage.plus(usage_taken(s.phase, event))
        },
{
    assert(s.usage.plus(Usage::zero()) == s.usage);
    match (s.phase, event) {
        (Phase::AwaitingModel, EventView::Model(output)) => {
            let m = CompletionView {
                phase: s.phase,
                request: s.request,
                usage: s.usage.plus(output.usage),
                resolved: s.resolved,
                output: AgentOutputView { tool_calls: None, ..output },
                has_calls: output.tool_calls is Some,
                calls: calls_of(output),
                cursor: 0,
                replies: Seq::empty(),
            };
            lemma_scan_keeps_usage(m, ctx);
            lemma_scan_returns_total(m, ctx);
        },
        (Phase::AwaitingTool, EventView::Tool(Ok(text))) => {
            lemma_scan_keeps_usage(s.record(text), ctx);
            lemma_scan_returns_total(s.record(text), ctx);
        },
        (Phase::AwaitingAgent, EventView::Agent(Ok(output))) => {
            let u = CompletionView { usage: s.usage.plus(output.usage), ..s };
            if output.failed_reason is None {
                lemma_scan_keeps_usage(u.record(output.content), ctx);
                lemma_scan_returns_total(u.record(output.content), ctx);
            }
        },
        _ => {},
    }
}

/// An output that a scan returns carries the accumulated usage.
pub proof fn lemma_scan_returns_total(s: CompletionView, ctx: AgentCtx)
    ensures
        s.scan(ctx).1 matches ActionView::Return(o) ==> o.usage == s.usage,
    decreases s.calls.len() - s.cursor,
{
    if !(s.cursor < 0 || s.cursor >= s.calls.len()) {
        let call = s.calls[s.cursor];
        if !is_offered(s.request.tools, call.name) {
            lemma_scan_returns_total(CompletionView { cursor: s.cursor + 1, ..s }, ctx);
        } else {
            let w = CompletionView {
                request: CompletionRequestView {
                    tools: withdraw(s.request.tools, call.name),
                    ..s.request
                },
                ..s
            };
            if call_class(call.name, ctx.tools(), ctx.agents()) == CallClass::Unknown {
                lemma_scan_returns_total(CompletionView { cursor: w.cursor + 1, ..w }, ctx);
            }
        }
    }
}

} // verus!
