//! The completion loop, as a machine that is stepped from outside: the
//! driver invokes the model and performs each dispatch, and hands what came
//! back to `step`, which folds it into the run and says what to do next.

use vstd::prelude::*;
use vstd::string::*;
use crate::context::{AgentCtx, AgentDispatch, AgentDispatchView, ToolDispatch, ToolDispatchView};
use crate::model::{
    tool_message, views, AgentOutput, AgentOutputView, CompletionRequest,
    CompletionRequestView, FunctionDefinition, FunctionDefinitionView, HistoryEntry,
    HistoryEntryView, Message, ToolCall, ToolCallView, Usage,
};
use crate::outside::{agent_args_prompt, parse_agent_args};
use crate::router::{call_class, classify, CallClass};
use crate::text::same_text;

verus! {

/// What the run is waiting for.
#[derive(Clone, Copy, Debug, PartialEq, Eq, Structural)]
pub enum Phase {
    /// The model is to be invoked with the current request.
    AwaitingModel,
    /// A tool call has been handed out.
    AwaitingTool,
    /// An agent run has been handed out.
    AwaitingAgent,
    /// The run has ended.
    Finished,
}

/// Why a completion ends in an error, as mathematics. Which error the
/// parser gave for a payload is not part of the model: the kind alone is.
pub enum CompletionErrorView {
    Deserialization,
    OutOfTurn,
}

/// Why a completion ends in an error instead of an output.
#[derive(Debug)]
pub enum CompletionError {
    /// An agent call's argument payload is not the expected structure.
    Deserialization(serde_json::Error),
    /// An event arrived that the run was not waiting for.
    OutOfTurn,
}

impl View for CompletionError {
    type V = CompletionErrorView;

    open spec fn view(&self) -> CompletionErrorView {
        match self {
            CompletionError::Deserialization(_) => CompletionErrorView::Deserialization,
            CompletionError::OutOfTurn => CompletionErrorView::OutOfTurn,
        }
    }
}

/// What came back from outside, as mathematics.
pub enum EventView {
    Model(AgentOutputView),
    Tool(Result<Seq<char>, Seq<char>>),
    Agent(Result<AgentOutputView, Seq<char>>),
}

/// What came back from outside.
#[derive(Debug, PartialEq)]
pub enum Event {
    /// The model answered.
    Model(AgentOutput),
    /// The tool that was handed out gave a result, or failed with a message.
    Tool(Result<String, String>),
    /// The agent that was handed out gave an output, or failed with a message.
    Agent(Result<AgentOutput, String>),
}

impl View for Event {
    type V = EventView;

    open spec fn view(&self) -> EventView {
        match self {
            Event::Model(o) => EventView::Model(o@),
            Event::Tool(r) => EventView::Tool(
                match r {
                    Ok(s) => Ok(s@),
                    Err(e) => Err(e@),
                },
            ),
            Event::Agent(r) => EventView::Agent(
                match r {
                    Ok(o) => Ok(o@),
                    Err(e) => Err(e@),
                },
            ),
        }
    }
}

/// What the driver is to do next, as mathematics.
pub enum ActionView {
    CallModel,
    Tool(ToolDispatchView),
    Agent(AgentDispatchView),
    Return(AgentOutputView),
    Fail(CompletionErrorView),
}

/// What the driver is to do next.
#[derive(Debug)]
pub enum Action {
    /// Invoke the model with the run's current request.
    CallModel,
    /// Execute the tool call and report with `Event::Tool`.
    Tool(ToolDispatch),
    /// Execute the agent run and report with `Event::Agent`.
    Agent(AgentDispatch),
    /// The completion ends with this output.
    Return(AgentOutput),
    /// The completion ends with this error.
    Fail(CompletionError),
}

impl View for Action {
    type V = ActionView;

    open spec fn view(&self) -> ActionView {
        match self {
            Action::CallModel => ActionView::CallModel,
            Action::Tool(d) => ActionView::Tool(d@),
            Action::Agent(d) => ActionView::Agent(d@),
            Action::Return(o) => ActionView::Return(o@),
            Action::Fail(e) => ActionView::Fail(e@),
        }
    }
}

/// Whether a definition called `name` is on offer.
pub open spec fn is_offered(tools: Seq<FunctionDefinitionView>, name: Seq<char>) -> bool {
    exists|i: int| 0 <= i < tools.len() && (#[trigger] tools[i]).name == name
}

/// The offer without the definitions called `name`.
pub open spec fn withdraw(tools: Seq<FunctionDefinitionView>, name: Seq<char>) -> Seq<
    FunctionDefinitionView,
> {
    tools.filter(|d: FunctionDefinitionView| d.name != name)
}

/// An output that says nothing.
pub open spec fn blank_output() -> AgentOutputView {
    AgentOutputView {
        content: Seq::empty(),
        failed_reason: None,
        tool_calls: None,
        full_history: None,
        usage: Usage::zero(),
    }
}

/// What a run is, as mathematics.
pub struct CompletionView {
    /// What the run waits for.
    pub phase: Phase,
    /// The request the model is invoked with next.
    pub request: CompletionRequestView,
    /// The usage accumulated so far.
    pub usage: Usage,
    /// The calls of the iterations that are over.
    pub resolved: Seq<ToolCallView>,
    /// The model's latest output, without its calls.
    pub output: AgentOutputView,
    /// Whether the model's latest output held a list of calls.
    pub has_calls: bool,
    /// The calls of the model's latest output.
    pub calls: Seq<ToolCallView>,
    /// How many of them have been scanned.
    pub cursor: int,
    /// The tool-role messages of this iteration, as history entries.
    pub replies: Seq<HistoryEntryView>,
}

impl CompletionView {
    /// The run at its end: nothing is pending any more.
    pub open spec fn finished(self) -> CompletionView {
        CompletionView {
            phase: Phase::Finished,
            request: self.request,
            usage: self.usage,
            resolved: Seq::empty(),
            output: blank_output(),
            has_calls: false,
            calls: Seq::empty(),
            cursor: 0,
            replies: Seq::empty(),
        }
    }

    /// The current output with this iteration's calls put back on it.
    pub open spec fn current_output(self) -> AgentOutputView {
        AgentOutputView {
            tool_calls: if self.has_calls {
                Some(self.calls)
            } else {
                None
            },
            ..self.output
        }
    }

    /// A dispatch failed: the run ends with the current output, the reason
    /// of the failure and the accumulated usage on it.
    pub open spec fn abort(self, reason: Seq<char>) -> (CompletionView, ActionView) {
        (
            self.finished(),
            ActionView::Return(
                AgentOutputView {
                    failed_reason: Some(reason),
                    usage: self.usage,
                    ..self.current_output()
                },
            ),
        )
    }

    /// The call at the cursor succeeded with `result`: a tool-role message
    /// joins the replies, the result is recorded on the call, and the
    /// cursor moves on.
    pub open spec fn record(self, result: Seq<char>) -> CompletionView {
        CompletionView {
            replies: self.replies.push(
                HistoryEntryView::Message(tool_message(result, self.calls[self.cursor].id)),
            ),
            calls: self.calls.update(self.cursor, self.calls[self.cursor].resolved(result)),
            cursor: self.cursor + 1,
            ..self
        }
    }

    /// All calls are scanned. Without replies the run ends with the whole
    /// call history and the accumulated usage on the output; with replies
    /// the model is invoked again, on the history it handed back followed
    /// by the replies, without system prompt, documents and prompt.
    pub open spec fn conclude(self) -> (CompletionView, ActionView) {
        let resolved = if self.has_calls {
            self.resolved + self.calls
        } else {
            self.resolved
        };
        if self.replies.len() == 0 {
            (
                self.finished(),
                ActionView::Return(
                    AgentOutputView {
                        tool_calls: if resolved.len() == 0 {
                            None
                        } else {
                            Some(resolved)
                        },
                        usage: self.usage,
                        ..self.output
                    },
                ),
            )
        } else {
            (
                CompletionView {
                    phase: Phase::AwaitingModel,
                    request: CompletionRequestView {
                        system: None,
                        chat_history: (match self.output.full_history {
                            Some(h) => h,
                            None => Seq::empty(),
                        }) + self.replies,
                        documents: Seq::empty(),
                        prompt: Seq::empty(),
                        tools: self.request.tools,
                    },
                    usage: self.usage,
                    resolved,
                    output: blank_output(),
                    has_calls: false,
                    calls: Seq::empty(),
                    cursor: 0,
                    replies: Seq::empty(),
                },
                ActionView::CallModel,
            )
        }
    }

    /// The call at the cursor is an agent's and `prompt` is what its
    /// argument payload parsed to. A payload that did not parse ends the
    /// run with an error; otherwise the agent run is handed out, or the run
    /// ends because nothing serves the name.
    pub open spec fn run_agent(self, ctx: AgentCtx, prompt: Option<Seq<char>>) -> (
        CompletionView,
        ActionView,
    ) {
        match prompt {
            Some(text) => match ctx.agent_dispatch(self.calls[self.cursor].name, text, None) {
                Ok(d) => (
                    CompletionView { phase: Phase::AwaitingAgent, ..self },
                    ActionView::Agent(d),
                ),
                Err(e) => self.abort(e.message()),
            },
            None => (self.finished(), ActionView::Fail(CompletionErrorView::Deserialization)),
        }
    }

    /// Scans the calls from the cursor on, left to right. A call whose name
    /// is no longer on offer is passed over. Any other call has its
    /// definition withdrawn from the offer and is dispatched by its class;
    /// a call of unknown class is passed over. The scan stops at the first
    /// call that is handed out or that ends the run, and concludes the
    /// iteration when no call is left.
    pub open spec fn scan(self, ctx: AgentCtx) -> (CompletionView, ActionView)
        decreases self.calls.len() - self.cursor,
    {
        if self.cursor < 0 || self.cursor >= self.calls.len() {
            self.conclude()
        } else {
            let call = self.calls[self.cursor];
            if !is_offered(self.request.tools, call.name) {
                (CompletionView { cursor: self.cursor + 1, ..self }).scan(ctx)
            } else {
                let s = CompletionView {
                    request: CompletionRequestView {
                        tools: withdraw(self.request.tools, call.name),
                        ..self.request
                    },
                    ..self
                };
                match call_class(call.name, ctx.tools(), ctx.agents()) {
                    CallClass::Tool => match ctx.tool_dispatch(call.name, call.args) {
                        Ok(d) => (
                            CompletionView { phase: Phase::AwaitingTool, ..s },
                            ActionView::Tool(d),
                        ),
                        Err(e) => s.abort(e.message()),
                    },
                    CallClass::Agent => s.run_agent(ctx, agent_args_prompt(call.args)),
                    CallClass::Unknown => (CompletionView { cursor: s.cursor + 1, ..s }).scan(ctx),
                }
            }
        }
    }

    /// The model answered: its usage joins the total, its output becomes
    /// the current one, and its calls are scanned from the first.
    pub open spec fn on_model(self, ctx: AgentCtx, output: AgentOutputView) -> (
        CompletionView,
        ActionView,
    ) {
        (CompletionView {
            phase: self.phase,
            request: self.request,
            usage: self.usage.plus(output.usage),
            resolved: self.resolved,
            output: AgentOutputView { tool_calls: None, ..output },
            has_calls: output.tool_calls is Some,
            calls: match output.tool_calls {
                Some(calls) => calls,
                None => Seq::empty(),
            },
            cursor: 0,
            replies: Seq::empty(),
        }).scan(ctx)
    }

    /// The tool that was handed out reported back.
    pub open spec fn on_tool(self, ctx: AgentCtx, result: Result<Seq<char>, Seq<char>>) -> (
        CompletionView,
        ActionView,
    ) {
        match result {
            Ok(text) => self.record(text).scan(ctx),
            Err(reason) => self.abort(reason),
        }
    }

    /// The agent that was handed out reported back. Its usage joins the
    /// total. An output that reports a failure ends the run at once: the
    /// current output is returned with that failure and the accumulated
    /// usage, the agent's included.
    pub open spec fn on_agent(self, ctx: AgentCtx, result: Result<AgentOutputView, Seq<char>>) -> (
        CompletionView,
        ActionView,
    ) {
        match result {
            Ok(output) => {
                let s = CompletionView { usage: self.usage.plus(output.usage), ..self };
                if output.failed_reason is Some {
                    (
                        s.finished(),
                        ActionView::Return(
                            AgentOutputView {
                                failed_reason: output.failed_reason,
                                usage: s.usage,
                                ..s.current_output()
                            },
                        ),
                    )
                } else {
                    s.record(output.content).scan(ctx)
                }
            },
            Err(reason) => self.abort(reason),
        }
    }

    /// One step of the run: the event the run waits for is folded in; any
    /// other event ends the run with an error.
    pub open spec fn step(self, ctx: AgentCtx, event: EventView) -> (CompletionView, ActionView) {
        match (self.phase, event) {
            (Phase::AwaitingModel, EventView::Model(output)) => self.on_model(ctx, output),
            (Phase::AwaitingTool, EventView::Tool(result)) => self.on_tool(ctx, result),
            (Phase::AwaitingAgent, EventView::Agent(result)) => self.on_agent(ctx, result),
            _ => (self.finished(), ActionView::Fail(CompletionErrorView::OutOfTurn)),
        }
    }

    /// The part of the invariant that holds in the middle of a step too:
    /// the cursor is within the calls, which are kept off the output.
    pub open spec fn consistent(self) -> bool {
        &&& 0 <= self.cursor <= self.calls.len()
        &&& self.output.tool_calls is None
    }

    /// The invariant of a run: while a dispatch is out, the cursor is at
    /// the call it is for.
    pub open spec fn well_formed(self) -> bool {
        &&& self.consistent()
        &&& (self.phase == Phase::AwaitingTool || self.phase == Phase::AwaitingAgent)
            ==> self.cursor < self.calls.len()
    }
}

/// Whether a definition called `name` is on offer.
pub fn offers(tools: &Vec<FunctionDefinition>, name: &str) -> (r: bool)
    ensures
        r == is_offered(views(tools@), name@),
{
    let n = tools.len();
    let mut i: usize = 0;
    while i < n
        invariant
            i <= n,
            n == tools@.len(),
            forall|j: int| 0 <= j < i ==> (#[trigger] views(tools@)[j]).name != name@,
        decreases n - i,
    {
        if same_text(tools[i].name.as_str(), name) {
            assert(views(tools@)[i as int].name == name@);
            return true;
        }
        i += 1;
    }
    false
}

/// Takes every definition called `name` off the offer; the others keep
/// their order.
pub fn withdraw_offer(tools: &mut Vec<FunctionDefinition>, name: &str)
    ensures
        views(final(tools)@) == withdraw(views(old(tools)@), name@),
{
    let ghost all = views(tools@);
    let ghost keep = |d: FunctionDefinitionView| d.name != name@;
    let ghost mut done: int = 0;
    let mut i: usize = 0;
    proof {
        assert(all.take(0).filter(keep) =~= Seq::<FunctionDefinitionView>::empty()) by {
            reveal(Seq::filter);
        }
        assert(views(tools@) =~= all.take(0).filter(keep) + all.skip(0));
    }
    while i < tools.len()
        invariant
            0 <= done <= all.len(),
            i <= tools@.len(),
            all.len() - done == tools@.len() - i,
            keep == (|d: FunctionDefinitionView| d.name != name@),
            all.take(done).filter(keep).len() == i,
            views(tools@) == all.take(done).filter(keep) + all.skip(done),
        decreases tools@.len() - i,
    {
        proof {
            all.lemma_take_succ_push(done);
            all.take(done).lemma_filter_push(all[done], keep);
            assert(views(tools@)[i as int] == all[done]);
        }
        if same_text(tools[i].name.as_str(), name) {
            let ghost before = tools@;
            tools.remove(i);
            proof {
                assert(views(tools@) =~= views(before).remove(i as int));
                assert(views(tools@) =~= all.take(done + 1).filter(keep) + all.skip(done + 1));
            }
        } else {
            proof {
                assert(views(tools@) =~= all.take(done + 1).filter(keep) + all.skip(done + 1));
            }
            i += 1;
        }
        proof {
            done = done + 1;
        }
    }
    proof {
        assert(all.take(done) =~= all);
        assert(views(tools@) =~= all.filter(keep));
    }
}

/// An output that says nothing.
pub fn empty_output() -> (r: AgentOutput)
    ensures
        r@ == blank_output(),
{
    AgentOutput {
        content: String::new(),
        failed_reason: None,
        tool_calls: None,
        full_history: None,
        usage: Usage::new(),
    }
}

/// A completion run.
#[derive(Debug)]
pub struct Completion {
    /// What the run waits for.
    pub phase: Phase,
    /// The request the model is invoked with next.
    pub request: CompletionRequest,
    /// The usage accumulated so far.
    pub usage: Usage,
    /// The calls of the iterations that are over.
    pub resolved: Vec<ToolCall>,
    /// The model's latest output, without its calls.
    pub output: AgentOutput,
    /// Whether the model's latest output held a list of calls.
    pub has_calls: bool,
    /// The calls of the model's latest output.
    pub calls: Vec<ToolCall>,
    /// How many of them have been scanned.
    pub cursor: usize,
    /// The tool-role messages of this iteration, as history entries.
    pub replies: Vec<HistoryEntry>,
}

impl View for Completion {
    type V = CompletionView;

    open spec fn view(&self) -> CompletionView {
        CompletionView {
            phase: self.phase,
            request: self.request@,
            usage: self.usage,
            resolved: views(self.resolved@),
            output: self.output@,
            has_calls: self.has_calls,
            calls: views(self.calls@),
            cursor: self.cursor as int,
            replies: views(self.replies@),
        }
    }
}

/// The run that is about to invoke the model with `request` for the first
/// time.
pub open spec fn started(request: CompletionRequestView) -> CompletionView {
    CompletionView {
        phase: Phase::AwaitingModel,
        request,
        usage: Usage::zero(),
        resolved: Seq::empty(),
        output: blank_output(),
        has_calls: false,
        calls: Seq::empty(),
        cursor: 0,
        replies: Seq::empty(),
    }
}

impl Completion {
    /// Begins a run: the model is to be invoked with `request`.
    pub fn start(request: CompletionRequest) -> (r: Completion)
        ensures
            r@ == started(request@),
            r@.well_formed(),
    {
        let r = Completion {
            phase: Phase::AwaitingModel,
            request,
            usage: Usage::new(),
            resolved: Vec::new(),
            output: empty_output(),
            has_calls: false,
            calls: Vec::new(),
            cursor: 0,
            replies: Vec::new(),
        };
        proof {
            assert(views(r.resolved@) =~= Seq::<ToolCallView>::empty());
            assert(views(r.calls@) =~= Seq::<ToolCallView>::empty());
            assert(views(r.replies@) =~= Seq::<HistoryEntryView>::empty());
        }
        r
    }

    /// Clears what was pending and marks the run as over. Hands out the
    /// current output with this iteration's calls put back on it.
    fn finish(&mut self) -> (r: AgentOutput)
        requires
            old(self)@.consistent(),
        ensures
            final(self)@ == old(self)@.finished(),
            final(self)@.well_formed(),
            r@ == old(self)@.current_output(),
    {
        let mut output = empty_output();
        core::mem::swap(&mut self.output, &mut output);
        let mut calls: Vec<ToolCall> = Vec::new();
        core::mem::swap(&mut self.calls, &mut calls);
        if self.has_calls {
            output.tool_calls = Some(calls);
        }
        self.phase = Phase::Finished;
        self.resolved = Vec::new();
        self.has_calls = false;
        self.cursor = 0;
        self.replies = Vec::new();
        proof {
            assert(views(self.resolved@) =~= Seq::<ToolCallView>::empty());
            assert(views(self.calls@) =~= Seq::<ToolCallView>::empty());
            assert(views(self.replies@) =~= Seq::<HistoryEntryView>::empty());
        }
        output
    }

    /// Ends the run because a dispatch failed: the current output is handed
    /// out with `reason` as its failure and the accumulated usage.
    fn abort(&mut self, reason: String) -> (action: Action)
        requires
            old(self)@.consistent(),
        ensures
            (final(self)@, action@) == old(self)@.abort(reason@),
            final(self)@.well_formed(),
    {
        let usage = self.usage;
        let mut output = self.finish();
        output.failed_reason = Some(reason);
        output.usage = usage;
        Action::Return(output)
    }

    /// Records the result of the call at the cursor.
    fn record(&mut self, result: String)
        requires
            old(self)@.consistent(),
            old(self).cursor < old(self).calls@.len(),
        ensures
            final(self)@ == old(self)@.record(result@),
            final(self)@.consistent(),
    {
        let i = self.cursor;
        let n = self.calls.len();
        let next = i + 1;
        let ghost before = self.calls@;
        let ghost replies = self.replies@;
        let mut call = ToolCall {
            id: String::new(),
            name: String::new(),
            args: String::new(),
            result: None,
        };
        core::mem::swap(&mut self.calls[i], &mut call);
        let message = Message::tool_result(result.as_str(), call.id.as_str());
        call.result = Some(result);
        let ghost done = call@;
        core::mem::swap(&mut self.calls[i], &mut call);
        self.replies.push(HistoryEntry::Message(message));
        self.cursor = next;
        proof {
            assert(done == views(before)[i as int].resolved(result@));
            assert(views(self.calls@) =~= views(before).update(i as int, done));
            assert(views(self.replies@) =~= views(replies).push(
                HistoryEntryView::Message(tool_message(result@, views(before)[i as int].id)),
            ));
        }
    }

    /// Ends the iteration once every call is scanned.
    fn conclude(&mut self) -> (action: Action)
        requires
            old(self)@.consistent(),
        ensures
            (final(self)@, action@) == old(self)@.conclude(),
            final(self)@.well_formed(),
    {
        let ghost start = self@;
        if self.has_calls {
            let ghost a = self.resolved@;
            let ghost b = self.calls@;
            self.resolved.append(&mut self.calls);
            proof {
                assert(views(self.resolved@) =~= views(a) + views(b));
            }
        }
        self.cursor = 0;
        let ghost resolved = views(self.resolved@);
        if self.replies.len() == 0 {
            let usage = self.usage;
            let mut all: Vec<ToolCall> = Vec::new();
            core::mem::swap(&mut self.resolved, &mut all);
            self.has_calls = false;
            let mut output = self.finish();
            output.tool_calls = if all.len() == 0 {
                None
            } else {
                Some(all)
            };
            output.usage = usage;
            Action::Return(output)
        } else {
            let mut output = empty_output();
            core::mem::swap(&mut self.output, &mut output);
            let mut history: Vec<HistoryEntry> = match output.full_history {
                Some(h) => h,
                None => Vec::new(),
            };
            let ghost head = history@;
            let ghost tail = self.replies@;
            history.append(&mut self.replies);
            self.request.system = None;
            self.request.documents = Vec::new();
            self.request.prompt = String::new();
            self.request.chat_history = history;
            self.phase = Phase::AwaitingModel;
            self.has_calls = false;
            self.calls = Vec::new();
            self.cursor = 0;
            proof {
                assert(views(head + tail) =~= views(head) + views(tail));
                assert(views(self.calls@) =~= Seq::<ToolCallView>::empty());
                assert(views(self.replies@) =~= Seq::<HistoryEntryView>::empty());
                assert(views(head) =~= match start.output.full_history {
                    Some(h) => h,
                    None => Seq::empty(),
                });
                assert(self.request@.documents =~= Seq::empty());
                assert(self.request@.prompt =~= Seq::empty());
            }
            Action::CallModel
        }
    }

    /// Goes on with the agent call at the cursor, given what its argument
    /// payload parsed to: the agent run is handed out, or the run ends,
    /// with the parser's own error where the payload did not parse and with
    /// a failed output where nothing serves the name.
    pub fn run_agent(&mut self, ctx: &AgentCtx, parsed: Result<String, serde_json::Error>) -> (action:
        Action)
        requires
            old(self)@.consistent(),
            old(self).cursor < old(self).calls@.len(),
            ctx.well_formed(),
        ensures
            final(self)@.well_formed(),
            (final(self)@, action@) == old(self)@.run_agent(
                *ctx,
                match parsed {
                    Ok(prompt) => Some(prompt@),
                    Err(_) => None,
                },
            ),
            parsed matches Err(given) ==> action matches Action::Fail(
                CompletionError::Deserialization(error),
            ) && error == given,
    {
        match parsed {
            Ok(prompt) => {
                match ctx.agent_run(self.calls[self.cursor].name.as_str(), prompt, None) {
                    Ok(d) => {
                        self.phase = Phase::AwaitingAgent;
                        Action::Agent(d)
                    },
                    Err(e) => self.abort(e.message()),
                }
            },
            Err(e) => {
                let _ = self.finish();
                Action::Fail(CompletionError::Deserialization(e))
            },
        }
    }

    /// Scans the calls from the cursor on.
    fn scan(&mut self, ctx: &AgentCtx) -> (action: Action)
        requires
            old(self)@.consistent(),
            ctx.well_formed(),
        ensures
            final(self)@.well_formed(),
            (final(self)@, action@) == old(self)@.scan(*ctx),
    {
        let ghost goal = self@.scan(*ctx);
        while self.cursor < self.calls.len()
            invariant
                self@.consistent(),
                ctx.well_formed(),
                self@.scan(*ctx) == goal,
                goal == old(self)@.scan(*ctx),
            decreases self.calls@.len() - self.cursor,
        {
            let i = self.cursor;
            assert(views(self.calls@)[i as int] == self.calls@[i as int]@);
            if !offers(&self.request.tools, self.calls[i].name.as_str()) {
                self.cursor = i + 1;
            } else {
                withdraw_offer(&mut self.request.tools, self.calls[i].name.as_str());
                match classify(self.calls[i].name.as_str(), &ctx.tools, &ctx.agents) {
                    CallClass::Tool => {
                        let args = self.calls[i].args.clone();
                        match ctx.tool_call(self.calls[i].name.as_str(), args) {
                            Ok(d) => {
                                self.phase = Phase::AwaitingTool;
                                return Action::Tool(d);
                            },
                            Err(e) => {
                                return self.abort(e.message());
                            },
                        }
                    },
                    CallClass::Agent => {
                        let parsed = parse_agent_args(self.calls[i].args.as_str());
                        return self.run_agent(ctx, parsed);
                    },
                    CallClass::Unknown => {
                        self.cursor = i + 1;
                    },
                }
            }
        }
        self.conclude()
    }

    /// Folds what came back from outside into the run and says what the
    /// driver is to do next. The run takes the event it waits for: the
    /// model's output after `CallModel`, a tool's result after `Tool`, an
    /// agent's output after `Agent`. Any other event ends the run with
    /// `OutOfTurn`.
    pub fn step(&mut self, ctx: &AgentCtx, event: Event) -> (action: Action)
        requires
            old(self)@.well_formed(),
            ctx.well_formed(),
        ensures
            final(self)@.well_formed(),
            (final(self)@, action@) == old(self)@.step(*ctx, event@),
    {
        match event {
            Event::Model(output) => {
                if self.phase != Phase::AwaitingModel {
                    let _ = self.finish();
                    return Action::Fail(CompletionError::OutOfTurn);
                }
                self.usage.accumulate(&output.usage);
                let AgentOutput { content, failed_reason, tool_calls, full_history, usage } = output;
                self.output = AgentOutput {
                    content,
                    failed_reason,
                    tool_calls: None,
                    full_history,
                    usage,
                };
                match tool_calls {
                    Some(calls) => {
                        self.has_calls = true;
                        self.calls = calls;
                    },
                    None => {
                        self.has_calls = false;
                        self.calls = Vec::new();
                    },
                }
                self.cursor = 0;
                self.replies = Vec::new();
                proof {
                    assert(views(self.replies@) =~= Seq::<HistoryEntryView>::empty());
                    if tool_calls is None {
                        assert(views(self.calls@) =~= Seq::<ToolCallView>::empty());
                    }
                }
                self.scan(ctx)
            },
            Event::Tool(result) => {
                if self.phase != Phase::AwaitingTool {
                    let _ = self.finish();
                    return Action::Fail(CompletionError::OutOfTurn);
                }
                match result {
                    Ok(text) => {
                        self.record(text);
                        self.scan(ctx)
                    },
                    Err(reason) => self.abort(reason),
                }
            },
            Event::Agent(result) => {
                if self.phase != Phase::AwaitingAgent {
                    let _ = self.finish();
                    return Action::Fail(CompletionError::OutOfTurn);
                }
                match result {
                    Ok(output) => {
                        self.usage.accumulate(&output.usage);
                        if output.failed_reason.is_some() {
                            let usage = self.usage;
                            let mut current = self.finish();
                            current.failed_reason = output.failed_reason;
                            current.usage = usage;
                            Action::Return(current)
                        } else {
                            self.record(output.content);
                            self.scan(ctx)
                        }
                    },
                    Err(reason) => self.abort(reason),
                }
            },
        }
    }
}

impl AgentCtx {
    /// Begins the completion of `req`: a run that handles every tool call
    /// the model asks for and feeds the results back until the model gives
    /// its final answer. The driver invokes the model with the run's
    /// request and steps the run with what comes back.
    pub fn completion(&self, req: CompletionRequest) -> (run: Completion)
        ensures
            run@ == started(req@),
            run@.well_formed(),
    {
        Completion::start(req)
    }
}

} // verus!
