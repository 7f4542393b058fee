use std::sync::Arc;

use anda_engine::completion::{
    empty_output, offers, withdraw_offer, Action, Completion, CompletionError, Event, Phase,
};
use anda_engine::context::{AgentCtx, AgentDispatch, BaseCtx, RpcArgs, ToolDispatch};
use anda_engine::directory::{EngineInformation, RemoteEngines};
use anda_engine::model::{
    AgentOutput, CompletionRequest, Document, FunctionDefinition, HistoryEntry, Message, ToolCall,
    Usage,
};
use anda_engine::registry::DefinitionRegistry;
use candid::Principal;

fn def(name: &str) -> FunctionDefinition {
    FunctionDefinition {
        name: name.to_string(),
        description: String::new(),
        parameters: serde_json::Value::Null,
        strict: None,
    }
}

fn registry(list: &[&str]) -> DefinitionRegistry {
    let mut reg = DefinitionRegistry::new();
    for n in list {
        reg.add(def(n)).unwrap();
    }
    reg
}

fn context() -> AgentCtx {
    let mut dir = RemoteEngines::new();
    dir.insert(
        "x1".to_string(),
        EngineInformation {
            id: Principal::anonymous(),
            name: "peer".to_string(),
            endpoint: "https://peer/rpc".to_string(),
            agent_definitions: vec![def("helper")],
            tool_definitions: vec![def("lookup")],
        },
    );
    AgentCtx::new(
        BaseCtx::new(Principal::anonymous(), Principal::anonymous(), None, String::new()),
        Arc::new(registry(&["weather", "calc"])),
        Arc::new(registry(&["planner"])),
        Arc::new(dir),
    )
}

fn request(tools: &[&str]) -> CompletionRequest {
    CompletionRequest {
        system: Some("be brief".to_string()),
        chat_history: vec![],
        documents: vec![Document {
            id: "doc_0".to_string(),
            text: "text".to_string(),
            additional_props: vec![],
        }],
        prompt: "what is the weather?".to_string(),
        tools: tools.iter().map(|n| def(n)).collect(),
    }
}

fn call(id: &str, name: &str, args: &str) -> ToolCall {
    ToolCall { id: id.to_string(), name: name.to_string(), args: args.to_string(), result: None }
}

fn answer(content: &str, calls: Option<Vec<ToolCall>>, input: u64, output: u64) -> AgentOutput {
    AgentOutput {
        content: content.to_string(),
        failed_reason: None,
        tool_calls: calls,
        full_history: None,
        usage: Usage { input_tokens: input, output_tokens: output },
    }
}

fn tool_entry(content: &str, id: &str) -> HistoryEntry {
    HistoryEntry::Message(Message {
        role: "tool".to_string(),
        content: content.to_string(),
        name: None,
        tool_call_id: Some(id.to_string()),
    })
}

fn returned(action: Action) -> AgentOutput {
    match action {
        Action::Return(o) => o,
        other => panic!("expected an output, got {:?}", other),
    }
}

#[test]
fn no_tool_calls_ends_after_one_invocation() {
    let ctx = context();
    let mut run = ctx.completion(request(&["weather"]));
    assert_eq!(run.phase, Phase::AwaitingModel);
    assert_eq!(run.request, request(&["weather"]));
    let out = returned(run.step(&ctx, Event::Model(answer("hello", None, 11, 7))));
    assert_eq!(run.phase, Phase::Finished);
    assert_eq!(out.content, "hello");
    assert_eq!(out.tool_calls, None);
    assert_eq!(out.failed_reason, None);
    assert_eq!(out.usage, Usage { input_tokens: 11, output_tokens: 7 });
}

#[test]
fn empty_call_list_ends_after_one_invocation() {
    let ctx = context();
    let mut run = ctx.completion(request(&["weather"]));
    let out = returned(run.step(&ctx, Event::Model(answer("hello", Some(vec![]), 3, 4))));
    assert_eq!(out.tool_calls, None);
    assert_eq!(out.usage, Usage { input_tokens: 3, output_tokens: 4 });
    assert_eq!(run.phase, Phase::Finished);
}

#[test]
fn local_tool_result_is_fed_back_once() {
    let ctx = context();
    let mut run = ctx.completion(request(&["weather"]));
    let first = answer("", Some(vec![call("c1", "weather", "{\"city\":\"Oslo\"}")]), 10, 2);
    match run.step(&ctx, Event::Model(first)) {
        Action::Tool(ToolDispatch::Local { ctx: child, name, args }) => {
            assert_eq!(name, "weather");
            assert_eq!(args, "{\"city\":\"Oslo\"}");
            assert_eq!(child.path, "T:weather");
        }
        other => panic!("unexpected action {:?}", other),
    }
    assert_eq!(run.phase, Phase::AwaitingTool);
    assert!(run.request.tools.is_empty());
    match run.step(&ctx, Event::Tool(Ok("sunny".to_string()))) {
        Action::CallModel => {}
        other => panic!("unexpected action {:?}", other),
    }
    assert_eq!(run.phase, Phase::AwaitingModel);
    assert_eq!(run.request.system, None);
    assert!(run.request.documents.is_empty());
    assert_eq!(run.request.prompt, "");
    assert_eq!(run.request.chat_history, vec![tool_entry("sunny", "c1")]);
    let out = returned(run.step(&ctx, Event::Model(answer("It is sunny.", None, 20, 5))));
    assert_eq!(out.content, "It is sunny.");
    assert_eq!(out.failed_reason, None);
    assert_eq!(
        out.tool_calls,
        Some(vec![ToolCall {
            id: "c1".to_string(),
            name: "weather".to_string(),
            args: "{\"city\":\"Oslo\"}".to_string(),
            result: Some("sunny".to_string()),
        }])
    );
    assert_eq!(out.usage, Usage { input_tokens: 30, output_tokens: 7 });
    assert_eq!(run.phase, Phase::Finished);
}

#[test]
fn malformed_agent_arguments_fail_the_completion() {
    let ctx = context();
    let mut run = ctx.completion(request(&["planner"]));
    let first = answer("", Some(vec![call("c1", "planner", "not json")]), 1, 1);
    match run.step(&ctx, Event::Model(first)) {
        Action::Fail(CompletionError::Deserialization(_)) => {}
        other => panic!("unexpected action {:?}", other),
    }
    assert_eq!(run.phase, Phase::Finished);
    let mut run = ctx.completion(request(&["LA_planner"]));
    let first = answer("", Some(vec![call("c1", "LA_planner", "{\"query\":\"x\"}")]), 1, 1);
    assert!(matches!(
        run.step(&ctx, Event::Model(first)),
        Action::Fail(CompletionError::Deserialization(_))
    ));
}

#[test]
fn agent_call_hands_out_the_parsed_prompt() {
    let ctx = context();
    let mut run = ctx.completion(request(&["LA_planner", "RA_x1helper"]));
    let first = answer(
        "",
        Some(vec![
            call("c1", "LA_planner", "{\"prompt\":\"make a plan\"}"),
            call("c2", "RA_x1helper", "{\"prompt\":\"help\"}"),
        ]),
        5,
        5,
    );
    match run.step(&ctx, Event::Model(first)) {
        Action::Agent(AgentDispatch::Local { ctx: child, name, prompt, attachment }) => {
            assert_eq!(name, "planner");
            assert_eq!(prompt, "make a plan");
            assert_eq!(attachment, None);
            assert_eq!(child.base.path, "A:planner");
        }
        other => panic!("unexpected action {:?}", other),
    }
    assert_eq!(run.phase, Phase::AwaitingAgent);
    let nested = answer("the plan", None, 100, 50);
    match run.step(&ctx, Event::Agent(Ok(nested))) {
        Action::Agent(AgentDispatch::Remote(req)) => {
            assert_eq!(req.endpoint, "https://peer/rpc");
            assert_eq!(req.method, "agent_run");
            assert_eq!(
                req.args,
                RpcArgs::AgentRun {
                    name: "helper".to_string(),
                    prompt: "help".to_string(),
                    attachment: None,
                }
            );
        }
        other => panic!("unexpected action {:?}", other),
    }
    assert_eq!(run.usage, Usage { input_tokens: 105, output_tokens: 55 });
    assert!(matches!(
        run.step(&ctx, Event::Agent(Ok(answer("helped", None, 1, 1)))),
        Action::CallModel
    ));
    assert_eq!(run.request.chat_history, vec![
        tool_entry("the plan", "c1"),
        tool_entry("helped", "c2")
    ]);
    let out = returned(run.step(&ctx, Event::Model(answer("done", None, 2, 2))));
    assert_eq!(out.usage, Usage { input_tokens: 108, output_tokens: 58 });
    let calls = out.tool_calls.unwrap();
    assert_eq!(calls.len(), 2);
    assert_eq!(calls[0].result, Some("the plan".to_string()));
    assert_eq!(calls[1].result, Some("helped".to_string()));
}

#[test]
fn run_agent_goes_by_the_parse_result() {
    let ctx = context();
    let mut run = Completion::start(request(&[]));
    run.has_calls = true;
    run.calls = vec![call("c1", "planner", "ignored")];
    match run.run_agent(&ctx, Ok("direct".to_string())) {
        Action::Agent(AgentDispatch::Local { name, prompt, .. }) => {
            assert_eq!(name, "planner");
            assert_eq!(prompt, "direct");
        }
        other => panic!("unexpected action {:?}", other),
    }
    assert_eq!(run.phase, Phase::AwaitingAgent);
    let mut run = Completion::start(request(&[]));
    run.has_calls = true;
    run.calls = vec![call("c1", "planner", "ignored")];
    let error = serde_json::from_str::<serde_json::Value>("{\n  \"a\": }").unwrap_err();
    let (text, line, column) = (error.to_string(), error.line(), error.column());
    match run.run_agent(&ctx, Err(error)) {
        Action::Fail(CompletionError::Deserialization(e)) => {
            assert_eq!(e.to_string(), text);
            assert_eq!((e.line(), e.column()), (line, column));
            assert_eq!(line, 2);
        }
        other => panic!("unexpected action {:?}", other),
    }
    assert_eq!(run.phase, Phase::Finished);
    let mut run = Completion::start(request(&[]));
    run.has_calls = true;
    run.calls = vec![call("c1", "LA_ghost", "ignored")];
    let out = returned(run.run_agent(&ctx, Ok("direct".to_string())));
    assert_eq!(out.failed_reason, Some("agent ghost not found".to_string()));
}

#[test]
fn tool_error_aborts_with_failure_and_usage() {
    let ctx = context();
    let mut run = ctx.completion(request(&["weather", "calc"]));
    let first = answer(
        "partial",
        Some(vec![call("c1", "weather", "{}"), call("c2", "calc", "{}")]),
        9,
        1,
    );
    assert!(matches!(run.step(&ctx, Event::Model(first)), Action::Tool(_)));
    let out = returned(run.step(&ctx, Event::Tool(Err("boom".to_string()))));
    assert_eq!(out.failed_reason, Some("boom".to_string()));
    assert_eq!(out.content, "partial");
    assert_eq!(out.usage, Usage { input_tokens: 9, output_tokens: 1 });
    assert_eq!(out.tool_calls, Some(vec![call("c1", "weather", "{}"), call("c2", "calc", "{}")]));
    assert_eq!(run.phase, Phase::Finished);
    assert!(matches!(
        run.step(&ctx, Event::Model(answer("again", None, 1, 1))),
        Action::Fail(CompletionError::OutOfTurn)
    ));
}

#[test]
fn agent_error_aborts_with_failure() {
    let ctx = context();
    let mut run = ctx.completion(request(&["planner"]));
    let first = answer("", Some(vec![call("c1", "planner", "{\"prompt\":\"p\"}")]), 4, 4);
    assert!(matches!(run.step(&ctx, Event::Model(first)), Action::Agent(_)));
    let out = returned(run.step(&ctx, Event::Agent(Err("agent crashed".to_string()))));
    assert_eq!(out.failed_reason, Some("agent crashed".to_string()));
    assert_eq!(out.usage, Usage { input_tokens: 4, output_tokens: 4 });
    assert_eq!(run.phase, Phase::Finished);
}

#[test]
fn failing_sub_agent_short_circuits() {
    let ctx = context();
    let mut run = ctx.completion(request(&["planner", "weather"]));
    let first = answer(
        "thinking",
        Some(vec![call("c1", "planner", "{\"prompt\":\"p\"}"), call("c2", "weather", "{}")]),
        4,
        6,
    );
    assert!(matches!(run.step(&ctx, Event::Model(first)), Action::Agent(_)));
    let mut nested = answer("", None, 40, 60);
    nested.failed_reason = Some("nested failure".to_string());
    let out = returned(run.step(&ctx, Event::Agent(Ok(nested))));
    assert_eq!(out.failed_reason, Some("nested failure".to_string()));
    assert_eq!(out.content, "thinking");
    assert_eq!(out.usage, Usage { input_tokens: 44, output_tokens: 66 });
    assert_eq!(
        out.tool_calls,
        Some(vec![call("c1", "planner", "{\"prompt\":\"p\"}"), call("c2", "weather", "{}")])
    );
    assert_eq!(run.usage, Usage { input_tokens: 44, output_tokens: 66 });
    assert_eq!(run.phase, Phase::Finished);
    assert!(matches!(
        run.step(&ctx, Event::Model(answer("again", None, 1, 1))),
        Action::Fail(CompletionError::OutOfTurn)
    ));
}

#[test]
fn unserved_tagged_call_aborts_without_reply() {
    let ctx = context();
    let mut run = ctx.completion(request(&["RT_zzlookup"]));
    let first = answer("", Some(vec![call("c1", "RT_zzlookup", "{}")]), 2, 3);
    let out = returned(run.step(&ctx, Event::Model(first)));
    assert_eq!(out.failed_reason, Some("tool RT_zzlookup not found".to_string()));
    assert_eq!(out.usage, Usage { input_tokens: 2, output_tokens: 3 });
    assert_eq!(run.phase, Phase::Finished);
    let mut run = ctx.completion(request(&["RA_zzhelper"]));
    let first = answer("", Some(vec![call("c1", "RA_zzhelper", "{\"prompt\":\"p\"}")]), 2, 3);
    let out = returned(run.step(&ctx, Event::Model(first)));
    assert_eq!(out.failed_reason, Some("agent RA_zzhelper not found".to_string()));
}

#[test]
fn unknown_and_unoffered_calls_are_passed_over() {
    let ctx = context();
    let mut run = ctx.completion(request(&["hallucinated", "calc"]));
    let first = answer(
        "final",
        Some(vec![call("c1", "hallucinated", "{}"), call("c2", "weather", "{}")]),
        1,
        2,
    );
    let out = returned(run.step(&ctx, Event::Model(first)));
    assert_eq!(out.failed_reason, None);
    assert_eq!(out.content, "final");
    assert_eq!(
        out.tool_calls,
        Some(vec![call("c1", "hallucinated", "{}"), call("c2", "weather", "{}")])
    );
    assert_eq!(run.phase, Phase::Finished);
    assert_eq!(run.request.tools, vec![def("calc")]);
}

#[test]
fn unserved_call_is_never_answered_over_a_run() {
    let ctx = context();
    let mut run = ctx.completion(request(&["weather", "hallucinated", "calc"]));
    let first = answer(
        "",
        Some(vec![call("c1", "weather", "{}"), call("c2", "hallucinated", "{\"x\":1}")]),
        1,
        1,
    );
    assert!(matches!(run.step(&ctx, Event::Model(first)), Action::Tool(_)));
    assert!(matches!(run.step(&ctx, Event::Tool(Ok("sunny".to_string()))), Action::CallModel));
    assert_eq!(run.request.chat_history, vec![tool_entry("sunny", "c1")]);
    let second = answer(
        "",
        Some(vec![call("c3", "ghost", "{}"), call("c4", "calc", "1+1")]),
        1,
        1,
    );
    assert!(matches!(run.step(&ctx, Event::Model(second)), Action::Tool(_)));
    assert!(matches!(run.step(&ctx, Event::Tool(Ok("2".to_string()))), Action::CallModel));
    assert_eq!(run.request.chat_history, vec![tool_entry("2", "c4")]);
    let out = returned(run.step(&ctx, Event::Model(answer("done", None, 1, 1))));
    let mut c1 = call("c1", "weather", "{}");
    c1.result = Some("sunny".to_string());
    let mut c4 = call("c4", "calc", "1+1");
    c4.result = Some("2".to_string());
    assert_eq!(
        out.tool_calls,
        Some(vec![c1, call("c2", "hallucinated", "{\"x\":1}"), call("c3", "ghost", "{}"), c4])
    );
    assert_eq!(out.usage, Usage { input_tokens: 3, output_tokens: 3 });
}

#[test]
fn only_call_unserved_ends_the_run() {
    let ctx = context();
    let mut run = ctx.completion(request(&["ghost"]));
    let first = answer("so be it", Some(vec![call("c1", "ghost", "{}")]), 2, 2);
    let out = returned(run.step(&ctx, Event::Model(first)));
    assert_eq!(out.tool_calls, Some(vec![call("c1", "ghost", "{}")]));
    assert_eq!(out.failed_reason, None);
    assert_eq!(run.phase, Phase::Finished);
    let mut run = ctx.completion(request(&["LA_ghost"]));
    let first = answer("", Some(vec![call("c1", "LA_ghost", "{\"prompt\":\"p\"}")]), 2, 2);
    let out = returned(run.step(&ctx, Event::Model(first)));
    assert_eq!(out.tool_calls, Some(vec![call("c1", "LA_ghost", "{\"prompt\":\"p\"}")]));
    assert_eq!(out.failed_reason, Some("agent ghost not found".to_string()));
    assert_eq!(out.usage, Usage { input_tokens: 2, output_tokens: 2 });
    assert_eq!(run.phase, Phase::Finished);
}

#[test]
fn a_capability_is_dispatched_once_per_request() {
    let ctx = context();
    let mut run = ctx.completion(request(&["weather"]));
    let first = answer(
        "",
        Some(vec![call("c1", "weather", "{\"a\":1}"), call("c2", "weather", "{\"a\":2}")]),
        1,
        1,
    );
    assert!(matches!(run.step(&ctx, Event::Model(first)), Action::Tool(_)));
    assert!(matches!(run.step(&ctx, Event::Tool(Ok("sunny".to_string()))), Action::CallModel));
    assert_eq!(run.request.chat_history, vec![tool_entry("sunny", "c1")]);
    let second = answer("", Some(vec![call("c3", "weather", "{\"a\":3}")]), 1, 1);
    let out = returned(run.step(&ctx, Event::Model(second)));
    let calls = out.tool_calls.unwrap();
    assert_eq!(calls.len(), 3);
    assert_eq!(calls[0].result, Some("sunny".to_string()));
    assert_eq!(calls[1].result, None);
    assert_eq!(calls[2].result, None);
    assert_eq!(out.usage, Usage { input_tokens: 2, output_tokens: 2 });
}

#[test]
fn next_request_keeps_the_model_history_before_the_replies() {
    let ctx = context();
    let mut run = ctx.completion(request(&["weather"]));
    let mut first = answer("", Some(vec![call("c1", "weather", "{}")]), 1, 1);
    let raw = HistoryEntry::Raw(serde_json::Value::String("earlier".to_string()));
    first.full_history = Some(vec![HistoryEntry::Raw(serde_json::Value::String(
        "earlier".to_string(),
    ))]);
    assert!(matches!(run.step(&ctx, Event::Model(first)), Action::Tool(_)));
    assert!(matches!(run.step(&ctx, Event::Tool(Ok("rain".to_string()))), Action::CallModel));
    assert_eq!(run.request.chat_history, vec![raw, tool_entry("rain", "c1")]);
}

#[test]
fn events_out_of_turn_end_the_run() {
    let ctx = context();
    let mut run = ctx.completion(request(&["weather"]));
    assert!(matches!(
        run.step(&ctx, Event::Tool(Ok("sunny".to_string()))),
        Action::Fail(CompletionError::OutOfTurn)
    ));
    assert_eq!(run.phase, Phase::Finished);
    let mut run = ctx.completion(request(&["weather"]));
    let first = answer("", Some(vec![call("c1", "weather", "{}")]), 1, 1);
    assert!(matches!(run.step(&ctx, Event::Model(first)), Action::Tool(_)));
    assert!(matches!(
        run.step(&ctx, Event::Agent(Err("x".to_string()))),
        Action::Fail(CompletionError::OutOfTurn)
    ));
}

#[test]
fn usage_accumulates_and_saturates() {
    let mut total = Usage::new();
    assert_eq!(total, Usage { input_tokens: 0, output_tokens: 0 });
    assert_eq!(Usage::default(), total);
    total.accumulate(&Usage { input_tokens: 3, output_tokens: 4 });
    total.accumulate(&Usage { input_tokens: 10, output_tokens: 20 });
    assert_eq!(total, Usage { input_tokens: 13, output_tokens: 24 });
    total.accumulate(&Usage { input_tokens: u64::MAX, output_tokens: 1 });
    assert_eq!(total, Usage { input_tokens: u64::MAX, output_tokens: 25 });
    total.accumulate(&Usage { input_tokens: 1, output_tokens: u64::MAX - 25 });
    assert_eq!(total, Usage { input_tokens: u64::MAX, output_tokens: u64::MAX });
}

#[test]
fn offer_helpers() {
    let mut tools = vec![def("a"), def("b"), def("a"), def("c")];
    assert!(offers(&tools, "a"));
    assert!(!offers(&tools, "z"));
    withdraw_offer(&mut tools, "a");
    assert_eq!(tools, vec![def("b"), def("c")]);
    withdraw_offer(&mut tools, "z");
    assert_eq!(tools, vec![def("b"), def("c")]);
    let blank = empty_output();
    assert_eq!(blank, answer("", None, 0, 0));
    let m = Message::tool_result("sunny", "c1");
    assert_eq!(HistoryEntry::Message(m), tool_entry("sunny", "c1"));
}
