//! The data the runtime works on: usage totals, function definitions, tool
//! calls, chat messages, completion requests and agent outputs, each with
//! its mathematical view.

use vstd::prelude::*;

verus! {

/// The views of the elements of a sequence, in order.
pub open spec fn views<T: View>(s: Seq<T>) -> Seq<T::V> {
    s.map_values(|x: T| x@)
}

/// The characters of an optional string.
pub open spec fn opt_text(o: Option<String>) -> Option<Seq<char>> {
    match o {
        Some(s) => Some(s@),
        None => None,
    }
}

/// The sum of two counters, held at the largest representable value.
pub open spec fn saturating_sum(a: u64, b: u64) -> u64 {
    if a + b > u64::MAX {
        u64::MAX
    } else {
        (a + b) as u64
    }
}

/// Token usage of one or more model invocations.
#[derive(Clone, Copy, Debug, PartialEq, Eq)]
pub struct Usage {
    pub input_tokens: u64,
    pub output_tokens: u64,
}

impl Usage {
    /// The usage of nothing: both counters zero.
    pub open spec fn zero() -> Usage {
        Usage { input_tokens: 0, output_tokens: 0 }
    }

    /// The counter-wise saturating sum of two usages.
    pub open spec fn plus(self, other: Usage) -> Usage {
        Usage {
            input_tokens: saturating_sum(self.input_tokens, other.input_tokens),
            output_tokens: saturating_sum(self.output_tokens, other.output_tokens),
        }
    }

    /// Whether no counter of `self` exceeds that of `other`.
    pub open spec fn at_most(self, other: Usage) -> bool {
        self.input_tokens <= other.input_tokens && self.output_tokens <= other.output_tokens
    }

    /// A usage with both counters zero.
    pub fn new() -> (r: Usage)
        ensures
            r == Usage::zero(),
    {
        Usage { input_tokens: 0, output_tokens: 0 }
    }

    /// Adds `other` to the running total, counter by counter, saturating.
    pub fn accumulate(&mut self, other: &Usage)
        ensures
            *final(self) == old(self).plus(*other),
    {
        self.input_tokens = self.input_tokens.saturating_add(other.input_tokens);
        self.output_tokens = self.output_tokens.saturating_add(other.output_tokens);
    }
}

impl Default for Usage {
    fn default() -> (r: Usage)
        ensures
            r == Usage::zero(),
    {
        Usage::new()
    }
}

/// What a function definition is, as mathematics.
pub struct FunctionDefinitionView {
    pub name: Seq<char>,
    pub description: Seq<char>,
    pub parameters: serde_json::Value,
    pub strict: Option<bool>,
}

/// A callable function as advertised to the model: its name, what it does
/// and the schema of its parameters.
#[derive(Debug, PartialEq)]
pub struct FunctionDefinition {
    pub name: String,
    pub description: String,
    pub parameters: serde_json::Value,
    pub strict: Option<bool>,
}

impl View for FunctionDefinition {
    type V = FunctionDefinitionView;

    open spec fn view(&self) -> FunctionDefinitionView {
        FunctionDefinitionView {
            name: self.name@,
            description: self.description@,
            parameters: self.parameters,
            strict: self.strict,
        }
    }
}

impl FunctionDefinitionView {
    /// The same definition under the name `prefix` followed by its own.
    pub open spec fn with_prefix(self, prefix: Seq<char>) -> FunctionDefinitionView {
        FunctionDefinitionView {
            name: prefix + self.name,
            description: self.description,
            parameters: self.parameters,
            strict: self.strict,
        }
    }
}

impl Clone for FunctionDefinition {
    fn clone(&self) -> (r: Self)
        ensures
            r@ == self@,
    {
        FunctionDefinition {
            name: self.name.clone(),
            description: self.description.clone(),
            parameters: self.parameters.clone(),
            strict: self.strict,
        }
    }
}

impl FunctionDefinition {
    /// Puts `prefix` in front of the definition's name.
    pub fn name_with_prefix(self, prefix: &str) -> (r: Self)
        ensures
            r@ == self@.with_prefix(prefix@),
    {
        let name = crate::text::join(prefix, self.name.as_str());
        FunctionDefinition {
            name,
            description: self.description,
            parameters: self.parameters,
            strict: self.strict,
        }
    }
}

/// What a tool call is, as mathematics.
pub struct ToolCallView {
    pub id: Seq<char>,
    pub name: Seq<char>,
    pub args: Seq<char>,
    pub result: Option<Seq<char>>,
}

/// A call the model asks for: which function, with which argument payload,
/// and, once executed, what it returned.
#[derive(Debug, PartialEq, Eq)]
pub struct ToolCall {
    pub id: String,
    pub name: String,
    pub args: String,
    pub result: Option<String>,
}

impl View for ToolCall {
    type V = ToolCallView;

    open spec fn view(&self) -> ToolCallView {
        ToolCallView {
            id: self.id@,
            name: self.name@,
            args: self.args@,
            result: opt_text(self.result),
        }
    }
}

impl ToolCallView {
    /// The same call with `result` recorded on it.
    pub open spec fn resolved(self, result: Seq<char>) -> ToolCallView {
        ToolCallView { id: self.id, name: self.name, args: self.args, result: Some(result) }
    }
}

impl Clone for ToolCall {
    fn clone(&self) -> (r: Self)
        ensures
            r@ == self@,
    {
        let result = match &self.result {
            Some(s) => Some(s.clone()),
            None => None,
        };
        ToolCall { id: self.id.clone(), name: self.name.clone(), args: self.args.clone(), result }
    }
}

/// What a chat message is, as mathematics.
pub struct MessageView {
    pub role: Seq<char>,
    pub content: Seq<char>,
    pub name: Option<Seq<char>>,
    pub tool_call_id: Option<Seq<char>>,
}

/// A role-tagged message of the conversation.
#[derive(Debug, PartialEq, Eq)]
pub struct Message {
    pub role: String,
    pub content: String,
    pub name: Option<String>,
    pub tool_call_id: Option<String>,
}

impl View for Message {
    type V = MessageView;

    open spec fn view(&self) -> MessageView {
        MessageView {
            role: self.role@,
            content: self.content@,
            name: opt_text(self.name),
            tool_call_id: opt_text(self.tool_call_id),
        }
    }
}

/// The message that reports the result of the call with identifier `id`.
pub open spec fn tool_message(content: Seq<char>, id: Seq<char>) -> MessageView {
    MessageView { role: "tool"@, content, name: None, tool_call_id: Some(id) }
}

impl Message {
    /// A message of role `"tool"` that carries a call's result back to the
    /// model, correlated by the call's identifier.
    pub fn tool_result(content: &str, id: &str) -> (r: Message)
        ensures
            r@ == tool_message(content@, id@),
    {
        Message {
            role: String::from_str("tool"),
            content: String::from_str(content),
            name: None,
            tool_call_id: Some(String::from_str(id)),
        }
    }
}

/// What an entry of the chat history is, as mathematics.
pub enum HistoryEntryView {
    Raw(serde_json::Value),
    Message(MessageView),
}

/// One entry of the chat history: either a value a model handed back, kept
/// as it came, or a message this runtime wrote.
#[derive(Debug, PartialEq)]
pub enum HistoryEntry {
    Raw(serde_json::Value),
    Message(Message),
}

impl View for HistoryEntry {
    type V = HistoryEntryView;

    open spec fn view(&self) -> HistoryEntryView {
        match self {
            HistoryEntry::Raw(v) => HistoryEntryView::Raw(*v),
            HistoryEntry::Message(m) => HistoryEntryView::Message(m@),
        }
    }
}

/// A knowledge document attached to a request.
#[derive(Debug, PartialEq, Eq)]
pub struct Document {
    pub id: String,
    pub text: String,
    pub additional_props: Vec<(String, String)>,
}

/// What a completion request is, as mathematics. Documents are carried as
/// they are: the runtime only ever drops them.
pub struct CompletionRequestView {
    pub system: Option<Seq<char>>,
    pub chat_history: Seq<HistoryEntryView>,
    pub documents: Seq<Document>,
    pub prompt: Seq<char>,
    pub tools: Seq<FunctionDefinitionView>,
}

/// A request to the model: system prompt, conversation so far, documents,
/// the user's prompt and the definitions currently on offer.
#[derive(Debug, PartialEq)]
pub struct CompletionRequest {
    pub system: Option<String>,
    pub chat_history: Vec<HistoryEntry>,
    pub documents: Vec<Document>,
    pub prompt: String,
    pub tools: Vec<FunctionDefinition>,
}

impl View for CompletionRequest {
    type V = CompletionRequestView;

    open spec fn view(&self) -> CompletionRequestView {
        CompletionRequestView {
            system: opt_text(self.system),
            chat_history: views(self.chat_history@),
            documents: self.documents@,
            prompt: self.prompt@,
            tools: views(self.tools@),
        }
    }
}

/// What an agent output is, as mathematics.
pub struct AgentOutputView {
    pub content: Seq<char>,
    pub failed_reason: Option<Seq<char>>,
    pub tool_calls: Option<Seq<ToolCallView>>,
    pub full_history: Option<Seq<HistoryEntryView>>,
    pub usage: Usage,
}

/// What a model invocation or an agent run hands back.
#[derive(Debug, PartialEq)]
pub struct AgentOutput {
    pub content: String,
    pub failed_reason: Option<String>,
    pub tool_calls: Option<Vec<ToolCall>>,
    pub full_history: Option<Vec<HistoryEntry>>,
    pub usage: Usage,
}

impl View for AgentOutput {
    type V = AgentOutputView;

    open spec fn view(&self) -> AgentOutputView {
        AgentOutputView {
            content: self.content@,
            failed_reason: opt_text(self.failed_reason),
            tool_calls: match self.tool_calls {
                Some(calls) => Some(views(calls@)),
                None => None,
            },
            full_history: match self.full_history {
                Some(h) => Some(views(h@)),
                None => None,
            },
            usage: self.usage,
        }
    }
}

} // verus!
