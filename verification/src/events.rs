//! Events the agent streams to the user interface while a turn runs.
use vstd::prelude::*;

use crate::deepseek::{emit_view, ChatResult, StreamEmit};
use crate::text::owned;
use crate::tool_parser::ParsedToolCall;
use crate::tools::ToolResult;

verus! {

/// Event carrying a piece of the reply.
pub const EVENT_TOKEN: &'static str = "agent:token";

/// Event carrying a piece of the model's reasoning.
pub const EVENT_REASONING: &'static str = "agent:reasoning";

/// Event announcing a tool call.
pub const EVENT_TOOL_CALL: &'static str = "agent:tool_call";

/// Event carrying a tool's result.
pub const EVENT_TOOL_RESULT: &'static str = "agent:tool_result";

/// Event closing a turn.
pub const EVENT_DONE: &'static str = "agent:done";

/// Event reporting a failed turn.
pub const EVENT_ERROR: &'static str = "agent:error";

/// A piece of the reply.
#[derive(Debug)]
pub struct TokenPayload {
    pub token: String,
}

/// A piece of the reasoning.
#[derive(Debug)]
pub struct ReasoningPayload {
    pub reasoning: String,
}

/// A tool call the model made.
#[derive(Debug)]
pub struct ToolCallPayload {
    pub name: String,
    pub args: serde_json::Value,
    pub id: String,
}

impl ToolCallPayload {
    /// The event announcing a parsed tool call under the given id.
    pub fn of(call: ParsedToolCall, id: String) -> (r: ToolCallPayload)
        ensures
            r.name@ == call.name@,
            r.args == call.args,
            r.id@ == id@,
    {
        ToolCallPayload { name: call.name, args: call.args, id }
    }
}

/// A tool's result.
#[derive(Debug)]
pub struct ToolResultPayload {
    pub id: String,
    pub name: String,
    pub result: String,
}

impl ToolResultPayload {
    /// The event carrying a tool's result for the call with the given id.
    pub fn of(id: String, result: &ToolResult) -> (r: ToolResultPayload)
        ensures
            r.id@ == id@,
            r.name@ == result.tool_name@,
            r.result@ == result.output@,
    {
        ToolResultPayload { id, name: result.tool_name.clone(), result: result.output.clone() }
    }
}

/// The end of a turn: the whole reply and the token counts.
#[derive(Debug)]
pub struct DonePayload {
    pub content: String,
    pub input_tokens: u32,
    pub output_tokens: u32,
}

/// A failed turn.
#[derive(Debug)]
pub struct ErrorPayload {
    pub error: String,
}

/// One event of the stream to the interface.
#[derive(Debug)]
pub enum StreamEvent {
    Token(TokenPayload),
    Reasoning(ReasoningPayload),
}

/// A streamed event as (is reasoning, text).
pub open spec fn stream_event_view(e: StreamEvent) -> (bool, Seq<char>) {
    match e {
        StreamEvent::Token(p) => (false, p.token@),
        StreamEvent::Reasoning(p) => (true, p.reasoning@),
    }
}

impl StreamEvent {
    /// The event that passes on a piece of the streamed reply.
    pub fn from_emit(e: StreamEmit) -> (r: StreamEvent)
        ensures
            stream_event_view(r) == emit_view(e),
    {
        match e {
            StreamEmit::Token(t) => StreamEvent::Token(TokenPayload { token: t }),
            StreamEmit::Reasoning(t) => StreamEvent::Reasoning(ReasoningPayload { reasoning: t }),
        }
    }

    /// The event's name.
    pub fn name(&self) -> (r: &'static str)
        ensures
            r@ == (match self {
                StreamEvent::Token(_) => EVENT_TOKEN@,
                StreamEvent::Reasoning(_) => EVENT_REASONING@,
            }),
    {
        match self {
            StreamEvent::Token(_) => EVENT_TOKEN,
            StreamEvent::Reasoning(_) => EVENT_REASONING,
        }
    }
}

impl DonePayload {
    /// The closing event of a turn with the given result.
    pub fn of(result: &ChatResult) -> (r: DonePayload)
        ensures
            r.content@ == result.content@,
            r.input_tokens == result.input_tokens,
            r.output_tokens == result.output_tokens,
    {
        DonePayload {
            content: result.content.clone(),
            input_tokens: result.input_tokens,
            output_tokens: result.output_tokens,
        }
    }
}

impl ErrorPayload {
    /// The event reporting a failure.
    pub fn of(error: &str) -> (r: ErrorPayload)
        ensures
            r.error@ == error@,
    {
        ErrorPayload { error: owned(error) }
    }
}

} // verus!
