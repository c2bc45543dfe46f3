//! The Model Context Protocol plumbing: server configurations, how the
//! built-in server routes a JSON-RPC request, and how a client reads a tool
//! call's reply.
use vstd::prelude::*;

use crate::text::{owned, str_eq};
use crate::tools::{find_spec, ToolEntry, ToolRegistry};

verus! {

/// How to start an MCP server.
#[derive(Debug)]
pub struct McpServerConfig {
    pub name: String,
    pub command: String,
    pub args: Vec<String>,
    /// Extra environment variables.
    pub env: std::collections::HashMap<String, String>,
}

/// JSON-RPC error code: the request is not JSON.
pub const PARSE_ERROR: i32 = -32700;

/// JSON-RPC error code: no such method.
pub const METHOD_NOT_FOUND: i32 = -32601;

/// JSON-RPC error code: bad parameters (here: no such tool).
pub const INVALID_PARAMS: i32 = -32602;

/// What the server does with a request, by its method.
#[derive(Debug, Clone, Copy, PartialEq, Eq, Structural)]
pub enum McpRoute {
    Initialize,
    ToolsList,
    ToolsCall,
    Unknown,
}

/// The route for a method name (an absent method counts as the empty name).
pub open spec fn route_spec(method: Seq<char>) -> McpRoute {
    if method == "initialize"@ {
        McpRoute::Initialize
    } else if method == "tools/list"@ {
        McpRoute::ToolsList
    } else if method == "tools/call"@ {
        McpRoute::ToolsCall
    } else {
        McpRoute::Unknown
    }
}

/// Routes a request by its method name.
pub fn route(method: &str) -> (r: McpRoute)
    ensures
        r == route_spec(method@),
{
    if str_eq(method, "initialize") {
        McpRoute::Initialize
    } else if str_eq(method, "tools/list") {
        McpRoute::ToolsList
    } else if str_eq(method, "tools/call") {
        McpRoute::ToolsCall
    } else {
        McpRoute::Unknown
    }
}

/// A JSON-RPC error: its code and message.
#[derive(Debug)]
pub struct RpcError {
    pub code: i32,
    pub message: String,
}

/// The error for a request that is not JSON.
pub fn parse_error(detail: &str) -> (r: RpcError)
    ensures
        r.code == PARSE_ERROR,
        r.message@ == "JSON 解析错误: "@ + detail@,
{
    let mut m = owned("JSON 解析错误: ");
    m.append(detail);
    RpcError { code: PARSE_ERROR, message: m }
}

/// The error for an unknown method.
pub fn unknown_method(method: &str) -> (r: RpcError)
    ensures
        r.code == METHOD_NOT_FOUND,
        r.message@ == "未知方法: "@ + method@,
{
    let mut m = owned("未知方法: ");
    m.append(method);
    RpcError { code: METHOD_NOT_FOUND, message: m }
}

/// The tool a `tools/call` request names (an absent name counts as the
/// empty name): the first registered tool of that name, or an error naming
/// it.
pub fn tool_for_call(registry: &ToolRegistry, name: &str) -> (r: Result<ToolEntry, RpcError>)
    ensures
        r is Ok <==> find_spec(registry@, name@) is Some,
        r matches Ok(k) ==> find_spec(registry@, name@) == Some(k),
        r matches Err(e) ==> e.code == INVALID_PARAMS && e.message@ == "未知工具: "@ + name@,
{
    match registry.find(name) {
        Some(k) => Ok(k),
        None => {
            let mut m = owned("未知工具: ");
            m.append(name);
            Err(RpcError { code: INVALID_PARAMS, message: m })
        },
    }
}

/// What a client found in the reply line to a `tools/call` request.
#[derive(Debug)]
pub enum CallReply {
    /// No line, or a line that is not JSON.
    Nothing,
    /// An `error` member, as JSON text.
    Error(String),
    /// `result.content[0].text`, a string.
    FirstText(String),
    /// `result.content` without such a text, as pretty JSON.
    Content(String),
    /// `result` without `content`, as pretty JSON.
    Result(String),
    /// JSON with neither `error` nor `result`.
    Empty,
}

/// A reply as (kind, text): 0 nothing, 1 error, 2 first text, 3 content,
/// 4 result, 5 empty.
pub open spec fn reply_view(reply: CallReply) -> (int, Seq<char>) {
    match reply {
        CallReply::Nothing => (0, Seq::empty()),
        CallReply::Error(e) => (1, e@),
        CallReply::FirstText(t) => (2, t@),
        CallReply::Content(c) => (3, c@),
        CallReply::Result(r) => (4, r@),
        CallReply::Empty => (5, Seq::empty()),
    }
}

/// The outcome of a tool call from its reply: the error member becomes an
/// error, the first text item (else the content, else the result) is the
/// output, and anything else means no reply.
pub open spec fn call_outcome_spec(reply: (int, Seq<char>)) -> Result<Seq<char>, Seq<char>> {
    if reply.0 == 1 {
        Err("MCP 错误: "@ + reply.1)
    } else if reply.0 == 2 || reply.0 == 3 || reply.0 == 4 {
        Ok(reply.1)
    } else {
        Err("MCP 调用无响应"@)
    }
}

/// A text result as a result of character sequences.
pub open spec fn result_view(r: Result<String, String>) -> Result<Seq<char>, Seq<char>> {
    match r {
        Ok(s) => Ok(s@),
        Err(e) => Err(e@),
    }
}

/// Reads the outcome of a tool call from what its reply held.
pub fn call_outcome(reply: CallReply) -> (r: Result<String, String>)
    ensures
        result_view(r) == call_outcome_spec(reply_view(reply)),
{
    match reply {
        CallReply::Error(e) => {
            let mut m = owned("MCP 错误: ");
            m.append(e.as_str());
            Err(m)
        },
        CallReply::FirstText(t) => Ok(t),
        CallReply::Content(c) => Ok(c),
        CallReply::Result(r) => Ok(r),
        _ => Err(owned("MCP 调用无响应")),
    }
}

/// The parts of a `tools/call` reply line the client reads, as texts.
pub struct CallReplyFields {
    /// The `error` member, as JSON text.
    pub error: Option<String>,
    /// The `result` member, as pretty JSON.
    pub result: Option<String>,
    /// `result.content`, as pretty JSON.
    pub content: Option<String>,
    /// `result.content[0].text`, where it is a string.
    pub first_text: Option<String>,
}

/// The parts of a reply as (error, result, content, first text).
pub open spec fn fields_view(f: Option<CallReplyFields>) -> Option<
    (Option<Seq<char>>, Option<Seq<char>>, Option<Seq<char>>, Option<Seq<char>>),
> {
    match f {
        Some(f) => Some(
            (
                crate::web::opt_view(f.error),
                crate::web::opt_view(f.result),
                crate::web::opt_view(f.content),
                crate::web::opt_view(f.first_text),
            ),
        ),
        None => None,
    }
}

/// What a reply line holds, read as JSON by `serde_json` (a function of the
/// line alone): `None` when it is not JSON; else its `error` member as JSON
/// text, its `result` member and `result.content` as pretty JSON, and
/// `result.content[0].text` where that is a string.
pub uninterp spec fn call_reply_fields(line: Seq<char>) -> Option<
    (Option<Seq<char>>, Option<Seq<char>>, Option<Seq<char>>, Option<Seq<char>>),
>;

/// `serde_json::from_str::<serde_json::Value>` on a reply line, with the
/// members the client reads picked out (`Value::get`, `as_array`, `as_str`)
/// and printed (`Display`, `to_string_pretty`); what comes back is named.
#[verifier::external_body]
pub(crate) fn read_call_reply(line: &str) -> (r: Option<CallReplyFields>)
    ensures
        fields_view(r) == call_reply_fields(line@),
{
    let v: serde_json::Value = serde_json::from_str(line).ok()?;
    let result = v.get("result");
    let content = result.and_then(|r| r.get("content"));
    let pretty = |x: &serde_json::Value| serde_json::to_string_pretty(x).unwrap_or_default();
    Some(CallReplyFields {
        error: v.get("error").map(|e| e.to_string()),
        result: result.map(pretty),
        content: content.map(pretty),
        first_text: content.and_then(|c| c.as_array()).and_then(|a| a.first()).and_then(|c| c.get("text")).and_then(
            |t| t.as_str(),
        ).map(|t| t.to_string()),
    })
}

/// Which part of a reply wins: the error, then the first text item, then
/// the content, then the result; a reply that is not JSON is nothing, one
/// with neither error nor result is empty.
pub open spec fn call_reply_spec(
    f: Option<(Option<Seq<char>>, Option<Seq<char>>, Option<Seq<char>>, Option<Seq<char>>)>,
) -> (int, Seq<char>) {
    match f {
        None => (0, Seq::empty()),
        Some((error, result, content, first_text)) => match (error, result) {
            (Some(e), _) => (1, e),
            (None, None) => (5, Seq::empty()),
            (None, Some(r)) => match (content, first_text) {
                (Some(_), Some(t)) => (2, t),
                (Some(c), None) => (3, c),
                (None, _) => (4, r),
            },
        },
    }
}

/// Decides what a reply held from its parts.
pub fn call_reply(f: Option<CallReplyFields>) -> (r: CallReply)
    ensures
        reply_view(r) == call_reply_spec(fields_view(f)),
{
    match f {
        None => CallReply::Nothing,
        Some(f) => match (f.error, f.result) {
            (Some(e), _) => CallReply::Error(e),
            (None, None) => CallReply::Empty,
            (None, Some(r)) => match (f.content, f.first_text) {
                (Some(_), Some(t)) => CallReply::FirstText(t),
                (Some(c), None) => CallReply::Content(c),
                (None, _) => CallReply::Result(r),
            },
        },
    }
}

/// The outcome of a tool call from the reply line read (`None` when no line
/// could be read).
pub fn call_tool_outcome(line: Option<&str>) -> (r: Result<String, String>)
    ensures
        result_view(r) == call_outcome_spec(
            match line {
                None => (0, Seq::<char>::empty()),
                Some(l) => call_reply_spec(call_reply_fields(l@)),
            },
        ),
{
    let reply = match line {
        None => CallReply::Nothing,
        Some(l) => call_reply(read_call_reply(l)),
    };
    call_outcome(reply)
}

/// A request the server received, as the fields it reads.
pub struct McpRequest {
    /// The `id` member, if any (echoed in the reply).
    pub id: Option<serde_json::Value>,
    /// The `method` member where it is a string, else empty.
    pub method: String,
    /// `params.name` where it is a string, else empty.
    pub tool_name: String,
    /// `params.arguments`, else JSON `null`.
    pub arguments: serde_json::Value,
}

/// A request read, or the parser's error text.
pub open spec fn request_view(r: Result<McpRequest, String>) -> Result<
    (Option<serde_json::Value>, Seq<char>, Seq<char>, serde_json::Value),
    Seq<char>,
> {
    match r {
        Ok(q) => Ok((q.id, q.method@, q.tool_name@, q.arguments)),
        Err(e) => Err(e@),
    }
}

/// What a request line holds, read as JSON by `serde_json` (a function of
/// the line alone): its `id`, `method` (a string, else empty), `params.name`
/// (a string, else empty) and `params.arguments` (else `null`); or the
/// parser's error text when the line is not JSON.
pub uninterp spec fn request_fields(line: Seq<char>) -> Result<
    (Option<serde_json::Value>, Seq<char>, Seq<char>, serde_json::Value),
    Seq<char>,
>;

/// `serde_json::from_str::<serde_json::Value>` on a request line, with the
/// members the server reads picked out (`Value::get`, `as_str`); the parse
/// error's display text when it fails. What comes back is named.
#[verifier::external_body]
pub(crate) fn read_request(line: &str) -> (r: Result<McpRequest, String>)
    ensures
        request_view(r) == request_fields(line@),
{
    let v: serde_json::Value = serde_json::from_str(line).map_err(|e| e.to_string())?;
    let params = v.get("params");
    let text = |x: Option<&serde_json::Value>| x.and_then(|t| t.as_str()).unwrap_or("").to_string();
    Ok(McpRequest {
        id: v.get("id").cloned(),
        method: text(v.get("method")),
        tool_name: text(params.and_then(|p| p.get("name"))),
        arguments: params.and_then(|p| p.get("arguments")).cloned().unwrap_or(serde_json::Value::Null),
    })
}

/// What the server does with a request.
pub enum McpAction {
    /// Reply to `initialize`.
    Initialize { id: Option<serde_json::Value> },
    /// Reply with the tool list.
    ListTools { id: Option<serde_json::Value> },
    /// Run a registered tool on the arguments and reply with its result.
    CallTool { id: Option<serde_json::Value>, entry: ToolEntry, arguments: serde_json::Value },
    /// Reply with an error.
    Fail { id: Option<serde_json::Value>, error: RpcError },
}

/// An action as (kind, id, tool, arguments, error code, error message): kind
/// 0 initialize, 1 list, 2 call, 3 error.
pub open spec fn action_view(a: McpAction) -> (
    int,
    Option<serde_json::Value>,
    Option<ToolEntry>,
    Option<serde_json::Value>,
    i32,
    Seq<char>,
) {
    match a {
        McpAction::Initialize { id } => (0, id, None, None, 0, Seq::empty()),
        McpAction::ListTools { id } => (1, id, None, None, 0, Seq::empty()),
        McpAction::CallTool { id, entry, arguments } => (2, id, Some(entry), Some(arguments), 0, Seq::empty()),
        McpAction::Fail { id, error } => (3, id, None, None, error.code, error.message@),
    }
}

/// The action for a request: a line that is not JSON is a parse error
/// (without id); `initialize` and `tools/list` are answered; `tools/call`
/// runs the first registered tool of the given name, or is refused when there
/// is none; any other method is refused.
pub open spec fn action_spec(
    req: Result<(Option<serde_json::Value>, Seq<char>, Seq<char>, serde_json::Value), Seq<char>>,
    registry: (Seq<ToolEntry>, Seq<Seq<char>>),
) -> (int, Option<serde_json::Value>, Option<ToolEntry>, Option<serde_json::Value>, i32, Seq<char>) {
    match req {
        Err(e) => (3, None, None, None, PARSE_ERROR, "JSON 解析错误: "@ + e),
        Ok((id, method, name, arguments)) => {
            let route = route_spec(method);
            if route == McpRoute::Initialize {
                (0, id, None, None, 0, Seq::empty())
            } else if route == McpRoute::ToolsList {
                (1, id, None, None, 0, Seq::empty())
            } else if route == McpRoute::ToolsCall {
                match find_spec(registry, name) {
                    Some(entry) => (2, id, Some(entry), Some(arguments), 0, Seq::empty()),
                    None => (3, id, None, None, INVALID_PARAMS, "未知工具: "@ + name),
                }
            } else {
                (3, id, None, None, METHOD_NOT_FOUND, "未知方法: "@ + method)
            }
        },
    }
}

/// Decides what to do with a request that was read.
pub fn request_action(req: Result<McpRequest, String>, registry: &ToolRegistry) -> (a: McpAction)
    ensures
        action_view(a) == action_spec(request_view(req), registry@),
{
    match req {
        Err(e) => McpAction::Fail { id: None, error: parse_error(e.as_str()) },
        Ok(q) => {
            let McpRequest { id, method, tool_name, arguments } = q;
            match route(method.as_str()) {
                McpRoute::Initialize => McpAction::Initialize { id },
                McpRoute::ToolsList => McpAction::ListTools { id },
                McpRoute::ToolsCall => match tool_for_call(registry, tool_name.as_str()) {
                    Ok(entry) => McpAction::CallTool { id, entry, arguments },
                    Err(error) => McpAction::Fail { id, error },
                },
                McpRoute::Unknown => McpAction::Fail { id, error: unknown_method(method.as_str()) },
            }
        },
    }
}

/// Decides what to do with a request line.
pub fn handle_request_line(line: &str, registry: &ToolRegistry) -> (a: McpAction)
    ensures
        action_view(a) == action_spec(request_fields(line@), registry@),
{
    request_action(read_request(line), registry)
}

} // verus!
