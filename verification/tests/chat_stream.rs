use agent_pc::deepseek::{
    api_error_message, api_url, bearer, check_api_key, reply_result, ChatMessage, Role, SseBuffer, SseLine,
    StreamAccumulator, StreamChoice, StreamChunk, StreamEmit, Usage,
};
use agent_pc::events::{
    DonePayload, ErrorPayload, StreamEvent, ToolCallPayload, ToolResultPayload, EVENT_DONE, EVENT_REASONING, EVENT_TOKEN,
};
use agent_pc::tool_parser::parse_tool_calls;

#[test]
fn api_key_is_required() {
    assert_eq!(check_api_key(""), Err("请在设置中配置 API Key".to_string()));
    assert_eq!(check_api_key("sk-1"), Ok(()));
    assert_eq!(bearer("sk-1"), "Bearer sk-1");
    assert_eq!(api_url(), "https://api.deepseek.com/v1/chat/completions");
}

#[test]
fn api_error_text() {
    assert_eq!(api_error_message(401, "bad key"), "API 错误 (401): bad key");
}

#[test]
fn non_streamed_reply() {
    let r = reply_result(Some("hi".to_string()), Some(Usage { prompt_tokens: 3, completion_tokens: 4 }));
    assert_eq!((r.content.as_str(), r.input_tokens, r.output_tokens), ("hi", 3, 4));
    let r = reply_result(None, None);
    assert_eq!((r.content.as_str(), r.input_tokens, r.output_tokens), ("", 0, 0));
}

fn data(l: Option<SseLine>) -> Option<String> {
    match l {
        Some(SseLine::Data(d)) => Some(d),
        _ => None,
    }
}

#[test]
fn event_stream_lines() {
    let mut b = SseBuffer::new();
    b.push_text("data: {\"a\":1}\n\n: ping\ndata: [DONE]\nda");
    assert_eq!(data(b.next_line()).as_deref(), Some("{\"a\":1}"));
    assert!(matches!(b.next_line(), Some(SseLine::Skip)));
    assert!(matches!(b.next_line(), Some(SseLine::Skip)));
    assert!(matches!(b.next_line(), Some(SseLine::Done)));
    assert!(b.next_line().is_none());
    b.push_bytes(b"ta:  x  \r\n");
    // the line is trimmed, the payload after the prefix is not
    assert_eq!(data(b.next_line()).as_deref(), Some(" x"));
    assert!(b.next_line().is_none());
}

#[test]
fn event_stream_bytes_are_decoded_lossily() {
    let mut b = SseBuffer::new();
    b.push_bytes(&[b'd', b'a', b't', b'a', b':', b' ', 0xff, b'\n']);
    assert_eq!(data(b.next_line()).as_deref(), Some("\u{fffd}"));
}

#[test]
fn event_stream_joins_a_character_cut_between_chunks() {
    let mut b = SseBuffer::new();
    b.push_bytes(b"data: \xe4\xb8");
    assert!(b.next_line().is_none());
    b.push_bytes(b"\xad\n");
    assert_eq!(data(b.next_line()).as_deref(), Some("\u{4e2d}"));
    // a cut character followed by a byte that cannot continue it is replaced
    b.push_bytes(b"data: \xe4\xb8");
    b.push_bytes(b"x\n");
    assert_eq!(data(b.next_line()).as_deref(), Some("\u{fffd}x"));
}

#[test]
fn event_stream_lines_do_not_depend_on_chunking() {
    let stream = "data: 你好，世界\n\ndata: é\u{1F600}x\ndata: [DONE]\n".as_bytes();
    let lines_of = |cuts: &[usize]| {
        let mut b = SseBuffer::new();
        let mut start = 0;
        let mut out = Vec::new();
        for &end in cuts.iter().chain(std::iter::once(&stream.len())) {
            b.push_bytes(&stream[start..end]);
            start = end;
            while let Some(l) = b.next_line() {
                out.push(match l {
                    SseLine::Data(d) => format!("data {}", d),
                    SseLine::Done => "done".to_string(),
                    SseLine::Skip => "skip".to_string(),
                });
            }
        }
        out
    };
    let whole = lines_of(&[]);
    assert_eq!(whole, vec!["data 你好，世界", "skip", "data é\u{1F600}x", "done"]);
    for cut in 1..stream.len() {
        assert_eq!(lines_of(&[cut]), whole);
    }
    for cut in 1..stream.len() - 1 {
        assert_eq!(lines_of(&[cut, cut + 1]), whole);
    }
}

fn choice(content: Option<&str>, reasoning: Option<&str>) -> StreamChoice {
    StreamChoice {
        content: content.map(|s| s.to_string()),
        reasoning_content: reasoning.map(|s| s.to_string()),
        finish_reason: None,
    }
}

fn view(e: &StreamEmit) -> (bool, String) {
    match e {
        StreamEmit::Token(t) => (false, t.clone()),
        StreamEmit::Reasoning(t) => (true, t.clone()),
    }
}

#[test]
fn streamed_reply_is_the_tokens_in_order() {
    let mut acc = StreamAccumulator::new();
    let c1 = StreamChunk { choices: vec![choice(Some("Hel"), Some("想"))], usage: None };
    let e1: Vec<(bool, String)> = acc.apply(&c1).iter().map(view).collect();
    assert_eq!(e1, vec![(false, "Hel".to_string()), (true, "想".to_string())]);
    let c2 = StreamChunk { choices: vec![choice(Some(""), None), choice(Some("lo"), Some(""))], usage: None };
    let e2: Vec<(bool, String)> = acc.apply(&c2).iter().map(view).collect();
    assert_eq!(e2, vec![(false, "lo".to_string())]);
    let c3 = StreamChunk { choices: vec![], usage: Some(Usage { prompt_tokens: 10, completion_tokens: 2 }) };
    assert!(acc.apply(&c3).is_empty());
    let r = acc.finish();
    assert_eq!((r.content.as_str(), r.input_tokens, r.output_tokens), ("Hello", 10, 2));
}

#[test]
fn stream_events() {
    let t = StreamEvent::from_emit(StreamEmit::Token("a".to_string()));
    assert_eq!(t.name(), EVENT_TOKEN);
    assert_eq!(EVENT_TOKEN, "agent:token");
    let r = StreamEvent::from_emit(StreamEmit::Reasoning("b".to_string()));
    assert_eq!(r.name(), EVENT_REASONING);
    match r {
        StreamEvent::Reasoning(p) => assert_eq!(p.reasoning, "b"),
        StreamEvent::Token(_) => panic!("reasoning stays reasoning"),
    }
    let d = DonePayload::of(&reply_result(Some("x".to_string()), Some(Usage { prompt_tokens: 1, completion_tokens: 2 })));
    assert_eq!((d.content.as_str(), d.input_tokens, d.output_tokens), ("x", 1, 2));
    assert_eq!(EVENT_DONE, "agent:done");
    assert_eq!(ErrorPayload::of("boom").error, "boom");
}

#[test]
fn message_copies() {
    let m = ChatMessage { role: Role::User, content: "q".to_string() };
    let c = m.duplicate();
    assert_eq!(c.role, Role::User);
    assert_eq!(c.content, "q");
}

#[test]
fn tool_calls_are_extracted() {
    let reply = "先读取文件 <tool_call><tool_name> read </tool_name><tool_args> {\"path\": \"a.txt\"} </tool_args></tool_call> 然后 <tool_call><tool_name>glob</tool_name><tool_args>{\"pattern\": \"*.rs\"}</tool_args></tool_call>";
    let calls = parse_tool_calls(reply);
    assert_eq!(calls.len(), 2);
    assert_eq!(calls[0].name, "read");
    assert_eq!(calls[0].args["path"], "a.txt");
    assert_eq!(calls[0].args_text, "{\"path\": \"a.txt\"}");
    assert_eq!(calls[1].name, "glob");
    assert_eq!(calls[1].args["pattern"], "*.rs");
    for c in &calls {
        assert_eq!(c.args, serde_json::from_str::<serde_json::Value>(&c.args_text).unwrap());
    }
}

#[test]
fn malformed_calls_are_skipped() {
    let bad_json = "<tool_call><tool_name>read</tool_name><tool_args>{path}</tool_args></tool_call>";
    assert!(parse_tool_calls(bad_json).is_empty());
    let no_name = "<tool_call><tool_args>{}</tool_args></tool_call>";
    assert!(parse_tool_calls(no_name).is_empty());
    assert!(parse_tool_calls("没有工具调用").is_empty());
}

#[test]
fn calls_in_the_prompted_multi_line_form_are_extracted() {
    let multi = "<tool_call>\n<tool_name>read</tool_name>\n<tool_args>\n{\"path\": \"a.txt\"}\n</tool_args>\n</tool_call>";
    let calls = parse_tool_calls(multi);
    assert_eq!(calls.len(), 1);
    assert_eq!(calls[0].name, "read");
    assert_eq!(calls[0].args, serde_json::from_str::<serde_json::Value>("{\"path\":\"a.txt\"}").unwrap());
    assert_eq!(calls[0].args_text, "{\"path\": \"a.txt\"}");
}

#[test]
fn dropped_blocks_keep_the_order_of_the_rest() {
    let reply = "<tool_call><tool_name>a</tool_name><tool_args>{bad}</tool_args></tool_call><tool_call><tool_args>{}</tool_args></tool_call><tool_call><tool_name>b</tool_name><tool_args>{}</tool_args></tool_call>";
    let calls = parse_tool_calls(reply);
    assert_eq!(calls.len(), 1);
    assert_eq!(calls[0].name, "b");
    assert!(calls[0].args.as_object().unwrap().is_empty());
}

#[test]
fn tool_events_carry_the_call_and_its_result() {
    let call = parse_tool_calls("<tool_call><tool_name>read</tool_name><tool_args>{\"path\":\"x\"}</tool_args></tool_call>")
        .pop()
        .unwrap();
    let p = ToolCallPayload::of(call, "c1".to_string());
    assert_eq!((p.name.as_str(), p.id.as_str()), ("read", "c1"));
    assert_eq!(p.args["path"], "x");
    let r = agent_pc::tools::missing_arg("read", "path");
    let p = ToolResultPayload::of("c1".to_string(), &r);
    assert_eq!((p.id.as_str(), p.name.as_str(), p.result.as_str()), ("c1", "read", "缺少参数: path"));
}
