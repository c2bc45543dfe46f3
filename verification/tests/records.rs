use agent_pc::context::{build_messages, project_rules, rule_file_names, rules_section, system_prompt, PROMPT_BODY, PROMPT_HEAD};
use agent_pc::deepseek::{ChatMessage, Role};
use agent_pc::mcp::{
    call_reply, call_tool_outcome, handle_request_line, CallReplyFields, McpAction, call_outcome, parse_error, route, tool_for_call, unknown_method, CallReply, McpRoute, McpServerConfig,
    INVALID_PARAMS, METHOD_NOT_FOUND, PARSE_ERROR,
};
use agent_pc::sandbox::{invalid_path_message, Sandbox};
use agent_pc::session::{
    begin_turn, chat_role, end_turn, has_json_extension, history_of, record_file_name, sort_summaries,
    title_from_input, Message, MessageRole, Session, SessionSummary,
};
use agent_pc::settings::{keyring_update, loaded_settings, KeyringUpdate, PermissionLevel, Settings, SettingsFile};
use agent_pc::skills::{sort_skills, Skill};
use agent_pc::tools::{ToolEntry, ToolKind, ToolRegistry};

fn msg(role: Role, content: &str) -> ChatMessage {
    ChatMessage { role, content: content.to_string() }
}

fn pairs(v: &[ChatMessage]) -> Vec<(Role, String)> {
    v.iter().map(|m| (m.role, m.content.clone())).collect()
}

#[test]
fn messages_for_a_turn() {
    let history = vec![msg(Role::User, "hi"), msg(Role::Assistant, "hello")];
    let out = build_messages("sys", &history, "next");
    assert_eq!(
        pairs(&out),
        vec![
            (Role::System, "sys".to_string()),
            (Role::User, "hi".to_string()),
            (Role::Assistant, "hello".to_string()),
            (Role::User, "next".to_string()),
        ]
    );
    assert_eq!(build_messages("s", &[], "u").len(), 2);
}

#[test]
fn system_prompt_layout() {
    let p = system_prompt("[]", "", "2024-05-01 10:00");
    assert!(p.starts_with("你是 Agent PC，一个桌面 AI 编码助手。\n\n## 行为准则\n"));
    assert_eq!(p, format!("{}[]{}\n当前时间：2024-05-01 10:00\n", PROMPT_HEAD, PROMPT_BODY));
    assert!(p.contains("<tool_call>\n<tool_name>工具名称</tool_name>\n<tool_args>\n{\"参数1\": \"值1\", \"参数2\": \"值2\"}\n</tool_args>\n</tool_call>"));
    let with_rules = system_prompt("[]", "\n## 项目规则 (AGENTS.md):\nR\n", "t");
    assert!(with_rules.ends_with("[!note]。\n\n## 项目规则 (AGENTS.md):\nR\n\n当前时间：t\n"));
}

#[test]
fn project_rules_section() {
    assert_eq!(rule_file_names(), vec!["AGENTS.md", ".cursorrules"]);
    assert_eq!(rules_section("AGENTS.md", "be nice"), "\n## 项目规则 (AGENTS.md):\nbe nice\n");
    let long = "规".repeat(2500);
    assert_eq!(rules_section("a", &long), format!("\n## 项目规则 (a):\n{}\n", "规".repeat(2000)));
    assert_eq!(project_rules(&vec![None, Some("x".to_string())]), "\n## 项目规则 (.cursorrules):\nx\n");
    assert_eq!(project_rules(&vec![Some("first".to_string()), Some("x".to_string())]), "\n## 项目规则 (AGENTS.md):\nfirst\n");
    assert_eq!(project_rules(&vec![None, None]), "");
}

#[test]
fn new_session_is_named_after_its_date() {
    let s = Session::new("id1".to_string(), "2024-05-01 10:00:00");
    assert_eq!(s.name, "新对话 2024-05-01");
    assert_eq!(s.created_at, "2024-05-01 10:00:00");
    assert_eq!(s.updated_at, "2024-05-01 10:00:00");
    assert!(s.messages.is_empty());
    let sum = s.summary();
    assert_eq!((sum.id.as_str(), sum.message_count), ("id1", 0));
}

#[test]
fn renaming_keeps_the_conversation() {
    let mut s = Session::new("id".to_string(), "2024-05-01 10:00:00");
    s.record(Message::new("m1".to_string(), MessageRole::User, "q", "t1".to_string()));
    s.rename("新名字", "2024-05-02 09:00:00");
    assert_eq!(s.name, "新名字");
    assert_eq!(s.updated_at, "2024-05-02 09:00:00");
    assert_eq!(s.created_at, "2024-05-01 10:00:00");
    assert_eq!(s.messages.len(), 1);
    assert_eq!(s.messages[0].content, "q");
}

#[test]
fn stored_record_files() {
    assert_eq!(record_file_name("abc").as_deref(), Some("abc.json"));
    assert!(record_file_name("../settings").is_none());
    assert!(record_file_name("a/b").is_none());
    assert!(record_file_name("a\\b").is_none());
    assert!(record_file_name("x..y").is_none());
    assert!(has_json_extension("abc.json"));
    assert!(has_json_extension("a.b.json"));
    assert!(!has_json_extension(".json"));
    assert!(!has_json_extension("abc.JSON"));
    assert!(!has_json_extension("abc.txt"));
    assert!(!has_json_extension("json"));
}

fn summary(id: &str, updated: &str) -> SessionSummary {
    SessionSummary {
        id: id.to_string(),
        name: String::new(),
        created_at: String::new(),
        updated_at: updated.to_string(),
        message_count: 0,
    }
}

#[test]
fn sessions_are_listed_newest_first() {
    let v = vec![
        summary("a", "2024-01-01 00:00:00"),
        summary("b", "2024-03-01 00:00:00"),
        summary("c", "2024-01-01 00:00:00"),
        summary("d", "2024-02-01 00:00:00"),
    ];
    let ids: Vec<String> = sort_summaries(v).into_iter().map(|s| s.id).collect();
    assert_eq!(ids, vec!["b", "d", "a", "c"]);
}

#[test]
fn skills_are_listed_newest_first() {
    let a = Skill::new("a".to_string(), "n", "d", "p", "2024-01-01".to_string());
    let b = Skill::new("b".to_string(), "n", "d", "p", "2024-02-01".to_string());
    assert_eq!(a.system_prompt, "p");
    let ids: Vec<String> = sort_skills(vec![a.summary(), b.summary()]).into_iter().map(|s| s.id).collect();
    assert_eq!(ids, vec!["b", "a"]);
}

#[test]
fn a_turn_stores_the_input_and_the_reply() {
    let mut s = Session::new("id".to_string(), "2024-05-01 10:00:00");
    let sent = begin_turn(&mut s, "sys", "m1".to_string(), "你好", "2024-05-01 10:01:00".to_string());
    // the input is sent once, after the earlier conversation, and then stored
    assert_eq!(pairs(&sent), vec![(Role::System, "sys".to_string()), (Role::User, "你好".to_string())]);
    assert_eq!(s.messages.len(), 1);
    assert_eq!(s.messages[0].content, "你好");
    let reply0 = Message::new("m9".to_string(), MessageRole::Assistant, "早", "t".to_string());
    s.record(reply0);
    let sent = begin_turn(&mut s, "sys", "m10".to_string(), "再见", "t".to_string());
    assert_eq!(
        pairs(&sent),
        vec![
            (Role::System, "sys".to_string()),
            (Role::User, "你好".to_string()),
            (Role::Assistant, "早".to_string()),
            (Role::User, "再见".to_string()),
        ]
    );
    assert_eq!(s.messages.len(), 3);
    assert_eq!(s.created_at, "2024-05-01 10:00:00");
    s.messages.truncate(1);
    let reply = Message::new("m2".to_string(), MessageRole::Assistant, "您好", "2024-05-01 10:01:05".to_string());
    let title = end_turn(&mut s, reply, "你好");
    assert_eq!(title.as_deref(), Some("你好"));
    assert_eq!(s.messages.len(), 2);
    assert_eq!(s.messages[1].role, MessageRole::Assistant);
    s.rename("已命名", "t");
    let reply = Message::new("m3".to_string(), MessageRole::Assistant, "x", "t".to_string());
    assert!(end_turn(&mut s, reply, "again").is_none());
}

#[test]
fn titles_from_inputs() {
    assert_eq!(title_from_input("短问题"), "短问题");
    assert_eq!(title_from_input(&"a".repeat(20)), "a".repeat(20));
    assert_eq!(title_from_input(&"a".repeat(21)), format!("{}...", "a".repeat(20)));
    // characters are counted, not bytes: nothing is cut, so no marker
    assert_eq!(title_from_input("一二三四五六七"), "一二三四五六七");
    assert_eq!(title_from_input("请帮我重构这个函数谢谢"), "请帮我重构这个函数谢谢");
    assert_eq!(title_from_input(&"中".repeat(21)), format!("{}...", "中".repeat(20)));
}

#[test]
fn history_maps_roles() {
    assert_eq!(chat_role(MessageRole::System), Role::System);
    let v = vec![
        Message::new("1".to_string(), MessageRole::User, "a", "t".to_string()),
        Message::new("2".to_string(), MessageRole::Assistant, "b", "t".to_string()),
    ];
    assert_eq!(pairs(&history_of(&v)), vec![(Role::User, "a".to_string()), (Role::Assistant, "b".to_string())]);
}

#[test]
fn default_settings() {
    let s = Settings::default();
    assert_eq!(s.api_key, "");
    assert_eq!(s.model, "deepseek-v4-flash");
    assert_eq!(s.permission_level, PermissionLevel::Default);
    assert_eq!(s.working_dir, "");
    assert_eq!(PermissionLevel::default(), PermissionLevel::Default);
}

fn settings(key: &str) -> Settings {
    Settings {
        api_key: key.to_string(),
        model: "m".to_string(),
        permission_level: PermissionLevel::Full,
        working_dir: "/w".to_string(),
    }
}

#[test]
fn the_settings_file_never_holds_the_key() {
    let f = settings("sk-secret").for_file();
    assert_eq!(f.api_key, "");
    assert_eq!(f.model, "m");
    assert_eq!(f.permission_level, PermissionLevel::Full);
    assert_eq!(f.working_dir, "/w");
}

#[test]
fn keyring_changes() {
    assert!(matches!(keyring_update(""), KeyringUpdate::Delete));
    match keyring_update("sk") {
        KeyringUpdate::Store(k) => assert_eq!(k, "sk"),
        KeyringUpdate::Delete => panic!("a key is stored"),
    }
}

#[test]
fn saved_settings_load_back() {
    let s = settings("sk-1");
    let loaded = loaded_settings(SettingsFile::Parsed(s.for_file()), Some("sk-1".to_string()));
    assert_eq!((loaded.api_key.as_str(), loaded.model.as_str(), loaded.working_dir.as_str()), ("sk-1", "m", "/w"));
    assert_eq!(loaded.permission_level, PermissionLevel::Full);
}

#[test]
fn loading_without_a_usable_file() {
    let s = loaded_settings(SettingsFile::Missing, Some("k".to_string()));
    assert_eq!((s.api_key.as_str(), s.model.as_str()), ("k", "deepseek-v4-flash"));
    let s = loaded_settings(SettingsFile::Malformed, None);
    assert_eq!(s.api_key, "");
    // an unreadable file gives the bare defaults, without the keyring's key
    let s = loaded_settings(SettingsFile::Unreadable, Some("k".to_string()));
    assert_eq!(s.api_key, "");
    assert_eq!(s.model, "deepseek-v4-flash");
}

#[test]
fn sandbox_bounds() {
    let parts = |v: &[&str]| v.iter().map(|s| s.to_string()).collect::<Vec<String>>();
    let sb = Sandbox::new("/home/u/proj".to_string(), parts(&["/", "home", "u", "proj"]));
    assert_eq!(sb.allowed_dir(), "/home/u/proj");
    assert!(sb.contains(&parts(&["/", "home", "u", "proj"])));
    assert!(sb.contains(&parts(&["/", "home", "u", "proj", "src", "a.rs"])));
    assert!(!sb.contains(&parts(&["/", "home", "u", "project"])));
    assert!(!sb.contains(&parts(&["/", "home", "u"])));
    assert_eq!(sb.check("/etc/passwd", &parts(&["/", "etc", "passwd"])), Err("路径越界: /etc/passwd (不允许访问沙箱外的文件)".to_string()));
    assert_eq!(sb.check("/home/u/proj/x", &parts(&["/", "home", "u", "proj", "x"])), Ok(()));
    assert_eq!(invalid_path_message("nope.txt", "No such file"), "路径无效: nope.txt (No such file)");
}

#[test]
fn sandbox_root_stays_as_built() {
    let parts = |v: &[&str]| v.iter().map(|s| s.to_string()).collect::<Vec<String>>();
    let sb = Sandbox::new("/r".to_string(), parts(&["/", "r"]));
    let _ = sb.check("/x", &parts(&["/", "x"]));
    let _ = sb.check_new("/r/n", &parts(&["/", "r"]), &parts(&["n"]));
    let _ = sb.retain_inside(&vec![("/r/a".to_string(), parts(&["/", "r", "a"]))]);
    assert!(sb.contains(&parts(&["/", "r"])));
    assert_eq!(sb.allowed_dir(), "/r");
}

#[test]
fn sandbox_new_files_and_found_paths() {
    let parts = |v: &[&str]| v.iter().map(|s| s.to_string()).collect::<Vec<String>>();
    let sb = Sandbox::new("/p".to_string(), parts(&["/", "p"]));
    assert_eq!(sb.check_new("/p/a/b.txt", &parts(&["/", "p"]), &parts(&["a", "b.txt"])), Ok(()));
    assert_eq!(
        sb.check_new("/p/../x", &parts(&["/", "p"]), &parts(&["..", "x"])),
        Err("路径越界: /p/../x (不允许访问沙箱外的文件)".to_string())
    );
    assert!(sb.check_new("/q/x", &parts(&["/", "q"]), &parts(&["x"])).is_err());
    let found = vec![
        ("/p/a.rs".to_string(), parts(&["/", "p", "a.rs"])),
        ("/etc/x.rs".to_string(), parts(&["/", "etc", "x.rs"])),
        ("/p/s/b.rs".to_string(), parts(&["/", "p", "s", "b.rs"])),
    ];
    assert_eq!(sb.retain_inside(&found), vec!["/p/a.rs".to_string(), "/p/s/b.rs".to_string()]);
}

#[test]
fn rpc_routing() {
    assert_eq!(route("initialize"), McpRoute::Initialize);
    assert_eq!(route("tools/list"), McpRoute::ToolsList);
    assert_eq!(route("tools/call"), McpRoute::ToolsCall);
    assert_eq!(route(""), McpRoute::Unknown);
    let e = unknown_method("ping");
    assert_eq!((e.code, e.message.as_str()), (METHOD_NOT_FOUND, "未知方法: ping"));
    assert_eq!(METHOD_NOT_FOUND, -32601);
    let e = parse_error("EOF");
    assert_eq!((e.code, e.message.as_str()), (PARSE_ERROR, "JSON 解析错误: EOF"));
    assert_eq!(PARSE_ERROR, -32700);
}

#[test]
fn rpc_tool_lookup() {
    let reg = ToolRegistry::default();
    assert_eq!(tool_for_call(&reg, "read").ok(), Some(ToolEntry::Builtin(ToolKind::Read)));
    match tool_for_call(&reg, "nope") {
        Err(e) => assert_eq!((e.code, e.message.as_str()), (INVALID_PARAMS, "未知工具: nope")),
        Ok(_) => panic!("no such tool"),
    }
}

#[test]
fn tool_call_replies() {
    assert_eq!(call_outcome(CallReply::FirstText("hi".to_string())), Ok("hi".to_string()));
    assert_eq!(call_outcome(CallReply::Error("{\"code\":1}".to_string())), Err("MCP 错误: {\"code\":1}".to_string()));
    assert_eq!(call_outcome(CallReply::Content("[]".to_string())), Ok("[]".to_string()));
    assert_eq!(call_outcome(CallReply::Result("{}".to_string())), Ok("{}".to_string()));
    assert_eq!(call_outcome(CallReply::Nothing), Err("MCP 调用无响应".to_string()));
    assert_eq!(call_outcome(CallReply::Empty), Err("MCP 调用无响应".to_string()));
}

#[test]
fn server_config_holds_its_fields() {
    let c = McpServerConfig {
        name: "fs".to_string(),
        command: "npx".to_string(),
        args: vec!["server".to_string()],
        env: std::collections::HashMap::new(),
    };
    assert_eq!(c.args.len(), 1);
    assert!(c.env.is_empty());
}

fn fail(a: McpAction) -> (Option<serde_json::Value>, i32, String) {
    match a {
        McpAction::Fail { id, error } => (id, error.code, error.message),
        _ => panic!("expected a refusal"),
    }
}

#[test]
fn server_requests_become_actions() {
    let reg = ToolRegistry::default();
    let (id, code, msg) = fail(handle_request_line("not json", &reg));
    assert!(id.is_none());
    assert_eq!(code, PARSE_ERROR);
    assert!(msg.starts_with("JSON 解析错误: "));
    match handle_request_line(r#"{"jsonrpc":"2.0","id":1,"method":"initialize"}"#, &reg) {
        McpAction::Initialize { id } => assert_eq!(id, Some(serde_json::Value::from(1))),
        _ => panic!("initialize"),
    }
    match handle_request_line(r#"{"id":"a","method":"tools/list"}"#, &reg) {
        McpAction::ListTools { id } => assert_eq!(id, Some(serde_json::Value::from("a"))),
        _ => panic!("list"),
    }
    match handle_request_line(r#"{"id":2,"method":"tools/call","params":{"name":"read","arguments":{"path":"a"}}}"#, &reg) {
        McpAction::CallTool { id, entry, arguments } => {
            assert_eq!(id, Some(serde_json::Value::from(2)));
            assert_eq!(entry, ToolEntry::Builtin(ToolKind::Read));
            assert_eq!(arguments["path"], "a");
        }
        _ => panic!("call"),
    }
    match handle_request_line(r#"{"method":"tools/call","params":{"name":"grep"}}"#, &reg) {
        McpAction::CallTool { arguments, .. } => assert!(arguments.is_null()),
        _ => panic!("call without arguments"),
    }
    let (id, code, msg) = fail(handle_request_line(r#"{"id":3,"method":"tools/call","params":{"name":"x"}}"#, &reg));
    assert_eq!((id, code, msg.as_str()), (Some(serde_json::Value::from(3)), INVALID_PARAMS, "未知工具: x"));
    let (id, code, msg) = fail(handle_request_line(r#"{"method":"ping"}"#, &reg));
    assert_eq!((id, code, msg.as_str()), (None, METHOD_NOT_FOUND, "未知方法: ping"));
    let (_, code, msg) = fail(handle_request_line(r#"{"id":4,"method":5}"#, &reg));
    assert_eq!((code, msg.as_str()), (METHOD_NOT_FOUND, "未知方法: "));
}

#[test]
fn client_reads_tool_call_replies() {
    let none = Err("MCP 调用无响应".to_string());
    assert_eq!(call_tool_outcome(None), none);
    assert_eq!(call_tool_outcome(Some("not json")), none);
    assert_eq!(call_tool_outcome(Some("{}")), none);
    assert_eq!(call_tool_outcome(Some(r#"{"error":{"code":1},"result":{}}"#)), Err("MCP 错误: {\"code\":1}".to_string()));
    assert_eq!(call_tool_outcome(Some(r#"{"result":{"content":[{"type":"text","text":"hi"}]}}"#)), Ok("hi".to_string()));
    assert_eq!(call_tool_outcome(Some(r#"{"result":{"content":[]}}"#)), Ok("[]".to_string()));
    assert_eq!(call_tool_outcome(Some(r#"{"result":{"x":1}}"#)), Ok("{\n  \"x\": 1\n}".to_string()));
    let f = CallReplyFields { error: None, result: Some("r".to_string()), content: Some("c".to_string()), first_text: None };
    assert!(matches!(call_reply(Some(f)), CallReply::Content(c) if c == "c"));
    assert!(matches!(call_reply(None), CallReply::Nothing));
}
