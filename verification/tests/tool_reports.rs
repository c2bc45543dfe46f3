use agent_pc::tools::{
    count_lines, dir_listing, file_preview, missing_arg, DirEntryInfo, EditOutcome, EditPlan, EditTool,
    GlobOutcome, GlobTool, ReadOutcome, ReadTool, SubAgentTool, ToolEntry, ToolKind, ToolRegistry, WriteOutcome,
    WriteTool,
};

#[test]
fn missing_argument_report() {
    let r = missing_arg("read", "path");
    assert!(!r.success);
    assert_eq!(r.output, "缺少参数: path");
    assert_eq!(r.tool_name, "read");
}

#[test]
fn line_counts() {
    assert_eq!(count_lines(""), 0);
    assert_eq!(count_lines("a"), 1);
    assert_eq!(count_lines("a\n"), 1);
    assert_eq!(count_lines("a\nb"), 2);
    assert_eq!(count_lines("\n\n"), 2);
}

#[test]
fn read_reports_a_file_with_its_line_count() {
    let r = ReadTool::report(&ReadOutcome::File { display: "a.txt".to_string(), content: "x\ny".to_string() });
    assert!(r.success);
    assert_eq!(r.tool_name, "read");
    assert_eq!(r.output, "a.txt (2 行):\nx\ny");
}

#[test]
fn read_cuts_long_files() {
    let content = "a".repeat(6000);
    let out = file_preview("big", &content);
    assert_eq!(out, format!("big (1 行):\n{}\n...(截断)", "a".repeat(5000)));
    let exact = "b".repeat(5000);
    assert_eq!(file_preview("f", &exact), format!("f (1 行):\n{}", exact));
}

#[test]
fn read_cut_counts_bytes_but_keeps_characters() {
    let content = "中".repeat(2000);
    let out = file_preview("zh", &content);
    assert_eq!(out, format!("zh (1 行):\n{}\n...(截断)", content));
}

#[test]
fn read_lists_directories() {
    let entries = vec![
        DirEntryInfo { name: "src".to_string(), is_dir: true },
        DirEntryInfo { name: "main.rs".to_string(), is_dir: false },
    ];
    assert_eq!(dir_listing(&entries), "src/\nmain.rs");
    let r = ReadTool::report(&ReadOutcome::Dir(entries));
    assert!(r.success);
    assert_eq!(r.output, "src/\nmain.rs");
    assert_eq!(dir_listing(&vec![]), "");
}

#[test]
fn read_failures() {
    assert_eq!(ReadTool::report(&ReadOutcome::MissingPath).output, "缺少参数: path");
    let r = ReadTool::report(&ReadOutcome::NotFound("b.txt".to_string()));
    assert!(!r.success);
    assert_eq!(r.output, "文件不存在: b.txt");
    assert_eq!(ReadTool::report(&ReadOutcome::PathRejected("越界".to_string())).output, "越界");
    assert_eq!(ReadTool::report(&ReadOutcome::DirError("e".to_string())).output, "读取目录失败: e");
    assert_eq!(ReadTool::report(&ReadOutcome::FileError("e".to_string())).output, "读取文件失败: e");
}

#[test]
fn write_reports_bytes_written() {
    let r = WriteTool::report(&WriteOutcome::Written { display: "f.txt".to_string(), content: "中文".to_string() });
    assert!(r.success);
    assert_eq!(r.output, "已写入 f.txt (6 字节)");
    assert_eq!(WriteTool::report(&WriteOutcome::MissingPath).output, "缺少参数: path");
    assert_eq!(WriteTool::report(&WriteOutcome::MissingContent).output, "缺少参数: content");
    assert_eq!(WriteTool::report(&WriteOutcome::PathRejected("no".to_string())).output, "no");
    let r = WriteTool::report(&WriteOutcome::WriteError("denied".to_string()));
    assert!(!r.success);
    assert_eq!(r.output, "写入失败: denied");
}

#[test]
fn edit_replaces_every_occurrence() {
    match EditTool::plan("a b a", "a", "c") {
        EditPlan::Write { new_content, count } => {
            assert_eq!(new_content, "c b c");
            assert_eq!(count, 2);
        }
        EditPlan::Refuse(_) => panic!("the text occurs"),
    }
    match EditTool::plan("aaa", "aa", "b") {
        EditPlan::Write { new_content, count } => {
            assert_eq!(new_content, "ba");
            assert_eq!(count, 1);
        }
        EditPlan::Refuse(_) => panic!("the text occurs"),
    }
}

#[test]
fn edit_refuses_absent_text() {
    match EditTool::plan("hello", "zz", "y") {
        EditPlan::Refuse(t) => {
            assert!(!t.success);
            assert_eq!(t.tool_name, "edit");
            assert_eq!(t.output, "未找到匹配的文本:\n---\nzz\n---\n请提供完整的上下文，确保精确匹配。");
        }
        EditPlan::Write { .. } => panic!("nothing to replace"),
    }
}

#[test]
fn edit_argument_check_and_reports() {
    assert_eq!(EditTool::check_args("", "x").unwrap().output, "缺少参数: path, old");
    assert_eq!(EditTool::check_args("f", "").unwrap().output, "缺少参数: path, old");
    assert!(EditTool::check_args("f", "x").is_none());
    let r = EditTool::report(&EditOutcome::Written { display: "f.rs".to_string(), count: 3 });
    assert!(r.success);
    assert_eq!(r.output, "已替换 3 处文本，文件: f.rs");
    assert_eq!(EditTool::report(&EditOutcome::ReadError("e".to_string())).output, "读取文件失败: e");
    assert_eq!(EditTool::report(&EditOutcome::WriteError("e".to_string())).output, "写入失败: e");
}

#[test]
fn glob_reports() {
    let none = GlobOutcome::Matches { pattern: "*.rs".to_string(), paths: vec![] };
    assert_eq!(GlobTool::report(&none).output, "无匹配文件: *.rs");
    let some = GlobOutcome::Matches { pattern: "*.rs".to_string(), paths: vec!["a.rs".to_string(), "b.rs".to_string()] };
    let r = GlobTool::report(&some);
    assert!(r.success);
    assert_eq!(r.output, "找到 2 个匹配:\na.rs\nb.rs");
    assert_eq!(GlobTool::report(&GlobOutcome::PatternError("bad".to_string())).output, "搜索失败: bad");
    assert_eq!(GlobTool::report(&GlobOutcome::MissingPattern).output, "缺少参数: pattern");
}

#[test]
fn sub_agent_acknowledges_tasks() {
    let r = SubAgentTool::execute(Some("写测试"));
    assert!(r.success);
    assert_eq!(r.output, "[子任务已创建]\n任务: 写测试\n子 Agent 正在独立执行中...\n完成后将返回结果。");
    assert_eq!(SubAgentTool::execute(None).output, "缺少参数: task");
    assert!(!SubAgentTool::execute(Some("")).success);
}

#[test]
fn registry_finds_registered_tools() {
    let mut reg = ToolRegistry::new();
    assert!(reg.find("read").is_none());
    reg.register(ToolKind::Grep);
    assert_eq!(reg.find("grep"), Some(ToolEntry::Builtin(ToolKind::Grep)));
    assert!(reg.find("glob").is_none());
    assert_eq!(reg.all().len(), 1);
}

#[test]
fn registry_takes_custom_tools() {
    let mut reg = ToolRegistry::default();
    let slot = reg.register_custom("deploy".to_string());
    assert_eq!(slot, 0);
    assert_eq!(reg.find("deploy"), Some(ToolEntry::Custom(0)));
    assert_eq!(reg.name_of(ToolEntry::Custom(0)), "deploy");
    assert_eq!(reg.all().len(), 7);
    // an earlier tool of the same name wins
    assert_eq!(reg.register_custom("read".to_string()), 1);
    assert_eq!(reg.find("read"), Some(ToolEntry::Builtin(ToolKind::Read)));
}

#[test]
fn default_registry() {
    let reg = ToolRegistry::default();
    let names: Vec<&str> = reg.all().iter().map(|t| reg.name_of(*t)).collect();
    assert_eq!(names, vec!["read", "write", "edit", "glob", "grep", "bash"]);
    assert!(reg.find("web_search").is_none());
    assert_eq!(reg.find("read"), Some(ToolEntry::Builtin(ToolKind::Read)));
    assert_eq!(reg.find("bash"), Some(ToolEntry::Builtin(ToolKind::Bash)));
    assert!(reg.find("unknown").is_none());
    assert!(ToolKind::Read.is_read_only());
    assert!(!ToolKind::Write.is_read_only());
}

#[test]
fn edit_passes_on_a_path_refusal() {
    let r = EditTool::report(&EditOutcome::PathRejected("路径越界: /etc (不允许访问沙箱外的文件)".to_string()));
    assert!(!r.success);
    assert_eq!(r.output, "路径越界: /etc (不允许访问沙箱外的文件)");
}

#[test]
fn tool_descriptions_and_schemas() {
    assert_eq!(ToolKind::Read.description(), "读取文件内容。参数：path（文件路径，相对或绝对）");
    assert_eq!(ToolKind::WebFetch.description(), "获取网页内容。参数：url（网页链接）");
    for k in [
        ToolKind::Read,
        ToolKind::Write,
        ToolKind::Edit,
        ToolKind::Glob,
        ToolKind::Grep,
        ToolKind::Bash,
        ToolKind::CodeSearch,
        ToolKind::SubAgent,
        ToolKind::WebSearch,
        ToolKind::WebFetch,
        ToolKind::Worktree,
    ] {
        let v: serde_json::Value = serde_json::from_str(k.parameters_json()).unwrap();
        assert_eq!(v["type"], "object", "{}", k.name());
        assert!(v["required"].is_array());
    }
    let bash: serde_json::Value = serde_json::from_str(ToolKind::Bash.parameters_json()).unwrap();
    assert_eq!(bash["properties"]["timeout"]["default"], 30);
}
