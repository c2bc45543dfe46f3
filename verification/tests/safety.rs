use agent_pc::bash_safety::{blocked_desc, validate, RiskLevel};
use agent_pc::shell::{BashOutcome, BashPlan, BashTool, GitOutcome, WorktreeAction, WorktreePlan, WorktreeTool};

#[test]
fn blank_command_is_safe() {
    let v = validate("   \t ");
    assert_eq!(v.level, RiskLevel::Safe);
    assert_eq!(v.reason, "");
}

#[test]
fn ordinary_commands_are_safe() {
    for c in ["ls -la", "git status", "cargo build", "echo hello"] {
        let v = validate(c);
        assert_eq!(v.level, RiskLevel::Safe, "{}", c);
        assert_eq!(v.reason, "");
    }
}

#[test]
fn leading_delete_is_blocked() {
    let v = validate("rm -rf /");
    assert_eq!(v.level, RiskLevel::Blocked);
    assert_eq!(v.reason, "命令 'rm -rf /' 被拦截：删除操作被拦截");
}

#[test]
fn padded_word_inside_command_is_blocked() {
    let v = validate("sudo shutdown now");
    assert_eq!(v.level, RiskLevel::Blocked);
    assert_eq!(v.reason, "命令 'sudo shutdown now' 被拦截：系统操作被拦截");
}

#[test]
fn screening_ignores_case_and_outer_blanks() {
    let v = validate("  FORMAT C:  ");
    assert_eq!(v.level, RiskLevel::Blocked);
    assert_eq!(v.reason, "命令 '  FORMAT C:  ' 被拦截：磁盘操作被拦截");
}

#[test]
fn chained_commands_are_screened_too() {
    let v = validate("echo a&&del /q x");
    assert_eq!(v.level, RiskLevel::Blocked);
    assert_eq!(v.reason, "命令 'echo a&&del /q x' 被拦截：删除操作被拦截");
    assert_eq!(validate("ls;rm -rf /").level, RiskLevel::Blocked);
    assert_eq!(validate("dir |  format c:").level, RiskLevel::Blocked);
    assert_eq!(validate("echo x\nshutdown /s").level, RiskLevel::Blocked);
    let v = validate("echo a;chmod 777 f");
    assert_eq!(v.level, RiskLevel::Caution);
    assert_eq!(v.reason, "命令 'echo a;chmod 777 f' 包含 chmod，请注意影响");
    // a separator alone does not make a word out of the middle of another
    assert_eq!(validate("echo a&b").level, RiskLevel::Safe);
}

#[test]
fn caution_command_names_the_word() {
    let v = validate("chmod 755 run.sh");
    assert_eq!(v.level, RiskLevel::Caution);
    assert_eq!(v.reason, "命令 'chmod 755 run.sh' 包含 chmod，请注意影响");
}

#[test]
fn recursive_delete_asks_for_care() {
    let v = validate("x=rm -rf");
    assert_eq!(v.level, RiskLevel::Caution);
    assert_eq!(v.reason, "递归删除操作，请确认");
}

#[test]
fn redirect_near_format_is_blocked() {
    let v = validate("echo a > format.txt");
    assert_eq!(v.level, RiskLevel::Blocked);
    assert_eq!(v.reason, "发现格式化命令重定向");
}

#[test]
fn blocked_descriptions() {
    assert_eq!(blocked_desc("rm"), "删除操作被拦截");
    assert_eq!(blocked_desc("rmdir"), "删除操作被拦截");
    assert_eq!(blocked_desc("fdisk"), "磁盘操作被拦截");
    assert_eq!(blocked_desc("reboot"), "系统操作被拦截");
    assert_eq!(blocked_desc("dd"), "底层磁盘写入被拦截");
    assert_eq!(blocked_desc("mkfs"), "危险命令被拦截");
}

#[test]
fn bash_refuses_blocked_commands() {
    match BashTool::plan(Some("del C:\\x")) {
        BashPlan::Refuse(t) => {
            assert!(!t.success);
            assert_eq!(t.tool_name, "bash");
            assert_eq!(t.output, "[安全拦截] 命令 'del C:\\x' 被拦截：删除操作被拦截");
        }
        BashPlan::Run { .. } => panic!("a blocked command must not run"),
    }
}

#[test]
fn bash_needs_a_command() {
    match BashTool::plan(None) {
        BashPlan::Refuse(t) => {
            assert!(!t.success);
            assert_eq!(t.output, "缺少参数: command");
        }
        BashPlan::Run { .. } => panic!("nothing to run"),
    }
}

#[test]
fn bash_runs_caution_commands_with_a_warning() {
    match BashTool::plan(Some("curl example.com")) {
        BashPlan::Run { warning } => {
            assert_eq!(warning.as_deref(), Some("命令 'curl example.com' 包含 curl，请注意影响"));
        }
        BashPlan::Refuse(_) => panic!("caution commands run"),
    }
    match BashTool::plan(Some("ls")) {
        BashPlan::Run { warning } => assert!(warning.is_none()),
        BashPlan::Refuse(_) => panic!("safe commands run"),
    }
}

#[test]
fn bash_report_of_a_finished_command() {
    let o = BashOutcome::Exited {
        warning: Some("小心".to_string()),
        stdout: b"out".to_vec(),
        stderr: b"err".to_vec(),
        success: false,
        code: Some(2),
    };
    let r = BashTool::report(&o);
    assert!(!r.success);
    assert_eq!(r.output, "[警告] 小心\n\nout\n[stderr]\nerr\n[命令失败，退出码: 2]");
    let o = BashOutcome::Exited { warning: None, stdout: vec![], stderr: vec![], success: true, code: None };
    assert_eq!(BashTool::report(&o).output, "\n[命令完成，退出码: -1]");
}

#[test]
fn bash_report_decodes_invalid_bytes_lossily() {
    let o = BashOutcome::Exited {
        warning: None,
        stdout: vec![b'a', 0xff, b'b'],
        stderr: vec![],
        success: true,
        code: Some(0),
    };
    assert_eq!(BashTool::report(&o).output, "a\u{fffd}b\n\n[命令完成，退出码: 0]");
}

#[test]
fn bash_time_limit() {
    assert_eq!(BashTool::timeout_secs(None), 30);
    assert_eq!(BashTool::timeout_secs(Some(5)), 5);
    let r = BashTool::report(&BashOutcome::TimedOut { warning: None, secs: 5 });
    assert!(!r.success);
    assert_eq!(r.output, "[命令超时，已终止: 5 秒]");
    let r = BashTool::report(&BashOutcome::TimedOut { warning: Some("小心".to_string()), secs: 30 });
    assert_eq!(r.output, "[警告] 小心\n\n[命令超时，已终止: 30 秒]");
}

#[test]
fn bash_spawn_failure() {
    let r = BashTool::report(&BashOutcome::SpawnError("not found".to_string()));
    assert!(!r.success);
    assert_eq!(r.output, "执行命令失败: not found");
}

#[test]
fn worktree_plans() {
    match WorktreeTool::plan("list", "", "") {
        WorktreePlan::Git { args, action } => {
            assert_eq!(args, vec!["worktree", "list"]);
            assert!(matches!(action, WorktreeAction::List));
        }
        WorktreePlan::Done(_) => panic!("list runs git"),
    }
    match WorktreeTool::plan("create", "feat", "") {
        WorktreePlan::Git { args, .. } => assert_eq!(args, vec!["worktree", "add", "../feat-worktree", "feat"]),
        WorktreePlan::Done(_) => panic!("create runs git"),
    }
    match WorktreeTool::plan("create", "", "") {
        WorktreePlan::Done(t) => assert_eq!(t.output, "缺少参数: branch"),
        WorktreePlan::Git { .. } => panic!("a branch is needed"),
    }
    match WorktreeTool::plan("delete", "feat", "/tmp/w") {
        WorktreePlan::Git { args, .. } => assert_eq!(args, vec!["worktree", "remove", "/tmp/w"]),
        WorktreePlan::Done(_) => panic!("delete runs git"),
    }
    match WorktreeTool::plan("merge", "", "") {
        WorktreePlan::Done(t) => {
            assert!(!t.success);
            assert_eq!(t.output, "未知操作: merge");
        }
        WorktreePlan::Git { .. } => panic!("unknown actions are refused"),
    }
}

#[test]
fn worktree_reports() {
    let create = WorktreeAction::Create { path: "../f".to_string(), branch: "f".to_string() };
    let ok = GitOutcome::Exited { success: true, stdout: vec![], stderr: vec![] };
    assert_eq!(WorktreeTool::report(&create, &ok).output, "已创建 worktree: ../f (分支: f)");
    let failed = GitOutcome::Exited { success: false, stdout: vec![], stderr: b"fatal".to_vec() };
    let r = WorktreeTool::report(&create, &failed);
    assert!(!r.success);
    assert_eq!(r.output, "fatal");
    let del = WorktreeAction::Delete { target: "w".to_string() };
    assert_eq!(WorktreeTool::report(&del, &ok).output, "已删除 worktree: w");
    let list = GitOutcome::Exited { success: true, stdout: b"main".to_vec(), stderr: vec![] };
    assert_eq!(WorktreeTool::report(&WorktreeAction::List, &list).output, "main");
    let r = WorktreeTool::report(&WorktreeAction::List, &GitOutcome::SpawnError("x".to_string()));
    assert_eq!(r.output, "执行失败: x");
}

#[test]
fn bash_report_decodes_utf8_output() {
    let o = BashOutcome::Exited {
        warning: None,
        stdout: "中文".as_bytes().to_vec(),
        stderr: vec![],
        success: true,
        code: Some(0),
    };
    assert_eq!(BashTool::report(&o).output, "中文\n\n[命令完成，退出码: 0]");
}
