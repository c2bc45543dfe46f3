//! Tools that run processes: `bash` (screened by the command safety check)
//! and `worktree` (git worktree management).
use vstd::prelude::*;

use crate::bash_safety::{validate, verdict_spec, RiskLevel};
use crate::text::{decimal, lossy_text, owned, signed_decimal, str_eq, utf8_lossy, i64_to_decimal};
use crate::tools::{missing_arg, missing_arg_text, prefixed, ToolKind, ToolResult};

verus! {

/// What the `bash` tool does with a command.
pub enum BashPlan {
    /// The command is not run; this is the report.
    Refuse(ToolResult),
    /// Run the command; `warning` is the caution reason, if any.
    Run { warning: Option<String> },
}

/// What running a command came to.
pub enum BashOutcome {
    Exited {
        warning: Option<String>,
        stdout: Vec<u8>,
        stderr: Vec<u8>,
        success: bool,
        code: Option<i32>,
    },
    /// The command ran past its time limit (in seconds) and was stopped.
    TimedOut { warning: Option<String>, secs: u64 },
    SpawnError(String),
}

/// Report text of a finished command: the caution warning, standard output,
/// standard error, and the exit line (code -1 when there is none).
pub open spec fn bash_output_text(
    warning: Option<Seq<char>>,
    stdout: Seq<char>,
    stderr: Seq<char>,
    success: bool,
    code: Option<i32>,
) -> Seq<char> {
    let w = match warning {
        Some(w) => "[警告] "@ + w + "\n\n"@,
        None => Seq::empty(),
    };
    let o = if stdout.len() > 0 {
        stdout + "\n"@
    } else {
        Seq::empty()
    };
    let e = if stderr.len() > 0 {
        "[stderr]\n"@ + stderr
    } else {
        Seq::empty()
    };
    let c = match code {
        Some(c) => c as int,
        None => -1,
    };
    let status = if success {
        "\n[命令完成，退出码: "@
    } else {
        "\n[命令失败，退出码: "@
    };
    w + o + e + status + signed_decimal(c) + "]"@
}

/// Success flag and report of the `bash` tool.
pub open spec fn bash_report(o: BashOutcome) -> (bool, Seq<char>) {
    match o {
        BashOutcome::Exited { warning, stdout, stderr, success, code } => (
            success,
            bash_output_text(
                match warning {
                    Some(w) => Some(w@),
                    None => None,
                },
                lossy_text(stdout@),
                lossy_text(stderr@),
                success,
                code,
            ),
        ),
        BashOutcome::TimedOut { warning, secs } => (
            false,
            match warning {
                Some(w) => "[警告] "@ + w@ + "\n\n"@,
                None => Seq::empty(),
            } + "[命令超时，已终止: "@ + decimal(secs as nat) + " 秒]"@,
        ),
        BashOutcome::SpawnError(e) => (false, "执行命令失败: "@ + e@),
    }
}

/// The `bash` tool.
pub struct BashTool;

impl BashTool {
    /// Which tool this is.
    pub fn kind(&self) -> (k: ToolKind)
        ensures
            k == ToolKind::Bash,
    {
        ToolKind::Bash
    }

    /// Decides whether to run a command: a missing command and a blocked
    /// command are refused; a caution command runs with its reason as a
    /// warning; a safe command runs without one. A blocked command is never
    /// run.
    pub fn plan(command: Option<&str>) -> (p: BashPlan)
        ensures
            command is None ==> (p matches BashPlan::Refuse(t) && t.shows(
                false,
                missing_arg_text("command"@),
                "bash"@,
            )),
            command matches Some(c) ==> ({
                let v = verdict_spec(c@);
                &&& v.0 == RiskLevel::Blocked ==> (p matches BashPlan::Refuse(t) && t.shows(
                    false,
                    "[安全拦截] "@ + v.1,
                    "bash"@,
                ))
                &&& v.0 == RiskLevel::Caution ==> (p matches BashPlan::Run { warning } && warning
                    matches Some(w) && w@ == v.1)
                &&& v.0 == RiskLevel::Safe ==> (p matches BashPlan::Run { warning }
                    && warning is None)
            }),
    {
        match command {
            None => BashPlan::Refuse(missing_arg("bash", "command")),
            Some(c) => {
                let verdict = validate(c);
                match verdict.level {
                    RiskLevel::Blocked => BashPlan::Refuse(
                        ToolResult::make(false, prefixed("[安全拦截] ", verdict.reason.as_str()), "bash"),
                    ),
                    RiskLevel::Caution => BashPlan::Run { warning: Some(verdict.reason) },
                    RiskLevel::Safe => BashPlan::Run { warning: None },
                }
            },
        }
    }

    /// The time limit of a command in seconds: the `timeout` argument, 30
    /// when it is absent.
    pub fn timeout_secs(timeout: Option<u64>) -> (r: u64)
        ensures
            r == (match timeout {
                Some(t) => t,
                None => 30,
            }),
    {
        match timeout {
            Some(t) => t,
            None => 30,
        }
    }

    /// Report of a `bash` run, from what running the command came to.
    pub fn report(o: &BashOutcome) -> (r: ToolResult)
        ensures
            r.shows(bash_report(*o).0, bash_report(*o).1, "bash"@),
    {
        match o {
            BashOutcome::Exited { warning, stdout, stderr, success, code } => {
                let mut s = String::new();
                match warning {
                    Some(w) => {
                        s.append("[警告] ");
                        s.append(w.as_str());
                        s.append("\n\n");
                    },
                    None => {},
                }
                let out = utf8_lossy(stdout.as_slice());
                let err = utf8_lossy(stderr.as_slice());
                if !out.as_str().is_empty() {
                    s.append(out.as_str());
                    s.append("\n");
                }
                if !err.as_str().is_empty() {
                    s.append("[stderr]\n");
                    s.append(err.as_str());
                }
                if *success {
                    s.append("\n[命令完成，退出码: ");
                } else {
                    s.append("\n[命令失败，退出码: ");
                }
                let c: i64 = match code {
                    Some(c) => *c as i64,
                    None => -1,
                };
                s.append(i64_to_decimal(c).as_str());
                s.append("]");
                let ghost wv: Option<Seq<char>> = match warning {
                    Some(w) => Some(w@),
                    None => None,
                };
                assert(s@ == bash_output_text(wv, out@, err@, *success, *code));
                ToolResult::make(*success, s, "bash")
            },
            BashOutcome::TimedOut { warning, secs } => {
                let mut s = String::new();
                match warning {
                    Some(w) => {
                        s.append("[警告] ");
                        s.append(w.as_str());
                        s.append("\n\n");
                    },
                    None => {},
                }
                s.append("[命令超时，已终止: ");
                s.append(crate::text::u64_to_decimal(*secs).as_str());
                s.append(" 秒]");
                ToolResult::make(false, s, "bash")
            },
            BashOutcome::SpawnError(e) => ToolResult::make(false, prefixed("执行命令失败: ", e.as_str()), "bash"),
        }
    }
}

/// The git work a `worktree` request asks for.
#[derive(Debug)]
pub enum WorktreeAction {
    List,
    Create { path: String, branch: String },
    Delete { target: String },
}

/// What the `worktree` tool does with a request.
pub enum WorktreePlan {
    /// Nothing to run; this is the report.
    Done(ToolResult),
    /// Run `git` with these arguments in the sandbox root.
    Git { args: Vec<String>, action: WorktreeAction },
}

/// What running `git` came to.
pub enum GitOutcome {
    Exited { success: bool, stdout: Vec<u8>, stderr: Vec<u8> },
    SpawnError(String),
}

/// Path of a new worktree: the given one, or `../BRANCH-worktree`.
pub open spec fn worktree_path(branch: Seq<char>, path: Seq<char>) -> Seq<char> {
    if path.len() == 0 {
        "../"@ + branch + "-worktree"@
    } else {
        path
    }
}

/// Success flag and report of a `worktree` run.
pub open spec fn worktree_report(a: WorktreeAction, o: GitOutcome) -> (bool, Seq<char>) {
    match o {
        GitOutcome::SpawnError(e) => (false, "执行失败: "@ + e@),
        GitOutcome::Exited { success, stdout, stderr } => match a {
            WorktreeAction::List => (true, lossy_text(stdout@)),
            WorktreeAction::Create { path, branch } => if success {
                (true, "已创建 worktree: "@ + path@ + " (分支: "@ + branch@ + ")"@)
            } else {
                (false, lossy_text(stderr@))
            },
            WorktreeAction::Delete { target } => if success {
                (true, "已删除 worktree: "@ + target@)
            } else {
                (false, lossy_text(stderr@))
            },
        },
    }
}

/// The `worktree` tool.
pub struct WorktreeTool;

fn strings2(a: &str, b: &str) -> (v: Vec<String>)
    ensures
        v@.len() == 2,
        v@[0]@ == a@,
        v@[1]@ == b@,
{
    let mut v: Vec<String> = Vec::new();
    v.push(owned(a));
    v.push(owned(b));
    v
}

impl WorktreeTool {
    /// Which tool this is.
    pub fn kind(&self) -> (k: ToolKind)
        ensures
            k == ToolKind::Worktree,
    {
        ToolKind::Worktree
    }

    /// Decides the git work for a request (`action` defaults to `list`,
    /// `branch` and `path` to empty): `list` lists worktrees; `create` needs
    /// a branch and adds a worktree at the given path or `../BRANCH-worktree`;
    /// `delete` removes the worktree at the path, or else the branch; any
    /// other action is refused.
    pub fn plan(action: &str, branch: &str, path: &str) -> (p: WorktreePlan)
        ensures
            action@ == "list"@ ==> (p matches WorktreePlan::Git { args, action: a } && a
                is List && args@.len() == 2 && args@[0]@ == "worktree"@ && args@[1]@ == "list"@),
            action@ == "create"@ && branch@.len() == 0 ==> (p matches WorktreePlan::Done(t)
                && t.shows(false, missing_arg_text("branch"@), "worktree"@)),
            action@ == "create"@ && branch@.len() > 0 ==> (p matches WorktreePlan::Git {
                args,
                action: a,
            } && a matches WorktreeAction::Create { path: wp, branch: b } && wp@ == worktree_path(
                branch@,
                path@,
            ) && b@ == branch@ && args@.len() == 4 && args@[0]@ == "worktree"@ && args@[1]@
                == "add"@ && args@[2]@ == wp@ && args@[3]@ == branch@),
            action@ == "delete"@ ==> (p matches WorktreePlan::Git { args, action: a } && a matches WorktreeAction::Delete {
                target,
            } && target@ == (if path@.len() == 0 {
                branch@
            } else {
                path@
            }) && args@.len() == 3 && args@[0]@ == "worktree"@ && args@[1]@ == "remove"@
                && args@[2]@ == target@),
            action@ != "list"@ && action@ != "create"@ && action@ != "delete"@ ==> (p matches WorktreePlan::Done(t)
                && t.shows(false, "未知操作: "@ + action@, "worktree"@)),
    {
        proof {
            reveal_strlit("list");
            reveal_strlit("create");
            reveal_strlit("delete");
            assert("create"@[0] != "delete"@[0]);
            assert("list"@[0] != "delete"@[0]);
            assert("list"@[0] != "create"@[0]);
        }
        if str_eq(action, "list") {
            WorktreePlan::Git { args: strings2("worktree", "list"), action: WorktreeAction::List }
        } else if str_eq(action, "create") {
            if branch.is_empty() {
                return WorktreePlan::Done(missing_arg("worktree", "branch"));
            }
            let p = if path.is_empty() {
                let mut p = owned("../");
                p.append(branch);
                p.append("-worktree");
                p
            } else {
                owned(path)
            };
            let mut args = strings2("worktree", "add");
            args.push(p.clone());
            args.push(owned(branch));
            WorktreePlan::Git { args, action: WorktreeAction::Create { path: p, branch: owned(branch) } }
        } else if str_eq(action, "delete") {
            let target = if path.is_empty() {
                owned(branch)
            } else {
                owned(path)
            };
            let mut args = strings2("worktree", "remove");
            args.push(target.clone());
            WorktreePlan::Git { args, action: WorktreeAction::Delete { target } }
        } else {
            WorktreePlan::Done(ToolResult::make(false, prefixed("未知操作: ", action), "worktree"))
        }
    }

    /// Report of a `worktree` run, from what running git came to.
    pub fn report(a: &WorktreeAction, o: &GitOutcome) -> (r: ToolResult)
        ensures
            r.shows(worktree_report(*a, *o).0, worktree_report(*a, *o).1, "worktree"@),
    {
        match o {
            GitOutcome::SpawnError(e) => ToolResult::make(false, prefixed("执行失败: ", e.as_str()), "worktree"),
            GitOutcome::Exited { success, stdout, stderr } => match a {
                WorktreeAction::List => ToolResult::make(true, utf8_lossy(stdout.as_slice()), "worktree"),
                WorktreeAction::Create { path, branch } => {
                    if *success {
                        let mut s = prefixed("已创建 worktree: ", path.as_str());
                        s.append(" (分支: ");
                        s.append(branch.as_str());
                        s.append(")");
                        ToolResult::make(true, s, "worktree")
                    } else {
                        ToolResult::make(false, utf8_lossy(stderr.as_slice()), "worktree")
                    }
                },
                WorktreeAction::Delete { target } => {
                    if *success {
                        ToolResult::make(true, prefixed("已删除 worktree: ", target.as_str()), "worktree")
                    } else {
                        ToolResult::make(false, utf8_lossy(stderr.as_slice()), "worktree")
                    }
                },
            },
        }
    }
}

} // verus!
