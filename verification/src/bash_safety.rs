//! Screening of shell commands before the agent runs them: commands that
//! destroy data or the system are blocked, commands with wide effects are
//! flagged for caution.
use vstd::prelude::*;

use crate::text::{
    chars_of, contains_chars, has_infix, has_prefix, is_whitespace, lowercase, occurs_at,
    occurs_at_exec, owned, skip_ws_from, starts_with_chars, str_eq, trim, trim_spec,
};

verus! {

/// Risk level of a command.
#[derive(Debug, Clone, Copy, PartialEq, Eq, Structural)]
pub enum RiskLevel {
    /// May run without confirmation.
    Safe,
    /// Needs the user's attention.
    Caution,
    /// Refused outright.
    Blocked,
}

/// The outcome of screening one command.
#[derive(Debug)]
pub struct SafetyVerdict {
    pub level: RiskLevel,
    pub reason: String,
}

/// Command words that are refused (delete, disk, system, raw disk writes,
/// registry writes and system-critical tools).
pub open spec fn blocked_list() -> Seq<Seq<char>> {
    seq![
        "rm"@, "rmdir"@, "del"@, "erase"@, "rd"@,
        "format"@, "fdisk"@, "diskpart"@,
        "shutdown"@, "reboot"@, "restart"@, "halt"@,
        "init"@, "poweroff"@,
        "dd"@, "mkfs"@, "mkswap"@,
        "reg delete"@, "reg add"@,
        "cipher"@, "sfc"@, "bcdedit"@,
    ]
}

/// Command words that call for caution (permissions, process termination,
/// user management, moves and renames, downloads, registry reads, services).
pub open spec fn caution_list() -> Seq<Seq<char>> {
    seq![
        "chmod"@, "chown"@, "attrib"@,
        "taskkill"@, "kill"@, "pkill"@,
        "net user"@, "net localgroup"@,
        "wmic"@, "powershell remove-item"@,
        "takeown"@, "icacls"@,
        "move"@, "ren"@, "rename"@,
        "curl"@, "wget"@, "iwr"@,
        "reg query"@, "regedit"@,
        "sc"@, "net start"@, "net stop"@,
    ]
}

/// `w` surrounded by single spaces.
pub open spec fn padded(w: Seq<char>) -> Seq<char> {
    seq![' '] + w + seq![' ']
}

/// Characters that end one shell command and start the next (`;`, `&`,
/// `|`, a line break).
pub open spec fn is_separator(c: char) -> bool {
    c == ';' || c == '&' || c == '|' || c == '\n'
}

/// `w` starts a command chained after a separator: some separator is
/// followed, after any whitespace, by `w`.
pub open spec fn chained(lower: Seq<char>, w: Seq<char>) -> bool {
    exists|i: int|
        0 <= i < lower.len() && is_separator(#[trigger] lower[i]) && occurs_at(
            lower,
            w,
            skip_ws_from(lower, i + 1),
        )
}

/// The (lower-cased, trimmed) command starts with `w`, holds `w` as a
/// space-delimited word, or chains a command that starts with `w`.
pub open spec fn hits(lower: Seq<char>, w: Seq<char>) -> bool {
    has_prefix(lower, w) || has_infix(lower, padded(w)) || chained(lower, w)
}

/// Index of the first word of `list`, at or after `i`, that the command hits.
pub open spec fn first_hit(lower: Seq<char>, list: Seq<Seq<char>>, i: int) -> Option<int>
    decreases list.len() - i,
{
    if i < 0 || i >= list.len() {
        None
    } else if hits(lower, list[i]) {
        Some(i)
    } else {
        first_hit(lower, list, i + 1)
    }
}

/// Explanation attached to a blocked command word.
pub open spec fn blocked_desc_spec(w: Seq<char>) -> Seq<char> {
    if w == "rm"@ || w == "rmdir"@ || w == "del"@ {
        "删除操作被拦截"@
    } else if w == "format"@ || w == "fdisk"@ {
        "磁盘操作被拦截"@
    } else if w == "shutdown"@ || w == "reboot"@ {
        "系统操作被拦截"@
    } else if w == "dd"@ {
        "底层磁盘写入被拦截"@
    } else {
        "危险命令被拦截"@
    }
}

/// The form of a command that screening looks at: trimmed, then lower-cased.
pub open spec fn screened_form(command: Seq<char>) -> Seq<char> {
    lowercase(trim_spec(command))
}

/// Level and reason that screening gives a command.
pub open spec fn verdict_spec(command: Seq<char>) -> (RiskLevel, Seq<char>) {
    let lower = screened_form(command);
    if lower.len() == 0 {
        (RiskLevel::Safe, Seq::empty())
    } else if first_hit(lower, blocked_list(), 0) is Some {
        let i = first_hit(lower, blocked_list(), 0)->0;
        (
            RiskLevel::Blocked,
            "命令 '"@ + command + "' 被拦截："@ + blocked_desc_spec(blocked_list()[i]),
        )
    } else if first_hit(lower, caution_list(), 0) is Some {
        let i = first_hit(lower, caution_list(), 0)->0;
        (RiskLevel::Caution, "命令 '"@ + command + "' 包含 "@ + caution_list()[i] + "，请注意影响"@)
    } else if has_infix(lower, "rm -rf"@) || has_infix(lower, "rm -r"@) {
        (RiskLevel::Caution, "递归删除操作，请确认"@)
    } else if has_infix(lower, ">"@) && has_infix(lower, "format"@) {
        (RiskLevel::Blocked, "发现格式化命令重定向"@)
    } else {
        (RiskLevel::Safe, Seq::empty())
    }
}

fn blocked_word(i: usize) -> (w: &'static str)
    requires
        i < 22,
    ensures
        w@ == blocked_list()[i as int],
{
    match i {
        0 => "rm",
        1 => "rmdir",
        2 => "del",
        3 => "erase",
        4 => "rd",
        5 => "format",
        6 => "fdisk",
        7 => "diskpart",
        8 => "shutdown",
        9 => "reboot",
        10 => "restart",
        11 => "halt",
        12 => "init",
        13 => "poweroff",
        14 => "dd",
        15 => "mkfs",
        16 => "mkswap",
        17 => "reg delete",
        18 => "reg add",
        19 => "cipher",
        20 => "sfc",
        _ => "bcdedit",
    }
}

fn caution_word(i: usize) -> (w: &'static str)
    requires
        i < 23,
    ensures
        w@ == caution_list()[i as int],
{
    match i {
        0 => "chmod",
        1 => "chown",
        2 => "attrib",
        3 => "taskkill",
        4 => "kill",
        5 => "pkill",
        6 => "net user",
        7 => "net localgroup",
        8 => "wmic",
        9 => "powershell remove-item",
        10 => "takeown",
        11 => "icacls",
        12 => "move",
        13 => "ren",
        14 => "rename",
        15 => "curl",
        16 => "wget",
        17 => "iwr",
        18 => "reg query",
        19 => "regedit",
        20 => "sc",
        21 => "net start",
        _ => "net stop",
    }
}

/// Whether the screened command `lower` hits the word `w`.
fn hits_exec(lower: &Vec<char>, w: &str) -> (b: bool)
    ensures
        b == hits(lower@, w@),
{
    let wv = chars_of(w);
    if starts_with_chars(lower, &wv) {
        return true;
    }
    let mut p: Vec<char> = Vec::new();
    p.push(' ');
    let mut k: usize = 0;
    while k < wv.len()
        invariant
            k <= wv.len(),
            p@ == seq![' '] + wv@.take(k as int),
        decreases wv.len() - k,
    {
        p.push(wv[k]);
        assert(wv@.take(k + 1) == wv@.take(k as int).push(wv@[k as int]));
        k = k + 1;
    }
    p.push(' ');
    assert(wv@.take(wv@.len() as int) == wv@);
    assert(p@ =~= padded(w@));
    if contains_chars(lower, &p) {
        return true;
    }
    let mut i: usize = 0;
    while i < lower.len()
        invariant
            i <= lower@.len(),
            wv@ == w@,
            forall|k: int|
                0 <= k < i ==> !(is_separator(#[trigger] lower@[k]) && occurs_at(
                    lower@,
                    w@,
                    skip_ws_from(lower@, k + 1),
                )),
        decreases lower@.len() - i,
    {
        let c = lower[i];
        if c == ';' || c == '&' || c == '|' || c == '\n' {
            let j = skip_ws_exec(lower, i + 1);
            if occurs_at_exec(lower, &wv, j) {
                assert(is_separator(lower@[i as int]));
                return true;
            }
        }
        i = i + 1;
    }
    false
}

/// Index of the first non-whitespace character of `v` at or after `i`.
fn skip_ws_exec(v: &Vec<char>, i: usize) -> (j: usize)
    requires
        i <= v@.len(),
    ensures
        j == skip_ws_from(v@, i as int),
        j <= v@.len(),
{
    let mut j = i;
    while j < v.len() && is_whitespace(v[j])
        invariant
            i <= j <= v@.len(),
            skip_ws_from(v@, j as int) == skip_ws_from(v@, i as int),
        decreases v@.len() - j,
    {
        j = j + 1;
    }
    j
}

/// Explanation for a blocked command word.
pub fn blocked_desc(cmd: &str) -> (d: &'static str)
    ensures
        d@ == blocked_desc_spec(cmd@),
{
    if str_eq(cmd, "rm") || str_eq(cmd, "rmdir") || str_eq(cmd, "del") {
        "删除操作被拦截"
    } else if str_eq(cmd, "format") || str_eq(cmd, "fdisk") {
        "磁盘操作被拦截"
    } else if str_eq(cmd, "shutdown") || str_eq(cmd, "reboot") {
        "系统操作被拦截"
    } else if str_eq(cmd, "dd") {
        "底层磁盘写入被拦截"
    } else {
        "危险命令被拦截"
    }
}

/// Screens a command: blank commands are safe; a blocked word at the start,
/// as a space-delimited word or at the start of a chained command blocks it; else a caution word flags it;
/// else recursive deletion flags it; else a redirect together with
/// `format` blocks it; anything else is safe. Words are matched on the
/// trimmed, lower-cased command.
pub fn validate(command: &str) -> (v: SafetyVerdict)
    ensures
        (v.level, v.reason@) == verdict_spec(command@),
{
    let trimmed = trim(command);
    let cmd_lower = trimmed.as_str().to_lowercase();
    let lower = chars_of(cmd_lower.as_str());
    let ghost lw = screened_form(command@);
    assert(lower@ == lw);
    if lower.len() == 0 {
        return SafetyVerdict { level: RiskLevel::Safe, reason: String::new() };
    }
    let mut i: usize = 0;
    while i < 22
        invariant
            i <= 22,
            lower@ == lw,
            lw == screened_form(command@),
            lw.len() > 0,
            first_hit(lw, blocked_list(), i as int) == first_hit(lw, blocked_list(), 0),
        decreases 22 - i,
    {
        let w = blocked_word(i);
        if hits_exec(&lower, w) {
            assert(first_hit(lw, blocked_list(), i as int) == Some(i as int));
            let mut reason = String::new();
            reason.append("命令 '");
            reason.append(command);
            reason.append("' 被拦截：");
            reason.append(blocked_desc(w));
            return SafetyVerdict { level: RiskLevel::Blocked, reason };
        }
        i = i + 1;
    }
    let mut j: usize = 0;
    while j < 23
        invariant
            j <= 23,
            lower@ == lw,
            lw == screened_form(command@),
            lw.len() > 0,
            first_hit(lw, blocked_list(), 0) is None,
            first_hit(lw, caution_list(), j as int) == first_hit(lw, caution_list(), 0),
        decreases 23 - j,
    {
        let w = caution_word(j);
        if hits_exec(&lower, w) {
            assert(first_hit(lw, caution_list(), j as int) == Some(j as int));
            let mut reason = String::new();
            reason.append("命令 '");
            reason.append(command);
            reason.append("' 包含 ");
            reason.append(w);
            reason.append("，请注意影响");
            return SafetyVerdict { level: RiskLevel::Caution, reason };
        }
        j = j + 1;
    }
    let rm_rf = chars_of("rm -rf");
    let rm_r = chars_of("rm -r");
    if contains_chars(&lower, &rm_rf) || contains_chars(&lower, &rm_r) {
        return SafetyVerdict { level: RiskLevel::Caution, reason: owned("递归删除操作，请确认") };
    }
    let gt = chars_of(">");
    let fmt = chars_of("format");
    if contains_chars(&lower, &gt) && contains_chars(&lower, &fmt) {
        return SafetyVerdict { level: RiskLevel::Blocked, reason: owned("发现格式化命令重定向") };
    }
    SafetyVerdict { level: RiskLevel::Safe, reason: String::new() }
}

/// A command whose screened form is empty (blank or whitespace only) is
/// safe, with no reason given.
pub proof fn lemma_blank_command_is_safe(command: Seq<char>)
    requires
        screened_form(command).len() == 0,
    ensures
        verdict_spec(command) == (RiskLevel::Safe, Seq::<char>::empty()),
{
}

/// A command is safe exactly when screening gives no reason: every refusal
/// and every caution comes with an explanation.
pub proof fn lemma_safe_iff_no_reason(command: Seq<char>)
    ensures
        (verdict_spec(command).0 == RiskLevel::Safe) <==> verdict_spec(command).1.len() == 0,
{
    reveal_strlit("命令 '");
    reveal_strlit("递归删除操作，请确认");
    reveal_strlit("发现格式化命令重定向");
}

/// Any command whose screened form starts with a blocked word, or holds one
/// as a space-delimited word, is blocked, whatever else it contains.
pub proof fn lemma_blocked_word_blocks(command: Seq<char>, k: int)
    requires
        0 <= k < blocked_list().len(),
        hits(screened_form(command), blocked_list()[k]),
    ensures
        verdict_spec(command).0 == RiskLevel::Blocked,
{
    let lower = screened_form(command);
    lemma_blocked_words_nonempty(k);
    if lower.len() == 0 {
        assert(padded(blocked_list()[k]).len() > lower.len());
    }
    lemma_first_hit_found(lower, blocked_list(), 0, k);
}

/// Where each refused command word stands in the refused list.
proof fn lemma_refused_word_listed(w: Seq<char>) -> (k: int)
    requires
        w == "rm"@ || w == "rmdir"@ || w == "del"@ || w == "erase"@ || w == "rd"@ ||
            w == "format"@ || w == "fdisk"@ || w == "diskpart"@ || w == "shutdown"@ ||
            w == "reboot"@ || w == "restart"@ || w == "halt"@ || w == "init"@ ||
            w == "poweroff"@ || w == "dd"@ || w == "mkfs"@ || w == "mkswap"@ ||
            w == "reg delete"@ || w == "reg add"@ || w == "cipher"@ || w == "sfc"@ ||
            w == "bcdedit"@,
    ensures
        0 <= k < blocked_list().len(),
        blocked_list()[k] == w,
{
    if w == "rm"@ {
        0
    } else if w == "rmdir"@ {
        1
    } else if w == "del"@ {
        2
    } else if w == "erase"@ {
        3
    } else if w == "rd"@ {
        4
    } else if w == "format"@ {
        5
    } else if w == "fdisk"@ {
        6
    } else if w == "diskpart"@ {
        7
    } else if w == "shutdown"@ {
        8
    } else if w == "reboot"@ {
        9
    } else if w == "restart"@ {
        10
    } else if w == "halt"@ {
        11
    } else if w == "init"@ {
        12
    } else if w == "poweroff"@ {
        13
    } else if w == "dd"@ {
        14
    } else if w == "mkfs"@ {
        15
    } else if w == "mkswap"@ {
        16
    } else if w == "reg delete"@ {
        17
    } else if w == "reg add"@ {
        18
    } else if w == "cipher"@ {
        19
    } else if w == "sfc"@ {
        20
    } else {
        21
    }
}

/// The refused command words are rm, rmdir, del, erase, rd, format, fdisk,
/// diskpart, shutdown, reboot, restart, halt, init, poweroff, dd, mkfs,
/// mkswap, reg delete, reg add, cipher, sfc and bcdedit: a command whose
/// trimmed, lower-cased form starts with any of them is blocked, and the
/// reason names the command and says why it was refused.
pub proof fn lemma_refused_words_block(command: Seq<char>, w: Seq<char>)
    requires
        w == "rm"@ || w == "rmdir"@ || w == "del"@ || w == "erase"@ || w == "rd"@ ||
            w == "format"@ || w == "fdisk"@ || w == "diskpart"@ || w == "shutdown"@ ||
            w == "reboot"@ || w == "restart"@ || w == "halt"@ || w == "init"@ ||
            w == "poweroff"@ || w == "dd"@ || w == "mkfs"@ || w == "mkswap"@ ||
            w == "reg delete"@ || w == "reg add"@ || w == "cipher"@ || w == "sfc"@ ||
            w == "bcdedit"@,
        has_prefix(screened_form(command), w),
    ensures
        verdict_spec(command).0 == RiskLevel::Blocked,
        exists|d: Seq<char>|
            (d == "删除操作被拦截"@ || d == "磁盘操作被拦截"@ || d == "系统操作被拦截"@ || d
                == "底层磁盘写入被拦截"@ || d == "危险命令被拦截"@) && verdict_spec(command).1 == "命令 '"@
                + command + "' 被拦截："@ + d,
{
    let k = lemma_refused_word_listed(w);
    let lower = screened_form(command);
    lemma_blocked_words_nonempty(k);
    assert(hits(lower, blocked_list()[k]));
    lemma_blocked_word_blocks(command, k);
    lemma_first_hit_found(lower, blocked_list(), 0, k);
    let i = first_hit(lower, blocked_list(), 0)->0;
    let d = blocked_desc_spec(blocked_list()[i]);
    assert(verdict_spec(command).1 == "命令 '"@ + command + "' 被拦截："@ + d);
}

proof fn lemma_blocked_words_nonempty(k: int)
    requires
        0 <= k < blocked_list().len(),
    ensures
        blocked_list()[k].len() > 0,
{
    reveal_strlit("rm");
    reveal_strlit("rmdir");
    reveal_strlit("del");
    reveal_strlit("erase");
    reveal_strlit("rd");
    reveal_strlit("format");
    reveal_strlit("fdisk");
    reveal_strlit("diskpart");
    reveal_strlit("shutdown");
    reveal_strlit("reboot");
    reveal_strlit("restart");
    reveal_strlit("halt");
    reveal_strlit("init");
    reveal_strlit("poweroff");
    reveal_strlit("dd");
    reveal_strlit("mkfs");
    reveal_strlit("mkswap");
    reveal_strlit("reg delete");
    reveal_strlit("reg add");
    reveal_strlit("cipher");
    reveal_strlit("sfc");
    reveal_strlit("bcdedit");
}

/// Screening looks at the command only through its trimmed, lower-cased
/// form: two commands with the same screened form get the same level.
pub proof fn lemma_level_depends_on_screened_form(a: Seq<char>, b: Seq<char>)
    requires
        screened_form(a) == screened_form(b),
    ensures
        verdict_spec(a).0 == verdict_spec(b).0,
{
}

/// When some word of `list` from index `i` on is hit, the first hit exists
/// and is at most that index.
proof fn lemma_first_hit_found(lower: Seq<char>, list: Seq<Seq<char>>, i: int, k: int)
    requires
        0 <= i <= k < list.len(),
        hits(lower, list[k]),
    ensures
        first_hit(lower, list, i) is Some,
        i <= first_hit(lower, list, i)->0 <= k,
    decreases k - i,
{
    if !hits(lower, list[i]) {
        lemma_first_hit_found(lower, list, i + 1, k);
    }
}

} // verus!
