//! The agent's tools: their identities, the registry that holds them, and
//! for each tool the decision and the report text that follow from what its
//! file, process or network work returned.
use vstd::prelude::*;

use crate::text::{
    chars_of, decimal, join, owned, replace_count, replace_from, count_from, has_infix,
    str_contains, take_chars, u64_to_decimal, views, join_strings,
};

verus! {

/// What a tool run reports back to the agent.
#[derive(Debug, Clone)]
pub struct ToolResult {
    pub success: bool,
    pub output: String,
    pub tool_name: String,
}

impl ToolResult {
    /// The result has the given success flag, output text and tool name.
    pub open spec fn shows(self, success: bool, output: Seq<char>, tool: Seq<char>) -> bool {
        self.success == success && self.output@ == output && self.tool_name@ == tool
    }

    /// A result built from its parts.
    pub fn make(success: bool, output: String, tool: &str) -> (r: ToolResult)
        ensures
            r.shows(success, output@, tool@),
    {
        ToolResult { success, output, tool_name: owned(tool) }
    }
}

/// `prefix` followed by `detail`, as a string.
pub fn prefixed(prefix: &str, detail: &str) -> (r: String)
    ensures
        r@ == prefix@ + detail@,
{
    let mut r = owned(prefix);
    r.append(detail);
    r
}

/// Report text for a missing argument.
pub open spec fn missing_arg_text(arg: Seq<char>) -> Seq<char> {
    "缺少参数: "@ + arg
}

/// Failed result for a missing argument.
pub fn missing_arg(tool: &str, arg: &str) -> (r: ToolResult)
    ensures
        r.shows(false, missing_arg_text(arg@), tool@),
{
    ToolResult::make(false, prefixed("缺少参数: ", arg), tool)
}

/// The tools the agent knows.
#[derive(Debug, Clone, Copy, PartialEq, Eq, Structural)]
pub enum ToolKind {
    Read,
    Write,
    Edit,
    Glob,
    Grep,
    Bash,
    CodeSearch,
    SubAgent,
    WebSearch,
    WebFetch,
    Worktree,
}

/// Description of the `read` tool (each tool's description and argument
/// schema below is shown to the model).
pub const READ_DESCRIPTION: &'static str = "读取文件内容。参数：path（文件路径，相对或绝对）";
pub const WRITE_DESCRIPTION: &'static str = "写入文件（新建或覆盖）。参数：path（路径），content（内容）";
pub const EDIT_DESCRIPTION: &'static str = "精确替换文件中的文本。参数：path（路径），old（原文本），new（新文本）";
pub const GLOB_DESCRIPTION: &'static str = "按通配符模式搜索文件名。参数：pattern（glob 模式，如 **/*.rs）";
pub const GREP_DESCRIPTION: &'static str = "在文件中搜索文本内容。参数：pattern（搜索模式），path（可选，限定搜索路径）";
pub const BASH_DESCRIPTION: &'static str = "在 Windows 终端中执行命令。支持 PowerShell 和 cmd 命令。参数：command（要执行的命令），timeout（可选，超时秒数，默认 30）";
pub const CODE_SEARCH_DESCRIPTION: &'static str = "搜索代码中的符号（函数、类、结构体等）。参数：query（符号名称关键词），path（可选，限定目录）";
pub const SUB_AGENT_DESCRIPTION: &'static str = "创建子 Agent 执行独立任务。参数：task（任务描述），context（可选上下文）";
pub const WEB_SEARCH_DESCRIPTION: &'static str = "搜索互联网。参数：query（搜索关键词），max_results（可选，返回结果数，默认5）";
pub const WEB_FETCH_DESCRIPTION: &'static str = "获取网页内容。参数：url（网页链接）";
pub const WORKTREE_DESCRIPTION: &'static str = "管理 Git Worktree。参数：action（create/delete/list），branch（分支名），path（可选，worktree 路径）";
pub const READ_PARAMETERS: &'static str = r#"{"type":"object","properties":{"path":{"type":"string","description":"文件路径"}},"required":["path"]}"#;
pub const WRITE_PARAMETERS: &'static str = r#"{"type":"object","properties":{"path":{"type":"string","description":"文件路径"},"content":{"type":"string","description":"文件内容"}},"required":["path","content"]}"#;
pub const EDIT_PARAMETERS: &'static str = r#"{"type":"object","properties":{"path":{"type":"string","description":"文件路径"},"old":{"type":"string","description":"待替换的原文（必须完全匹配）"},"new":{"type":"string","description":"替换后的文本"}},"required":["path","old","new"]}"#;
pub const GLOB_PARAMETERS: &'static str = r#"{"type":"object","properties":{"pattern":{"type":"string","description":"glob 模式，如 **/*.rs, src/**/*.ts"}},"required":["pattern"]}"#;
pub const GREP_PARAMETERS: &'static str = r#"{"type":"object","properties":{"pattern":{"type":"string","description":"搜索文本（支持正则）"},"path":{"type":"string","description":"限定搜索路径（可选）"}},"required":["pattern"]}"#;
pub const BASH_PARAMETERS: &'static str = r#"{"type":"object","properties":{"command":{"type":"string","description":"要执行的命令（PowerShell 语法）"},"timeout":{"type":"integer","description":"超时秒数，默认 30","default":30}},"required":["command"]}"#;
pub const CODE_SEARCH_PARAMETERS: &'static str = r#"{"type":"object","properties":{"query":{"type":"string","description":"符号名称关键词"},"kind":{"type":"string","description":"可选过滤：function/class/struct/enum/trait/const"},"path":{"type":"string","description":"可选限定目录"}},"required":["query"]}"#;
pub const SUB_AGENT_PARAMETERS: &'static str = r#"{"type":"object","properties":{"task":{"type":"string","description":"子 Agent 要完成的任务"},"context":{"type":"string","description":"附加上下文"}},"required":["task"]}"#;
pub const WEB_SEARCH_PARAMETERS: &'static str = r#"{"type":"object","properties":{"query":{"type":"string","description":"搜索关键词"},"max_results":{"type":"integer","description":"返回结果数量，默认5","default":5}},"required":["query"]}"#;
pub const WEB_FETCH_PARAMETERS: &'static str = r#"{"type":"object","properties":{"url":{"type":"string","description":"网页 URL"}},"required":["url"]}"#;
pub const WORKTREE_PARAMETERS: &'static str = r#"{"type":"object","properties":{"action":{"type":"string","enum":["list","create","delete"],"description":"操作类型"},"branch":{"type":"string","description":"分支名（create 时需要）"},"path":{"type":"string","description":"worktree 路径"}},"required":["action"]}"#;

impl ToolKind {
    /// Name under which the model calls the tool.
    pub open spec fn name_spec(self) -> Seq<char> {
        match self {
            ToolKind::Read => "read"@,
            ToolKind::Write => "write"@,
            ToolKind::Edit => "edit"@,
            ToolKind::Glob => "glob"@,
            ToolKind::Grep => "grep"@,
            ToolKind::Bash => "bash"@,
            ToolKind::CodeSearch => "code_search"@,
            ToolKind::SubAgent => "sub_agent"@,
            ToolKind::WebSearch => "web_search"@,
            ToolKind::WebFetch => "web_fetch"@,
            ToolKind::Worktree => "worktree"@,
        }
    }

    /// Read-only tools run without approval.
    pub open spec fn read_only_spec(self) -> bool {
        match self {
            ToolKind::Read | ToolKind::Glob | ToolKind::Grep | ToolKind::CodeSearch
            | ToolKind::WebSearch | ToolKind::WebFetch => true,
            _ => false,
        }
    }

    /// Name under which the model calls the tool.
    pub fn name(&self) -> (r: &'static str)
        ensures
            r@ == self.name_spec(),
    {
        match self {
            ToolKind::Read => "read",
            ToolKind::Write => "write",
            ToolKind::Edit => "edit",
            ToolKind::Glob => "glob",
            ToolKind::Grep => "grep",
            ToolKind::Bash => "bash",
            ToolKind::CodeSearch => "code_search",
            ToolKind::SubAgent => "sub_agent",
            ToolKind::WebSearch => "web_search",
            ToolKind::WebFetch => "web_fetch",
            ToolKind::Worktree => "worktree",
        }
    }

    /// Whether the tool only reads (and so runs without approval).
    pub fn is_read_only(&self) -> (r: bool)
        ensures
            r == self.read_only_spec(),
    {
        match self {
            ToolKind::Read | ToolKind::Glob | ToolKind::Grep | ToolKind::CodeSearch
            | ToolKind::WebSearch | ToolKind::WebFetch => true,
            _ => false,
        }
    }

    /// Description shown to the model.
    pub open spec fn description_spec(self) -> Seq<char> {
        match self {
            ToolKind::Read => READ_DESCRIPTION@,
            ToolKind::Write => WRITE_DESCRIPTION@,
            ToolKind::Edit => EDIT_DESCRIPTION@,
            ToolKind::Glob => GLOB_DESCRIPTION@,
            ToolKind::Grep => GREP_DESCRIPTION@,
            ToolKind::Bash => BASH_DESCRIPTION@,
            ToolKind::CodeSearch => CODE_SEARCH_DESCRIPTION@,
            ToolKind::SubAgent => SUB_AGENT_DESCRIPTION@,
            ToolKind::WebSearch => WEB_SEARCH_DESCRIPTION@,
            ToolKind::WebFetch => WEB_FETCH_DESCRIPTION@,
            ToolKind::Worktree => WORKTREE_DESCRIPTION@,
        }
    }

    /// JSON Schema of the tool's arguments, as JSON text.
    pub open spec fn parameters_spec(self) -> Seq<char> {
        match self {
            ToolKind::Read => READ_PARAMETERS@,
            ToolKind::Write => WRITE_PARAMETERS@,
            ToolKind::Edit => EDIT_PARAMETERS@,
            ToolKind::Glob => GLOB_PARAMETERS@,
            ToolKind::Grep => GREP_PARAMETERS@,
            ToolKind::Bash => BASH_PARAMETERS@,
            ToolKind::CodeSearch => CODE_SEARCH_PARAMETERS@,
            ToolKind::SubAgent => SUB_AGENT_PARAMETERS@,
            ToolKind::WebSearch => WEB_SEARCH_PARAMETERS@,
            ToolKind::WebFetch => WEB_FETCH_PARAMETERS@,
            ToolKind::Worktree => WORKTREE_PARAMETERS@,
        }
    }

    /// Description shown to the model.
    pub fn description(&self) -> (r: &'static str)
        ensures
            r@ == self.description_spec(),
    {
        match self {
            ToolKind::Read => READ_DESCRIPTION,
            ToolKind::Write => WRITE_DESCRIPTION,
            ToolKind::Edit => EDIT_DESCRIPTION,
            ToolKind::Glob => GLOB_DESCRIPTION,
            ToolKind::Grep => GREP_DESCRIPTION,
            ToolKind::Bash => BASH_DESCRIPTION,
            ToolKind::CodeSearch => CODE_SEARCH_DESCRIPTION,
            ToolKind::SubAgent => SUB_AGENT_DESCRIPTION,
            ToolKind::WebSearch => WEB_SEARCH_DESCRIPTION,
            ToolKind::WebFetch => WEB_FETCH_DESCRIPTION,
            ToolKind::Worktree => WORKTREE_DESCRIPTION,
        }
    }

    /// JSON Schema of the tool's arguments, as JSON text.
    pub fn parameters_json(&self) -> (r: &'static str)
        ensures
            r@ == self.parameters_spec(),
    {
        match self {
            ToolKind::Read => READ_PARAMETERS,
            ToolKind::Write => WRITE_PARAMETERS,
            ToolKind::Edit => EDIT_PARAMETERS,
            ToolKind::Glob => GLOB_PARAMETERS,
            ToolKind::Grep => GREP_PARAMETERS,
            ToolKind::Bash => BASH_PARAMETERS,
            ToolKind::CodeSearch => CODE_SEARCH_PARAMETERS,
            ToolKind::SubAgent => SUB_AGENT_PARAMETERS,
            ToolKind::WebSearch => WEB_SEARCH_PARAMETERS,
            ToolKind::WebFetch => WEB_FETCH_PARAMETERS,
            ToolKind::Worktree => WORKTREE_PARAMETERS,
        }
    }
}

/// A registered tool: a built-in one, or a tool supplied by the embedding
/// application, known here by its slot in the registry's list of names.
#[derive(Debug, Clone, Copy, PartialEq, Eq, Structural)]
pub enum ToolEntry {
    Builtin(ToolKind),
    Custom(usize),
}

/// Name of a registered tool, given the names of the custom tools.
pub open spec fn entry_name(names: Seq<Seq<char>>, e: ToolEntry) -> Seq<char> {
    match e {
        ToolEntry::Builtin(k) => k.name_spec(),
        ToolEntry::Custom(slot) => if slot < names.len() {
            names[slot as int]
        } else {
            Seq::empty()
        },
    }
}

/// Index of the first tool in `tools`, from `i` on, with the given name.
pub open spec fn find_index(tools: Seq<ToolEntry>, names: Seq<Seq<char>>, name: Seq<char>, i: int) -> Option<
    int,
>
    decreases tools.len() - i,
{
    if i < 0 || i >= tools.len() {
        None
    } else if entry_name(names, tools[i]) == name {
        Some(i)
    } else {
        find_index(tools, names, name, i + 1)
    }
}

/// The first registered tool with the given name.
pub open spec fn find_spec(reg: (Seq<ToolEntry>, Seq<Seq<char>>), name: Seq<char>) -> Option<ToolEntry> {
    match find_index(reg.0, reg.1, name, 0) {
        Some(i) => Some(reg.0[i]),
        None => None,
    }
}

/// The tools registered by default, in order.
pub open spec fn default_tools() -> Seq<ToolEntry> {
    seq![
        ToolEntry::Builtin(ToolKind::Read),
        ToolEntry::Builtin(ToolKind::Write),
        ToolEntry::Builtin(ToolKind::Edit),
        ToolEntry::Builtin(ToolKind::Glob),
        ToolEntry::Builtin(ToolKind::Grep),
        ToolEntry::Builtin(ToolKind::Bash),
    ]
}

/// The registry of tools the agent may call, in registration order, with
/// the names of the custom tools by slot.
pub struct ToolRegistry {
    tools: Vec<ToolEntry>,
    custom_names: Vec<String>,
}

impl View for ToolRegistry {
    type V = (Seq<ToolEntry>, Seq<Seq<char>>);

    closed spec fn view(&self) -> (Seq<ToolEntry>, Seq<Seq<char>>) {
        (self.tools@, self.custom_names@.map_values(|n: String| n@))
    }
}

impl ToolRegistry {
    /// Every custom entry has a name.
    #[verifier::type_invariant]
    spec fn slots_named(self) -> bool {
        forall|i: int|
            0 <= i < self.tools@.len() ==> (#[trigger] self.tools@[i] matches ToolEntry::Custom(s)
                ==> s < self.custom_names@.len())
    }

    /// An empty registry.
    pub fn new() -> (r: ToolRegistry)
        ensures
            r@ == (Seq::<ToolEntry>::empty(), Seq::<Seq<char>>::empty()),
    {
        let r = ToolRegistry { tools: Vec::new(), custom_names: Vec::new() };
        assert(r@.1 =~= Seq::<Seq<char>>::empty());
        r
    }

    /// Adds a built-in tool after those already registered.
    pub fn register(&mut self, tool: ToolKind)
        ensures
            final(self)@ == (old(self)@.0.push(ToolEntry::Builtin(tool)), old(self)@.1),
    {
        proof {
            use_type_invariant(&*self);
        }
        let mut tools: Vec<ToolEntry> = Vec::new();
        std::mem::swap(&mut tools, &mut self.tools);
        let ghost before = tools@;
        tools.push(ToolEntry::Builtin(tool));
        assert forall|i: int| 0 <= i < tools@.len() implies (#[trigger] tools@[i] matches ToolEntry::Custom(s)
            ==> s < self.custom_names@.len()) by {
            if i < before.len() {
                assert(tools@[i] == before[i]);
            }
        }
        self.tools = tools;
    }

    /// Adds a custom tool with the given name after those already
    /// registered; its slot is the number of custom tools before it.
    pub fn register_custom(&mut self, name: String) -> (slot: usize)
        ensures
            slot == old(self)@.1.len(),
            final(self)@ == (old(self)@.0.push(ToolEntry::Custom(slot)), old(self)@.1.push(name@)),
    {
        proof {
            use_type_invariant(&*self);
        }
        let mut tools: Vec<ToolEntry> = Vec::new();
        std::mem::swap(&mut tools, &mut self.tools);
        let mut names: Vec<String> = Vec::new();
        std::mem::swap(&mut names, &mut self.custom_names);
        let ghost before = tools@;
        let ghost old_names = names@;
        let slot = names.len();
        names.push(name);
        tools.push(ToolEntry::Custom(slot));
        assert forall|i: int| 0 <= i < tools@.len() implies (#[trigger] tools@[i] matches ToolEntry::Custom(s)
            ==> s < names@.len()) by {
            if i < before.len() {
                assert(tools@[i] == before[i]);
            }
        }
        self.custom_names = names;
        self.tools = tools;
        assert(self.custom_names@.map_values(|n: String| n@) =~= old_names.map_values(|n: String| n@).push(
            name@,
        ));
        slot
    }

    /// All registered tools, in registration order.
    pub fn all(&self) -> (r: &[ToolEntry])
        ensures
            r@ == self@.0,
    {
        self.tools.as_slice()
    }

    /// The name of a registered tool.
    pub fn name_of(&self, e: ToolEntry) -> (r: &str)
        ensures
            r@ == entry_name(self@.1, e),
    {
        match e {
            ToolEntry::Builtin(k) => k.name(),
            ToolEntry::Custom(slot) => if slot < self.custom_names.len() {
                self.custom_names[slot].as_str()
            } else {
                proof {
                    reveal_strlit("");
                }
                ""
            },
        }
    }

    /// The first registered tool with the given name.
    pub fn find(&self, name: &str) -> (r: Option<ToolEntry>)
        ensures
            r == find_spec(self@, name@),
    {
        let mut i: usize = 0;
        while i < self.tools.len()
            invariant
                i <= self.tools@.len(),
                find_index(self@.0, self@.1, name@, i as int) == find_index(self@.0, self@.1, name@, 0),
            decreases self.tools@.len() - i,
        {
            let t = self.tools[i];
            if crate::text::str_eq(self.name_of(t), name) {
                return Some(t);
            }
            i = i + 1;
        }
        None
    }

    /// The default tool set: read, write, edit, glob, grep, bash.
    pub fn default() -> (r: ToolRegistry)
        ensures
            r@ == (default_tools(), Seq::<Seq<char>>::empty()),
    {
        let mut reg = ToolRegistry::new();
        reg.register(ToolKind::Read);
        reg.register(ToolKind::Write);
        reg.register(ToolKind::Edit);
        reg.register(ToolKind::Glob);
        reg.register(ToolKind::Grep);
        reg.register(ToolKind::Bash);
        assert(reg@.0 =~= default_tools());
        reg
    }
}

/// A newly registered tool is found by its name unless an earlier tool has
/// the same name (the custom names stay as they are when a built-in tool is
/// added; a custom tool is added with its name, see
/// `lemma_registered_custom_found`).
pub proof fn lemma_registered_tool_found(tools: Seq<ToolEntry>, names: Seq<Seq<char>>, t: ToolKind)
    requires
        find_index(tools, names, t.name_spec(), 0) is None,
    ensures
        find_spec((tools.push(ToolEntry::Builtin(t)), names), t.name_spec()) == Some(
            ToolEntry::Builtin(t),
        ),
{
    lemma_find_index_push(tools, names, ToolEntry::Builtin(t), 0);
}

/// A newly registered custom tool is found by its name unless an earlier
/// tool has that name (the earlier custom tools keep their names: their slots
/// come before the new one).
pub proof fn lemma_registered_custom_found(tools: Seq<ToolEntry>, names: Seq<Seq<char>>, name: Seq<char>)
    requires
        forall|i: int| 0 <= i < tools.len() ==> (#[trigger] tools[i] matches ToolEntry::Custom(s) ==> s
            < names.len()),
        find_index(tools, names, name, 0) is None,
        names.len() < usize::MAX,
    ensures
        find_spec((tools.push(ToolEntry::Custom(names.len() as usize)), names.push(name)), name) == Some(
            ToolEntry::Custom(names.len() as usize),
        ),
{
    let names2 = names.push(name);
    assert forall|i: int| 0 <= i < tools.len() implies entry_name(names2, #[trigger] tools[i]) == entry_name(
        names,
        tools[i],
    ) by {
        match tools[i] {
            ToolEntry::Custom(s) => {
                assert(names2[s as int] == names[s as int]);
            },
            ToolEntry::Builtin(_) => {},
        }
    }
    lemma_find_index_same_names(tools, names, names2, name, 0);
    assert(entry_name(names2, ToolEntry::Custom(names.len() as usize)) == name);
    lemma_find_index_push(tools, names2, ToolEntry::Custom(names.len() as usize), 0);
}

proof fn lemma_find_index_same_names(
    tools: Seq<ToolEntry>,
    a: Seq<Seq<char>>,
    b: Seq<Seq<char>>,
    name: Seq<char>,
    i: int,
)
    requires
        0 <= i <= tools.len(),
        forall|k: int| 0 <= k < tools.len() ==> entry_name(b, #[trigger] tools[k]) == entry_name(a, tools[k]),
    ensures
        find_index(tools, a, name, i) == find_index(tools, b, name, i),
    decreases tools.len() - i,
{
    if i < tools.len() {
        lemma_find_index_same_names(tools, a, b, name, i + 1);
    }
}

proof fn lemma_find_index_push(tools: Seq<ToolEntry>, names: Seq<Seq<char>>, e: ToolEntry, i: int)
    requires
        0 <= i <= tools.len(),
        find_index(tools, names, entry_name(names, e), i) is None,
    ensures
        find_index(tools.push(e), names, entry_name(names, e), i) == Some(tools.len() as int),
    decreases tools.len() - i,
{
    if i < tools.len() {
        assert(tools.push(e)[i] == tools[i]);
        lemma_find_index_push(tools, names, e, i + 1);
    }
}

/// Count of `c` in `s`.
pub open spec fn count_char(s: Seq<char>, c: char) -> nat
    decreases s.len(),
{
    if s.len() == 0 {
        0
    } else {
        count_char(s.drop_last(), c) + if s.last() == c {
            1nat
        } else {
            0nat
        }
    }
}

proof fn lemma_count_char_le(s: Seq<char>, c: char)
    ensures
        count_char(s, c) <= s.len(),
    decreases s.len(),
{
    if s.len() > 0 {
        lemma_count_char_le(s.drop_last(), c);
    }
}

/// Number of lines of a text (as `str::lines().count()` gives it): one per
/// line break, plus one for a last line without a break.
pub open spec fn line_count(s: Seq<char>) -> nat {
    count_char(s, '\n') + if s.len() > 0 && s.last() != '\n' {
        1nat
    } else {
        0nat
    }
}

/// Number of lines of a text.
pub fn count_lines(s: &str) -> (n: usize)
    ensures
        n == line_count(s@),
{
    let v = chars_of(s);
    let mut n: usize = 0;
    let mut i: usize = 0;
    while i < v.len()
        invariant
            i <= v@.len(),
            n == count_char(v@.take(i as int), '\n'),
            n <= i,
            v.len() == v@.len(),
        decreases v@.len() - i,
    {
        assert(v@.take(i + 1).drop_last() == v@.take(i as int));
        if v[i] == '\n' {
            n = n + 1;
        }
        i = i + 1;
    }
    assert(v@.take(v@.len() as int) == v@);
    if v.len() > 0 && v[v.len() - 1] != '\n' {
        proof {
            lemma_count_char_le(v@.drop_last(), '\n');
        }
        n = n + 1;
    }
    n
}

/// Byte length of the UTF-8 encoding of a text.
pub open spec fn utf8_len(s: Seq<char>) -> nat {
    vstd::utf8::encode_utf8(s).len()
}

/// Marker appended to a preview that was cut.
pub open spec fn cut_marker(s: Seq<char>, limit: nat) -> Seq<char> {
    if utf8_len(s) > limit {
        "\n...(截断)"@
    } else {
        Seq::empty()
    }
}

/// The first `n` characters of `s`.
pub open spec fn prefix_chars(s: Seq<char>, n: nat) -> Seq<char> {
    s.take(if n < s.len() {
        n as int
    } else {
        s.len() as int
    })
}

/// One entry of a directory listing.
pub struct DirEntryInfo {
    pub name: String,
    pub is_dir: bool,
}

/// How an entry appears in a listing: directories get a trailing `/`.
pub open spec fn entry_text(e: DirEntryInfo) -> Seq<char> {
    if e.is_dir {
        e.name@ + "/"@
    } else {
        e.name@
    }
}

/// What the `read` tool's file work came to.
pub enum ReadOutcome {
    MissingPath,
    PathRejected(String),
    NotFound(String),
    Dir(Vec<DirEntryInfo>),
    DirError(String),
    File { display: String, content: String },
    FileError(String),
}

/// Success flag and report of the `read` tool.
pub open spec fn read_report(o: ReadOutcome) -> (bool, Seq<char>) {
    match o {
        ReadOutcome::MissingPath => (false, missing_arg_text("path"@)),
        ReadOutcome::PathRejected(e) => (false, e@),
        ReadOutcome::NotFound(d) => (false, "文件不存在: "@ + d@),
        ReadOutcome::Dir(entries) => (true, join(entries@.map_values(|e: DirEntryInfo| entry_text(e)), "\n"@)),
        ReadOutcome::DirError(e) => (false, "读取目录失败: "@ + e@),
        ReadOutcome::File { display, content } => (
            true,
            display@ + " ("@ + decimal(line_count(content@)) + " 行):\n"@ + prefix_chars(content@, 5000)
                + cut_marker(content@, 5000),
        ),
        ReadOutcome::FileError(e) => (false, "读取文件失败: "@ + e@),
    }
}

/// Report for a file's contents: path, line count, the first 5000
/// characters, and a cut marker when the file is over 5000 bytes.
pub fn file_preview(display: &str, content: &str) -> (r: String)
    ensures
        r@ == display@ + " ("@ + decimal(line_count(content@)) + " 行):\n"@ + prefix_chars(content@, 5000)
            + cut_marker(content@, 5000),
{
    let lines = count_lines(content);
    let mut r = owned(display);
    r.append(" (");
    r.append(u64_to_decimal(lines as u64).as_str());
    r.append(" 行):\n");
    r.append(take_chars(content, 5000).as_str());
    if content.as_bytes().len() > 5000 {
        r.append("\n...(截断)");
    }
    r
}

/// Listing of a directory: one entry per line.
pub fn dir_listing(entries: &Vec<DirEntryInfo>) -> (r: String)
    ensures
        r@ == join(entries@.map_values(|e: DirEntryInfo| entry_text(e)), "\n"@),
{
    let mut lines: Vec<String> = Vec::new();
    let mut i: usize = 0;
    while i < entries.len()
        invariant
            i <= entries@.len(),
            views(lines@) == entries@.take(i as int).map_values(|e: DirEntryInfo| entry_text(e)),
        decreases entries@.len() - i,
    {
        let e = &entries[i];
        let mut line = owned(e.name.as_str());
        if e.is_dir {
            line.append("/");
        }
        let ghost old_lines = lines@;
        lines.push(line);
        assert(views(lines@) =~= views(old_lines).push(line@));
        assert(entries@.take(i + 1).map_values(|e: DirEntryInfo| entry_text(e)) =~= entries@.take(
            i as int,
        ).map_values(|e: DirEntryInfo| entry_text(e)).push(entry_text(entries@[i as int])));
        i = i + 1;
    }
    assert(entries@.take(entries@.len() as int) == entries@);
    join_strings(&lines, "\n")
}

/// The `read` tool.
pub struct ReadTool;

impl ReadTool {
    /// Which tool this is.
    pub fn kind(&self) -> (k: ToolKind)
        ensures
            k == ToolKind::Read,
    {
        ToolKind::Read
    }

    /// Report of a `read` run, from what its file work came to.
    pub fn report(o: &ReadOutcome) -> (r: ToolResult)
        ensures
            r.shows(read_report(*o).0, read_report(*o).1, "read"@),
    {
        match o {
            ReadOutcome::MissingPath => missing_arg("read", "path"),
            ReadOutcome::PathRejected(e) => ToolResult::make(false, owned(e.as_str()), "read"),
            ReadOutcome::NotFound(d) => ToolResult::make(false, prefixed("文件不存在: ", d.as_str()), "read"),
            ReadOutcome::Dir(entries) => ToolResult::make(true, dir_listing(entries), "read"),
            ReadOutcome::DirError(e) => ToolResult::make(false, prefixed("读取目录失败: ", e.as_str()), "read"),
            ReadOutcome::File { display, content } => ToolResult::make(
                true,
                file_preview(display.as_str(), content.as_str()),
                "read",
            ),
            ReadOutcome::FileError(e) => ToolResult::make(false, prefixed("读取文件失败: ", e.as_str()), "read"),
        }
    }
}

/// What the `write` tool's file work came to.
pub enum WriteOutcome {
    MissingPath,
    MissingContent,
    PathRejected(String),
    Written { display: String, content: String },
    WriteError(String),
}

/// Success flag and report of the `write` tool.
pub open spec fn write_report(o: WriteOutcome) -> (bool, Seq<char>) {
    match o {
        WriteOutcome::MissingPath => (false, missing_arg_text("path"@)),
        WriteOutcome::MissingContent => (false, missing_arg_text("content"@)),
        WriteOutcome::PathRejected(e) => (false, e@),
        WriteOutcome::Written { display, content } => (
            true,
            "已写入 "@ + display@ + " ("@ + decimal(utf8_len(content@)) + " 字节)"@,
        ),
        WriteOutcome::WriteError(e) => (false, "写入失败: "@ + e@),
    }
}

/// The `write` tool.
pub struct WriteTool;

impl WriteTool {
    /// Which tool this is.
    pub fn kind(&self) -> (k: ToolKind)
        ensures
            k == ToolKind::Write,
    {
        ToolKind::Write
    }

    /// Report of a `write` run, from what its file work came to.
    pub fn report(o: &WriteOutcome) -> (r: ToolResult)
        ensures
            r.shows(write_report(*o).0, write_report(*o).1, "write"@),
    {
        match o {
            WriteOutcome::MissingPath => missing_arg("write", "path"),
            WriteOutcome::MissingContent => missing_arg("write", "content"),
            WriteOutcome::PathRejected(e) => ToolResult::make(false, owned(e.as_str()), "write"),
            WriteOutcome::Written { display, content } => {
                let mut s = prefixed("已写入 ", display.as_str());
                s.append(" (");
                s.append(u64_to_decimal(content.as_str().as_bytes().len() as u64).as_str());
                s.append(" 字节)");
                ToolResult::make(true, s, "write")
            },
            WriteOutcome::WriteError(e) => ToolResult::make(false, prefixed("写入失败: ", e.as_str()), "write"),
        }
    }
}

/// What the `edit` tool does with a file's contents.
pub enum EditPlan {
    /// The text to replace does not occur: report and leave the file.
    Refuse(ToolResult),
    /// Write the new contents; `count` occurrences were replaced.
    Write { new_content: String, count: usize },
}

/// What the `edit` tool's file work came to.
pub enum EditOutcome {
    PathRejected(String),
    ReadError(String),
    Written { display: String, count: usize },
    WriteError(String),
}

/// Report when the text to replace is not found.
pub open spec fn edit_not_found_text(old: Seq<char>) -> Seq<char> {
    "未找到匹配的文本:\n---\n"@ + old + "\n---\n请提供完整的上下文，确保精确匹配。"@
}

/// Success flag and report of the `edit` tool's file work.
pub open spec fn edit_report(o: EditOutcome) -> (bool, Seq<char>) {
    match o {
        EditOutcome::PathRejected(e) => (false, e@),
        EditOutcome::ReadError(e) => (false, "读取文件失败: "@ + e@),
        EditOutcome::Written { display, count } => (
            true,
            "已替换 "@ + decimal(count as nat) + " 处文本，文件: "@ + display@,
        ),
        EditOutcome::WriteError(e) => (false, "写入失败: "@ + e@),
    }
}

/// The `edit` tool.
pub struct EditTool;

impl EditTool {
    /// Which tool this is.
    pub fn kind(&self) -> (k: ToolKind)
        ensures
            k == ToolKind::Edit,
    {
        ToolKind::Edit
    }

    /// Argument check: a path and a non-empty text to replace are needed.
    pub fn check_args(path: &str, old: &str) -> (r: Option<ToolResult>)
        ensures
            r is Some <==> (path@.len() == 0 || old@.len() == 0),
            r matches Some(t) ==> t.shows(false, missing_arg_text("path, old"@), "edit"@),
    {
        if path.is_empty() || old.is_empty() {
            Some(missing_arg("edit", "path, old"))
        } else {
            None
        }
    }

    /// Replaces every occurrence of `old` (left to right, not overlapping)
    /// by `new`, or refuses when `old` does not occur.
    pub fn plan(content: &str, old: &str, new: &str) -> (p: EditPlan)
        requires
            old@.len() > 0,
        ensures
            !has_infix(content@, old@) ==> (p matches EditPlan::Refuse(t) && t.shows(
                false,
                edit_not_found_text(old@),
                "edit"@,
            )),
            has_infix(content@, old@) ==> (p matches EditPlan::Write { new_content, count } && new_content@
                == replace_from(content@, old@, new@, 0) && count == count_from(content@, old@, 0)
                && count > 0),
    {
        if !str_contains(content, old) {
            let mut s = owned("未找到匹配的文本:\n---\n");
            s.append(old);
            s.append("\n---\n请提供完整的上下文，确保精确匹配。");
            return EditPlan::Refuse(ToolResult::make(false, s, "edit"));
        }
        let (new_content, count) = replace_count(content, old, new);
        proof {
            let j = choose|j: int| crate::text::occurs_at(content@, old@, j);
            crate::text::lemma_present_counted(content@, old@, 0, j);
        }
        EditPlan::Write { new_content, count }
    }

    /// Report of an `edit` run, from what its file work came to.
    pub fn report(o: &EditOutcome) -> (r: ToolResult)
        ensures
            r.shows(edit_report(*o).0, edit_report(*o).1, "edit"@),
    {
        match o {
            EditOutcome::PathRejected(e) => ToolResult::make(false, owned(e.as_str()), "edit"),
            EditOutcome::ReadError(e) => ToolResult::make(false, prefixed("读取文件失败: ", e.as_str()), "edit"),
            EditOutcome::Written { display, count } => {
                let mut s = owned("已替换 ");
                s.append(u64_to_decimal(*count as u64).as_str());
                s.append(" 处文本，文件: ");
                s.append(display.as_str());
                ToolResult::make(true, s, "edit")
            },
            EditOutcome::WriteError(e) => ToolResult::make(false, prefixed("写入失败: ", e.as_str()), "edit"),
        }
    }
}

/// What the `glob` tool's search came to.
pub enum GlobOutcome {
    MissingPattern,
    Matches { pattern: String, paths: Vec<String> },
    PatternError(String),
}

/// Success flag and report of the `glob` tool.
pub open spec fn glob_report(o: GlobOutcome) -> (bool, Seq<char>) {
    match o {
        GlobOutcome::MissingPattern => (false, missing_arg_text("pattern"@)),
        GlobOutcome::Matches { pattern, paths } => if paths@.len() == 0 {
            (true, "无匹配文件: "@ + pattern@)
        } else {
            (true, "找到 "@ + decimal(paths@.len()) + " 个匹配:\n"@ + join(views(paths@), "\n"@))
        },
        GlobOutcome::PatternError(e) => (false, "搜索失败: "@ + e@),
    }
}

/// The `glob` tool.
pub struct GlobTool;

impl GlobTool {
    /// Which tool this is.
    pub fn kind(&self) -> (k: ToolKind)
        ensures
            k == ToolKind::Glob,
    {
        ToolKind::Glob
    }

    /// Report of a `glob` run, from what its search came to.
    pub fn report(o: &GlobOutcome) -> (r: ToolResult)
        ensures
            r.shows(glob_report(*o).0, glob_report(*o).1, "glob"@),
    {
        match o {
            GlobOutcome::MissingPattern => missing_arg("glob", "pattern"),
            GlobOutcome::Matches { pattern, paths } => {
                if paths.len() == 0 {
                    ToolResult::make(true, prefixed("无匹配文件: ", pattern.as_str()), "glob")
                } else {
                    let mut s = owned("找到 ");
                    s.append(u64_to_decimal(paths.len() as u64).as_str());
                    s.append(" 个匹配:\n");
                    s.append(join_strings(paths, "\n").as_str());
                    ToolResult::make(true, s, "glob")
                }
            },
            GlobOutcome::PatternError(e) => ToolResult::make(false, prefixed("搜索失败: ", e.as_str()), "glob"),
        }
    }
}

/// Report of the `sub_agent` tool for a task.
pub open spec fn sub_agent_text(task: Seq<char>) -> Seq<char> {
    "[子任务已创建]\n任务: "@ + task + "\n子 Agent 正在独立执行中...\n完成后将返回结果。"@
}

/// The `sub_agent` tool.
pub struct SubAgentTool;

impl SubAgentTool {
    /// Which tool this is.
    pub fn kind(&self) -> (k: ToolKind)
        ensures
            k == ToolKind::SubAgent,
    {
        ToolKind::SubAgent
    }

    /// Runs the tool on its `task` argument (an absent task counts as
    /// empty): an empty task is refused, any other is acknowledged.
    pub fn execute(task: Option<&str>) -> (r: ToolResult)
        ensures
            (task is None || task->0@.len() == 0) ==> r.shows(false, missing_arg_text("task"@), "sub_agent"@),
            task matches Some(t) ==> (t@.len() > 0 ==> r.shows(true, sub_agent_text(t@), "sub_agent"@)),
    {
        let t = match task {
            Some(t) => t,
            None => {
                return missing_arg("sub_agent", "task");
            },
        };
        if t.is_empty() {
            return missing_arg("sub_agent", "task");
        }
        let mut s = owned("[子任务已创建]\n任务: ");
        s.append(t);
        s.append("\n子 Agent 正在独立执行中...\n完成后将返回结果。");
        ToolResult::make(true, s, "sub_agent")
    }
}

} // verus!
