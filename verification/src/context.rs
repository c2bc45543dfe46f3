//! What the model is sent for one turn: the system prompt and the message
//! list.
use vstd::prelude::*;

use crate::deepseek::{ChatMessage, Role};
use crate::text::{owned, take_chars};
use crate::web::opt_view;

verus! {

/// A chat message as (author, text).
pub open spec fn msg_view(m: ChatMessage) -> (Role, Seq<char>) {
    (m.role, m.content@)
}

/// The messages sent for a turn: the system prompt, the history in order,
/// then the user's input.
pub open spec fn turn_messages(
    system_prompt: Seq<char>,
    history: Seq<(Role, Seq<char>)>,
    user_input: Seq<char>,
) -> Seq<(Role, Seq<char>)> {
    seq![(Role::System, system_prompt)] + history + seq![(Role::User, user_input)]
}

/// Builds the full message list for the API: system prompt, history, user
/// input.
pub fn build_messages(system_prompt: &str, history: &[ChatMessage], user_input: &str) -> (r: Vec<
    ChatMessage,
>)
    requires
        history@.len() + 2 <= usize::MAX,
    ensures
        r@.map_values(|m: ChatMessage| msg_view(m)) == turn_messages(
            system_prompt@,
            history@.map_values(|m: ChatMessage| msg_view(m)),
            user_input@,
        ),
{
    let mut messages: Vec<ChatMessage> = Vec::new();
    messages.push(ChatMessage { role: Role::System, content: owned(system_prompt) });
    let mut i: usize = 0;
    while i < history.len()
        invariant
            i <= history@.len(),
            messages@.len() == i + 1,
            msg_view(messages@[0]) == (Role::System, system_prompt@),
            forall|t: int| 0 <= t < i ==> msg_view(#[trigger] messages@[t + 1]) == msg_view(history@[t]),
        decreases history@.len() - i,
    {
        messages.push(history[i].duplicate());
        i = i + 1;
    }
    messages.push(ChatMessage { role: Role::User, content: owned(user_input) });
    let ghost expected = turn_messages(
        system_prompt@,
        history@.map_values(|m: ChatMessage| msg_view(m)),
        user_input@,
    );
    assert(messages@.map_values(|m: ChatMessage| msg_view(m)) =~= expected) by {
        assert forall|t: int| 0 <= t < messages@.len() implies messages@.map_values(
            |m: ChatMessage| msg_view(m),
        )[t] == expected[t] by {
            if 1 <= t < messages@.len() - 1 {
                assert(msg_view(messages@[(t - 1) + 1]) == msg_view(history@[t - 1]));
            }
        }
    }
    messages
}

/// Opening of the system prompt, up to the tool list.
pub const PROMPT_HEAD: &'static str = "你是 Agent PC，一个桌面 AI 编码助手。\n\n## 行为准则\n- 分析需求，规划步骤，使用工具逐步实现。\n- 每个工具调用后根据结果决定下一步。\n- 任务完成或需要用户指示时输出最终回复。\n\n## 可用工具\n";

/// Middle of the system prompt: the tool-call format and the reply style.
pub const PROMPT_BODY: &'static str = "\n\n## 工具调用格式\n当需要使用工具时，在回复中按以下格式输出：\n\n<tool_call>\n<tool_name>工具名称</tool_name>\n<tool_args>\n{\"参数1\": \"值1\", \"参数2\": \"值2\"}\n</tool_args>\n</tool_call>\n\n工具执行后结果会自动加入上下文，你可以继续决策。\n\n## 回复风格\n- 中文回复，Markdown 格式。\n- 可以使用 LaTeX $$...$$ 和 Obsidian Callout >[!note]。\n";

/// The system prompt: the fixed text around the tool schema (pretty JSON),
/// the project rules section and the current time.
pub open spec fn system_prompt_text(schema: Seq<char>, rules: Seq<char>, now: Seq<char>) -> Seq<
    char,
> {
    PROMPT_HEAD@ + schema + PROMPT_BODY@ + rules + "\n当前时间："@ + now + "\n"@
}

/// The system prompt up to the time stamp.
pub open spec fn prompt_before_time(schema: Seq<char>, rules: Seq<char>) -> Seq<char> {
    PROMPT_HEAD@ + schema + PROMPT_BODY@ + rules + "\n当前时间："@
}

/// Two system prompts for the same tools and rules differ only in the time
/// stamp: each is the same text, then its time, then a line break.
pub proof fn lemma_prompt_varies_only_in_time(schema: Seq<char>, rules: Seq<char>, a: Seq<char>, b: Seq<char>)
    ensures
        system_prompt_text(schema, rules, a) == prompt_before_time(schema, rules) + a + "\n"@,
        system_prompt_text(schema, rules, b) == prompt_before_time(schema, rules) + b + "\n"@,
{
    assert(system_prompt_text(schema, rules, a) =~= prompt_before_time(schema, rules) + a + "\n"@);
    assert(system_prompt_text(schema, rules, b) =~= prompt_before_time(schema, rules) + b + "\n"@);
}

/// Assembles the system prompt from the tool schema text, the project rules
/// section (empty when there are none) and the current time.
pub fn system_prompt(schema: &str, rules: &str, now: &str) -> (r: String)
    ensures
        r@ == system_prompt_text(schema@, rules@, now@),
{
    let mut r = owned(PROMPT_HEAD);
    r.append(schema);
    r.append(PROMPT_BODY);
    r.append(rules);
    r.append("\n当前时间：");
    r.append(now);
    r.append("\n");
    r
}

/// Project rule files, in the order they are looked for.
pub fn rule_file_names() -> (r: Vec<&'static str>)
    ensures
        r@.len() == 2,
        r@[0]@ == "AGENTS.md"@,
        r@[1]@ == ".cursorrules"@,
{
    vec!["AGENTS.md", ".cursorrules"]
}

/// The prompt section for a rule file: its name and its first 2000
/// characters.
pub open spec fn rules_section_text(name: Seq<char>, content: Seq<char>) -> Seq<char> {
    "\n## 项目规则 ("@ + name + "):\n"@ + content.take(
        if content.len() < 2000 {
            content.len() as int
        } else {
            2000
        },
    ) + "\n"@
}

/// Formats the prompt section for one rule file.
pub fn rules_section(name: &str, content: &str) -> (r: String)
    ensures
        r@ == rules_section_text(name@, content@),
{
    let mut r = owned("\n## 项目规则 (");
    r.append(name);
    r.append("):\n");
    let preview = take_chars(content, 2000);
    r.append(preview.as_str());
    r.append("\n");
    r
}

/// The rules section for the first rule file that could be read (`found[i]`
/// is the content of the `i`-th name of `rule_file_names`, if it was read);
/// empty when none was.
pub open spec fn project_rules_text(found: Seq<Option<Seq<char>>>) -> Seq<char> {
    let names = seq!["AGENTS.md"@, ".cursorrules"@];
    if exists|i: int| 0 <= i < 2 && i < found.len() && found[i] is Some {
        let i = choose|i: int|
            0 <= i < 2 && i < found.len() && found[i] is Some && forall|j: int|
                0 <= j < i ==> !(found[j] is Some);
        rules_section_text(names[i], found[i]->0)
    } else {
        Seq::empty()
    }
}

/// Picks the rule file whose text goes into the prompt: the first of
/// `rule_file_names` that was read.
pub fn project_rules(found: &Vec<Option<String>>) -> (r: String)
    ensures
        r@ == project_rules_text(found@.map_values(|o: Option<String>| opt_view(o))),
{
    let ghost fv = found@.map_values(|o: Option<String>| opt_view(o));
    let names = rule_file_names();
    let mut i: usize = 0;
    while i < 2 && i < found.len()
        invariant
            i <= 2,
            i <= found@.len(),
            fv == found@.map_values(|o: Option<String>| opt_view(o)),
            names@.len() == 2,
            names@[0]@ == "AGENTS.md"@,
            names@[1]@ == ".cursorrules"@,
            forall|j: int| 0 <= j < i ==> !(#[trigger] fv[j] is Some),
        decreases 2 - i,
    {
        match &found[i] {
            Some(content) => {
                let r = rules_section(names[i], content.as_str());
                proof {
                    let names_s = seq!["AGENTS.md"@, ".cursorrules"@];
                    assert(fv[i as int] is Some);
                    let w = choose|w: int|
                        0 <= w < 2 && w < fv.len() && fv[w] is Some && forall|j: int|
                            0 <= j < w ==> !(fv[j] is Some);
                    assert(w == i as int) by {
                        if w < i {
                            assert(!(fv[w] is Some));
                        }
                        if w > i {
                            assert(!(fv[i as int] is Some));
                        }
                    }
                    assert(names_s[i as int] == names@[i as int]@);
                }
                return r;
            },
            None => {},
        }
        i = i + 1;
    }
    String::new()
}

} // verus!
