//! Chat sessions: their records, the summaries listed to the user, and the
//! bookkeeping of one conversation turn.
use vstd::prelude::*;
use vstd::utf8::{decode_utf8, encode_utf8, is_char_boundary};

use crate::context::{build_messages, msg_view, turn_messages};
use crate::deepseek::{ChatMessage, Role};
use crate::sort::{is_stable_order, stable_order};
use crate::text::{has_infix, has_prefix, owned, str_contains, str_starts_with, take_chars};

verus! {

/// Author of a stored message.
#[derive(Debug, Clone, Copy, PartialEq, Eq, Structural)]
pub enum MessageRole {
    User,
    Assistant,
    System,
}

/// One stored message.
#[derive(Debug)]
pub struct Message {
    pub id: String,
    pub role: MessageRole,
    pub content: String,
    pub created_at: String,
}

/// A whole session.
#[derive(Debug)]
pub struct Session {
    pub id: String,
    pub name: String,
    pub created_at: String,
    pub updated_at: String,
    pub messages: Vec<Message>,
}

/// A session as listed: no message contents, only their count.
#[derive(Debug)]
pub struct SessionSummary {
    pub id: String,
    pub name: String,
    pub created_at: String,
    pub updated_at: String,
    pub message_count: usize,
}

/// A message as (id, role, content, creation time).
pub open spec fn message_view(m: Message) -> (Seq<char>, MessageRole, Seq<char>, Seq<char>) {
    (m.id@, m.role, m.content@, m.created_at@)
}

/// A summary as (id, name, created, updated, message count).
pub open spec fn summary_view(s: SessionSummary) -> (Seq<char>, Seq<char>, Seq<char>, Seq<char>, nat) {
    (s.id@, s.name@, s.created_at@, s.updated_at@, s.message_count as nat)
}

impl Message {
    /// A message with the given fields.
    pub fn new(id: String, role: MessageRole, content: &str, created_at: String) -> (r: Message)
        ensures
            message_view(r) == (id@, role, content@, created_at@),
    {
        Message { id, role, content: owned(content), created_at }
    }

    /// A copy of the message.
    pub fn duplicate(&self) -> (r: Message)
        ensures
            message_view(r) == message_view(*self),
    {
        Message {
            id: self.id.clone(),
            role: self.role,
            content: self.content.clone(),
            created_at: self.created_at.clone(),
        }
    }
}

impl SessionSummary {
    /// A copy of the summary.
    pub fn duplicate(&self) -> (r: SessionSummary)
        ensures
            summary_view(r) == summary_view(*self),
    {
        SessionSummary {
            id: self.id.clone(),
            name: self.name.clone(),
            created_at: self.created_at.clone(),
            updated_at: self.updated_at.clone(),
            message_count: self.message_count,
        }
    }
}

/// Name of a new session: `新对话 ` and the first 10 bytes of the creation
/// time (its date).
pub open spec fn new_session_name(now: Seq<char>) -> Seq<char> {
    "新对话 "@ + decode_utf8(encode_utf8(now).take(10))
}

/// The first 10 bytes of `now` end on a character boundary.
pub open spec fn date_cut_ok(now: Seq<char>) -> bool {
    encode_utf8(now).len() >= 10 && is_char_boundary(encode_utf8(now), 10)
}

impl Session {
    /// A new, empty session created at `now` (`YYYY-MM-DD HH:MM:SS`): named
    /// after its date, created and updated at `now`.
    pub fn new(id: String, now: &str) -> (r: Session)
        requires
            date_cut_ok(now@),
        ensures
            r.id@ == id@,
            r.name@ == new_session_name(now@),
            r.created_at@ == now@,
            r.updated_at@ == now@,
            r.messages@.len() == 0,
    {
        let date = now.split_at(10).0;
        let mut name = owned("新对话 ");
        name.append(date);
        proof {
            vstd::utf8::encode_utf8_decode_utf8(date@);
        }
        Session { id, name, created_at: owned(now), updated_at: owned(now), messages: Vec::new() }
    }

    /// The summary of the session.
    pub fn summary(&self) -> (r: SessionSummary)
        ensures
            summary_view(r) == (
                self.id@,
                self.name@,
                self.created_at@,
                self.updated_at@,
                self.messages@.len(),
            ),
    {
        SessionSummary {
            id: self.id.clone(),
            name: self.name.clone(),
            created_at: self.created_at.clone(),
            updated_at: self.updated_at.clone(),
            message_count: self.messages.len(),
        }
    }

    /// Renames the session; the update time becomes `now`, all else stays.
    pub fn rename(&mut self, name: &str, now: &str)
        ensures
            final(self).name@ == name@,
            final(self).updated_at@ == now@,
            final(self).id@ == old(self).id@,
            final(self).created_at@ == old(self).created_at@,
            final(self).messages@.map_values(|m: Message| message_view(m)) == old(
                self,
            ).messages@.map_values(|m: Message| message_view(m)),
    {
        self.name = owned(name);
        self.updated_at = owned(now);
    }

    /// Appends a message at the end of the conversation.
    pub fn record(&mut self, m: Message)
        ensures
            final(self).messages@.map_values(|x: Message| message_view(x)) == old(
                self,
            ).messages@.map_values(|x: Message| message_view(x)).push(message_view(m)),
            final(self).id@ == old(self).id@,
            final(self).name@ == old(self).name@,
            final(self).created_at@ == old(self).created_at@,
            final(self).updated_at@ == old(self).updated_at@,
    {
        self.messages.push(m);
        assert(self.messages@.map_values(|x: Message| message_view(x)) =~= old(
            self,
        ).messages@.map_values(|x: Message| message_view(x)).push(message_view(m)));
    }
}

/// An id can name a stored record: it holds no path separator (`/` or a
/// backslash) and no `..`, so its file stays inside the records' directory.
pub open spec fn is_record_id(id: Seq<char>) -> bool {
    !has_infix(id, "/"@) && !has_infix(id, "\\"@) && !has_infix(id, ".."@)
}

/// File name of a stored record (a session or a skill) with the given id;
/// `None` for an id that could lead out of the records' directory.
pub fn record_file_name(id: &str) -> (r: Option<String>)
    ensures
        r is Some <==> is_record_id(id@),
        r matches Some(f) ==> f@ == id@ + ".json"@,
{
    if str_contains(id, "/") || str_contains(id, "\\") || str_contains(id, "..") {
        return None;
    }
    let mut r = owned(id);
    r.append(".json");
    Some(r)
}

/// A file name whose extension (the text after the last `.`, where that dot
/// is not the name's first character) is `json`.
pub open spec fn is_json_name(name: Seq<char>) -> bool {
    name.len() > 5 && name.subrange(name.len() - 5, name.len() as int) == ".json"@
}

/// Whether a directory entry is a stored record (`*.json`).
pub fn has_json_extension(name: &str) -> (b: bool)
    ensures
        b == is_json_name(name@),
{
    let v = crate::text::chars_of(name);
    let n = v.len();
    if n <= 5 {
        return false;
    }
    let tail = crate::text::slice_vec(&v, n - 5, n);
    let suffix = crate::text::chars_of(".json");
    proof {
        reveal_strlit(".json");
    }
    crate::text::chars_eq(&tail, &suffix)
}

/// `p` orders the summaries newest first (by update time, compared as
/// text), summaries with equal times in the order they came.
pub open spec fn newest_first(v: Seq<SessionSummary>, p: Seq<usize>) -> bool {
    is_stable_order(v.map_values(|s: SessionSummary| s.updated_at@), true, p)
}

/// The summaries newest first (by update time, compared as text), summaries
/// with equal times kept in the order they came.
pub fn sort_summaries(v: Vec<SessionSummary>) -> (r: Vec<SessionSummary>)
    ensures
        exists|p: Seq<usize>|
            newest_first(v@, p) && r@.len() == v@.len() && forall|i: int|
                0 <= i < r@.len() ==> summary_view(#[trigger] r@[i]) == summary_view(v@[p[i] as int]),
{
    let mut keys: Vec<String> = Vec::new();
    let mut i: usize = 0;
    while i < v.len()
        invariant
            i <= v@.len(),
            keys@.len() == i,
            forall|t: int| 0 <= t < i ==> (#[trigger] keys@[t])@ == v@[t].updated_at@,
        decreases v@.len() - i,
    {
        keys.push(v[i].updated_at.clone());
        i = i + 1;
    }
    assert(keys@.map_values(|k: String| k@) =~= v@.map_values(|s: SessionSummary| s.updated_at@));
    let p = stable_order(&keys, true);
    let mut r: Vec<SessionSummary> = Vec::new();
    let mut k: usize = 0;
    while k < p.len()
        invariant
            k <= p@.len(),
            p@.len() == v@.len(),
            forall|t: int| 0 <= t < p@.len() ==> (#[trigger] p@[t]) < v@.len(),
            r@.len() == k,
            forall|t: int| 0 <= t < k ==> summary_view(#[trigger] r@[t]) == summary_view(v@[p@[t] as int]),
        decreases p@.len() - k,
    {
        let idx = p[k];
        r.push(v[idx].duplicate());
        k = k + 1;
    }
    assert(newest_first(v@, p@));
    r
}

/// The API role of a stored message's author.
pub open spec fn chat_role_spec(r: MessageRole) -> Role {
    match r {
        MessageRole::User => Role::User,
        MessageRole::Assistant => Role::Assistant,
        MessageRole::System => Role::System,
    }
}

/// The API role of a stored message's author.
pub fn chat_role(r: MessageRole) -> (c: Role)
    ensures
        c == chat_role_spec(r),
{
    match r {
        MessageRole::User => Role::User,
        MessageRole::Assistant => Role::Assistant,
        MessageRole::System => Role::System,
    }
}

/// A stored message as an API message.
pub open spec fn as_chat(m: Message) -> (Role, Seq<char>) {
    (chat_role_spec(m.role), m.content@)
}

/// The stored conversation as API messages, in order.
pub fn history_of(messages: &Vec<Message>) -> (r: Vec<ChatMessage>)
    ensures
        r@.map_values(|m: ChatMessage| msg_view(m)) == messages@.map_values(|m: Message| as_chat(m)),
{
    let mut r: Vec<ChatMessage> = Vec::new();
    let mut i: usize = 0;
    while i < messages.len()
        invariant
            i <= messages@.len(),
            r@.len() == i,
            forall|t: int| 0 <= t < i ==> msg_view(#[trigger] r@[t]) == as_chat(messages@[t]),
        decreases messages@.len() - i,
    {
        let m = &messages[i];
        r.push(ChatMessage { role: chat_role(m.role), content: m.content.clone() });
        i = i + 1;
    }
    assert(r@.map_values(|m: ChatMessage| msg_view(m)) =~= messages@.map_values(|m: Message| as_chat(m)));
    r
}

/// Starts a turn: the message list for the API is the system prompt, the
/// conversation so far and the user's input (sent once, last); then the
/// input is stored in the session with the given id and time.
pub fn begin_turn(
    session: &mut Session,
    system_prompt: &str,
    message_id: String,
    user_input: &str,
    now: String,
) -> (r: Vec<ChatMessage>)
    requires
        old(session).messages@.len() + 2 <= usize::MAX,
    ensures
        r@.map_values(|m: ChatMessage| msg_view(m)) == turn_messages(
            system_prompt@,
            old(session).messages@.map_values(|m: Message| as_chat(m)),
            user_input@,
        ),
        final(session).messages@.map_values(|x: Message| message_view(x)) == old(
            session,
        ).messages@.map_values(|x: Message| message_view(x)).push(
            (message_id@, MessageRole::User, user_input@, now@),
        ),
        final(session).id@ == old(session).id@,
        final(session).name@ == old(session).name@,
        final(session).created_at@ == old(session).created_at@,
        final(session).updated_at@ == old(session).updated_at@,
{
    let history = history_of(&session.messages);
    assert(history@.len() == session.messages@.len()) by {
        assert(history@.map_values(|m: ChatMessage| msg_view(m)).len() == history@.len());
    }
    let r = build_messages(system_prompt, history.as_slice(), user_input);
    let m = Message::new(message_id, MessageRole::User, user_input, now);
    session.record(m);
    r
}

/// Sessions still carrying their default name get named after the first
/// user input.
pub open spec fn keeps_default_name(name: Seq<char>) -> bool {
    has_prefix(name, "新对话"@)
}

/// Title made from a user input: its first 20 characters, with `...` when
/// characters were cut off.
pub open spec fn title_text(input: Seq<char>) -> Seq<char> {
    input.take(
        if input.len() < 20 {
            input.len() as int
        } else {
            20
        },
    ) + if input.len() > 20 {
        "..."@
    } else {
        Seq::empty()
    }
}

/// The title for a session named after the given input.
pub fn title_from_input(input: &str) -> (r: String)
    ensures
        r@ == title_text(input@),
{
    let mut r = take_chars(input, 20);
    let ghost head = r@;
    let n = crate::text::chars_of(input).len();
    if n > 20 {
        r.append("...");
        assert(r@ == head + "..."@);
    } else {
        assert(r@ == head + Seq::<char>::empty());
    }
    r
}

/// Ends a turn: the reply is stored in the session; when the session still
/// has its default name, the title it should get is returned.
pub fn end_turn(session: &mut Session, reply: Message, user_input: &str) -> (r: Option<String>)
    ensures
        final(session).messages@.map_values(|x: Message| message_view(x)) == old(
            session,
        ).messages@.map_values(|x: Message| message_view(x)).push(message_view(reply)),
        final(session).id@ == old(session).id@,
        final(session).name@ == old(session).name@,
        final(session).created_at@ == old(session).created_at@,
        final(session).updated_at@ == old(session).updated_at@,
        r is Some <==> keeps_default_name(old(session).name@),
        r matches Some(t) ==> t@ == title_text(user_input@),
{
    session.record(reply);
    if str_starts_with(session.name.as_str(), "新对话") {
        Some(title_from_input(user_input))
    } else {
        None
    }
}

/// A new session keeps its default name until its first turn names it.
pub proof fn lemma_new_session_gets_titled(now: Seq<char>)
    ensures
        keeps_default_name(new_session_name(now)),
{
    reveal_strlit("新对话 ");
    reveal_strlit("新对话");
    assert(new_session_name(now).subrange(0, 3) =~= "新对话"@);
}

} // verus!
