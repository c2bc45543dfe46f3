//! The chat-completion API's messages and results, and the assembly of a
//! streamed (server-sent events) reply.
use vstd::prelude::*;

use crate::text::{
    chars_of, has_prefix, owned, slice_vec, string_of, trim_spec, trim_vec, utf8_lossy, lossy_text,
    u64_to_decimal, decimal,
};

verus! {

/// Author of a chat message.
#[derive(Debug, Clone, Copy, PartialEq, Eq, Structural)]
pub enum Role {
    System,
    User,
    Assistant,
}

/// One chat message.
#[derive(Debug)]
pub struct ChatMessage {
    pub role: Role,
    pub content: String,
}

impl ChatMessage {
    /// A copy of the message.
    pub fn duplicate(&self) -> (r: ChatMessage)
        ensures
            r.role == self.role,
            r.content@ == self.content@,
    {
        ChatMessage { role: self.role, content: self.content.clone() }
    }
}

/// Token usage reported by the API.
#[derive(Debug, Clone, Copy)]
pub struct Usage {
    pub prompt_tokens: u32,
    pub completion_tokens: u32,
}

/// The final result of a chat completion.
#[derive(Debug)]
pub struct ChatResult {
    pub content: String,
    pub input_tokens: u32,
    pub output_tokens: u32,
}

/// Endpoint of the chat-completion API.
pub fn api_url() -> (r: &'static str)
    ensures
        r@ == "https://api.deepseek.com/v1/chat/completions"@,
{
    "https://api.deepseek.com/v1/chat/completions"
}

/// A request needs an API key: an empty key is refused with a hint to set
/// it.
pub fn check_api_key(api_key: &str) -> (r: Result<(), String>)
    ensures
        r is Ok <==> api_key@.len() > 0,
        r matches Err(e) ==> e@ == "请在设置中配置 API Key"@,
{
    if api_key.is_empty() {
        Err(owned("请在设置中配置 API Key"))
    } else {
        Ok(())
    }
}

/// Value of the `Authorization` header.
pub fn bearer(api_key: &str) -> (r: String)
    ensures
        r@ == "Bearer "@ + api_key@,
{
    let mut r = owned("Bearer ");
    r.append(api_key);
    r
}

/// Error text for a non-success HTTP status.
pub fn api_error_message(status: u16, body: &str) -> (r: String)
    ensures
        r@ == "API 错误 ("@ + decimal(status as nat) + "): "@ + body@,
{
    let mut r = owned("API 错误 (");
    r.append(u64_to_decimal(status as u64).as_str());
    r.append("): ");
    r.append(body);
    r
}

/// Result of a non-streamed completion: the first choice's text (empty when
/// there is none) and the token counts (0 when unreported).
pub fn reply_result(first_content: Option<String>, usage: Option<Usage>) -> (r: ChatResult)
    ensures
        r.content@ == (match first_content {
            Some(c) => c@,
            None => Seq::empty(),
        }),
        r.input_tokens == (match usage {
            Some(u) => u.prompt_tokens,
            None => 0,
        }),
        r.output_tokens == (match usage {
            Some(u) => u.completion_tokens,
            None => 0,
        }),
{
    let content = match first_content {
        Some(c) => c,
        None => String::new(),
    };
    let (input_tokens, output_tokens) = match usage {
        Some(u) => (u.prompt_tokens, u.completion_tokens),
        None => (0, 0),
    };
    ChatResult { content, input_tokens, output_tokens }
}

/// What one complete line of the event stream means.
#[derive(Debug)]
pub enum SseLine {
    /// Blank line, or a line that is not a `data: ` line.
    Skip,
    /// `data: [DONE]`: stop reading this batch of lines.
    Done,
    /// The payload of a `data: ` line.
    Data(String),
}

/// `data: `
pub open spec fn data_prefix() -> Seq<char> {
    seq!['d', 'a', 't', 'a', ':', ' ']
}

/// `[DONE]`
pub open spec fn done_marker() -> Seq<char> {
    seq!['[', 'D', 'O', 'N', 'E', ']']
}

/// Meaning of a raw line (before trimming): trimmed, blank lines and lines
/// without the `data: ` prefix are skipped, `[DONE]` ends the batch.
pub open spec fn classify(raw: Seq<char>) -> (int, Seq<char>) {
    let line = trim_spec(raw);
    if line.len() == 0 || !has_prefix(line, data_prefix()) {
        (0, Seq::empty())
    } else if line.subrange(6, line.len() as int) == done_marker() {
        (1, Seq::empty())
    } else {
        (2, line.subrange(6, line.len() as int))
    }
}

/// The meaning of a line as (kind, payload): 0 skip, 1 done, 2 data.
pub open spec fn line_view(l: SseLine) -> (int, Seq<char>) {
    match l {
        SseLine::Skip => (0, Seq::empty()),
        SseLine::Done => (1, Seq::empty()),
        SseLine::Data(d) => (2, d@),
    }
}

/// Index of the first line break in `s`, if any.
pub open spec fn first_newline(s: Seq<char>) -> Option<int> {
    if exists|i: int| 0 <= i < s.len() && s[i] == '\n' {
        Some(choose|i: int| 0 <= i < s.len() && s[i] == '\n' && forall|j: int| 0 <= j < i ==> s[j] != '\n')
    } else {
        None
    }
}

/// Text received from the stream and not yet split into lines, and the
/// bytes of a character whose encoding a chunk cut off (held until the next
/// chunk brings the rest).
pub struct SseBuffer {
    buf: Vec<char>,
    pending: Vec<u8>,
}

impl View for SseBuffer {
    type V = (Seq<char>, Seq<u8>);

    closed spec fn view(&self) -> (Seq<char>, Seq<u8>) {
        (self.buf@, self.pending@)
    }
}

/// Length of the longest prefix of `b`, no longer than `j`, that is valid
/// UTF-8.
pub open spec fn valid_up_to_from(b: Seq<u8>, j: int) -> int
    decreases j,
{
    if j <= 0 {
        0
    } else if vstd::utf8::valid_utf8(b.take(j)) {
        j
    } else {
        valid_up_to_from(b, j - 1)
    }
}

/// Length of the longest prefix of `b` that is valid UTF-8.
pub open spec fn valid_up_to(b: Seq<u8>) -> int {
    valid_up_to_from(b, b.len() as int)
}

/// The bytes begin the encoding of a character and end before it is
/// complete: some continuation makes them valid UTF-8 whose first character
/// is longer than they are.
pub open spec fn cut_char(t: Seq<u8>) -> bool {
    exists|u: Seq<u8>|
        #![trigger vstd::utf8::valid_utf8(t + u)]
        vstd::utf8::valid_utf8(t + u) && 0 < t.len() < vstd::utf8::length_of_first_scalar(t + u)
}

/// std `str::from_utf8` on the bytes: when they are valid UTF-8, their
/// length and `false`; else `Utf8Error::valid_up_to`, which std documents as
/// the largest index such that the bytes before it are valid UTF-8, and
/// whether `Utf8Error::error_len` is `None`, which std documents as the end of
/// the input reached unexpectedly, inside a character that the input cuts off.
#[verifier::external_body]
fn utf8_valid_up_to(b: &[u8]) -> (r: (usize, bool))
    ensures
        r.0 == valid_up_to(b@),
        r.1 == (r.0 < b@.len() && cut_char(b@.skip(r.0 as int))),
{
    match std::str::from_utf8(b) {
        Ok(_) => (b.len(), false),
        Err(e) => (e.valid_up_to(), e.error_len().is_none()),
    }
}

/// What pushing a chunk does to the buffer's (text, held bytes): the held
/// bytes and the chunk are decoded when they are valid UTF-8; when they end
/// inside a cut character, what comes before it is decoded and its bytes are
/// held; otherwise they are decoded with replacement characters.
pub open spec fn push_step(state: (Seq<char>, Seq<u8>), chunk: Seq<u8>) -> (Seq<char>, Seq<u8>) {
    let bytes = state.1 + chunk;
    let k = valid_up_to(bytes);
    if k == bytes.len() {
        (state.0 + vstd::utf8::decode_utf8(bytes), Seq::empty())
    } else if cut_char(bytes.skip(k)) {
        (state.0 + vstd::utf8::decode_utf8(bytes.take(k)), bytes.skip(k))
    } else {
        (state.0 + lossy_text(bytes), Seq::empty())
    }
}

impl SseBuffer {
    /// An empty buffer.
    pub fn new() -> (r: SseBuffer)
        ensures
            r@ == (Seq::<char>::empty(), Seq::<u8>::empty()),
    {
        SseBuffer { buf: Vec::new(), pending: Vec::new() }
    }

    /// Appends a received chunk of bytes, decoded as UTF-8 together with any
    /// bytes held from the chunk before; the bytes of a character the chunk
    /// cuts off are held for the next one.
    pub fn push_bytes(&mut self, chunk: &[u8])
        ensures
            final(self)@ == push_step(old(self)@, chunk@),
    {
        let mut bytes: Vec<u8> = Vec::new();
        std::mem::swap(&mut bytes, &mut self.pending);
        let ghost held = bytes@;
        let mut i: usize = 0;
        while i < chunk.len()
            invariant
                i <= chunk@.len(),
                bytes@ == held + chunk@.take(i as int),
            decreases chunk@.len() - i,
        {
            bytes.push(chunk[i]);
            assert(chunk@.take(i + 1) == chunk@.take(i as int).push(chunk@[i as int]));
            i = i + 1;
        }
        assert(chunk@.take(chunk@.len() as int) == chunk@);
        let (k, cut) = utf8_valid_up_to(bytes.as_slice());
        proof {
            lemma_valid_up_to_bounds(bytes@, bytes@.len() as int);
        }
        if k == bytes.len() {
            assert(bytes@.take(k as int) =~= bytes@);
            let text = utf8_lossy(bytes.as_slice());
            self.push_text(text.as_str());
        } else if cut {
            let text = utf8_lossy(bytes.as_slice().split_at(k).0);
            let mut rest: Vec<u8> = Vec::new();
            let mut j = k;
            while j < bytes.len()
                invariant
                    k <= j <= bytes@.len(),
                    rest@ == bytes@.subrange(k as int, j as int),
                decreases bytes@.len() - j,
            {
                rest.push(bytes[j]);
                assert(bytes@.subrange(k as int, j + 1) == bytes@.subrange(k as int, j as int).push(
                    bytes@[j as int],
                ));
                j = j + 1;
            }
            assert(bytes@.take(k as int) =~= bytes@.subrange(0, k as int));
            self.push_text(text.as_str());
            self.pending = rest;
        } else {
            let text = utf8_lossy(bytes.as_slice());
            self.push_text(text.as_str());
        }
    }

    /// Appends received text.
    pub fn push_text(&mut self, text: &str)
        ensures
            final(self)@ == (old(self)@.0 + text@, old(self)@.1),
    {
        let v = chars_of(text);
        let ghost before = self.buf@;
        let ghost held = self.pending@;
        let mut i: usize = 0;
        while i < v.len()
            invariant
                i <= v@.len(),
                self.buf@ == before + v@.take(i as int),
                self.pending@ == held,
            decreases v@.len() - i,
        {
            self.buf.push(v[i]);
            assert(v@.take(i + 1) == v@.take(i as int).push(v@[i as int]));
            i = i + 1;
        }
        assert(v@.take(v@.len() as int) == v@);
    }

    /// Takes the next complete line (up to the first line break) off the
    /// buffer and says what it means; `None`, leaving the buffer as it is,
    /// when no complete line has arrived.
    pub fn next_line(&mut self) -> (r: Option<SseLine>)
        ensures
            final(self)@.1 == old(self)@.1,
            first_newline(old(self)@.0) is None ==> r is None && final(self)@ == old(self)@,
            first_newline(old(self)@.0) matches Some(p) ==> (r matches Some(l) && line_view(l)
                == classify(old(self)@.0.subrange(0, p)) && final(self)@.0 == old(self)@.0.subrange(
                p + 1,
                old(self)@.0.len() as int,
            )),
    {
        let mut p: usize = 0;
        while p < self.buf.len() && self.buf[p] != '\n'
            invariant
                p <= self.buf@.len(),
                forall|j: int| 0 <= j < p ==> self.buf@[j] != '\n',
            decreases self.buf@.len() - p,
        {
            p = p + 1;
        }
        if p == self.buf.len() {
            assert(!exists|i: int| 0 <= i < self.buf@.len() && self.buf@[i] == '\n');
            return None;
        }
        let ghost old_buf = self.buf@;
        assert(first_newline(old_buf) == Some(p as int)) by {
            let q = choose|i: int|
                0 <= i < old_buf.len() && old_buf[i] == '\n' && forall|j: int|
                    0 <= j < i ==> old_buf[j] != '\n';
            assert(0 <= p < old_buf.len() && old_buf[p as int] == '\n');
            if q < p {
            } else if q > p {
            }
        }
        let raw = slice_vec(&self.buf, 0, p);
        let rest = slice_vec(&self.buf, p + 1, self.buf.len());
        self.buf = rest;
        let line = chars_of(trim_vec(&raw).as_str());
        let prefix = chars_of("data: ");
        proof {
            reveal_strlit("data: ");
        }
        assert(prefix@ =~= data_prefix());
        if line.len() == 0 || !crate::text::starts_with_chars(&line, &prefix) {
            return Some(SseLine::Skip);
        }
        let data = slice_vec(&line, 6, line.len());
        let done = chars_of("[DONE]");
        proof {
            reveal_strlit("[DONE]");
        }
        assert(done@ =~= done_marker());
        if crate::text::chars_eq(&data, &done) {
            Some(SseLine::Done)
        } else {
            Some(SseLine::Data(string_of(&data)))
        }
    }
}

/// The delta of one choice in a streamed chunk.
pub struct StreamChoice {
    pub content: Option<String>,
    pub reasoning_content: Option<String>,
    pub finish_reason: Option<String>,
}

/// One parsed `data:` payload of the stream.
pub struct StreamChunk {
    pub choices: Vec<StreamChoice>,
    pub usage: Option<Usage>,
}

/// Something to pass on while the reply streams in.
#[derive(Debug)]
pub enum StreamEmit {
    Token(String),
    Reasoning(String),
}

/// A non-empty optional text, else nothing.
pub open spec fn nonempty(o: Option<String>) -> Option<Seq<char>> {
    match o {
        Some(s) => if s@.len() > 0 {
            Some(s@)
        } else {
            None
        },
        None => None,
    }
}

/// What a choice passes on: its text as a token, then its reasoning, each
/// when present and non-empty; as (is_reasoning, text) pairs.
pub open spec fn choice_emits(c: StreamChoice) -> Seq<(bool, Seq<char>)> {
    let t = match nonempty(c.content) {
        Some(s) => seq![(false, s)],
        None => Seq::empty(),
    };
    let r = match nonempty(c.reasoning_content) {
        Some(s) => seq![(true, s)],
        None => Seq::empty(),
    };
    t + r
}

/// What the first `n` choices pass on, in order.
pub open spec fn chunk_emits(cs: Seq<StreamChoice>, n: int) -> Seq<(bool, Seq<char>)>
    decreases n,
{
    if n <= 0 || n > cs.len() {
        Seq::empty()
    } else {
        chunk_emits(cs, n - 1) + choice_emits(cs[n - 1])
    }
}

/// Reply text the first `n` choices add: their non-empty texts, in order.
pub open spec fn chunk_text(cs: Seq<StreamChoice>, n: int) -> Seq<char>
    decreases n,
{
    if n <= 0 || n > cs.len() {
        Seq::empty()
    } else {
        chunk_text(cs, n - 1) + match nonempty(cs[n - 1].content) {
            Some(s) => s,
            None => Seq::empty(),
        }
    }
}

/// A passed-on piece as (is reasoning, text).
pub open spec fn emit_view(e: StreamEmit) -> (bool, Seq<char>) {
    match e {
        StreamEmit::Token(s) => (false, s@),
        StreamEmit::Reasoning(s) => (true, s@),
    }
}

/// The reply assembled so far from a stream.
pub struct StreamAccumulator {
    content: String,
    input_tokens: u32,
    output_tokens: u32,
}

impl View for StreamAccumulator {
    type V = (Seq<char>, u32, u32);

    closed spec fn view(&self) -> (Seq<char>, u32, u32) {
        (self.content@, self.input_tokens, self.output_tokens)
    }
}

impl StreamAccumulator {
    /// Nothing received yet.
    pub fn new() -> (r: StreamAccumulator)
        ensures
            r@ == (Seq::<char>::empty(), 0u32, 0u32),
    {
        StreamAccumulator { content: String::new(), input_tokens: 0, output_tokens: 0 }
    }

    /// Takes in one parsed chunk: non-empty texts are appended to the reply
    /// and passed on as tokens, non-empty reasoning is passed on, and a
    /// reported usage replaces the token counts.
    pub fn apply(&mut self, chunk: &StreamChunk) -> (emits: Vec<StreamEmit>)
        ensures
            emits@.map_values(|e: StreamEmit| emit_view(e)) == chunk_emits(
                chunk.choices@,
                chunk.choices@.len() as int,
            ),
            final(self)@.0 == old(self)@.0 + chunk_text(chunk.choices@, chunk.choices@.len() as int),
            final(self)@.1 == (match chunk.usage {
                Some(u) => u.prompt_tokens,
                None => old(self)@.1,
            }),
            final(self)@.2 == (match chunk.usage {
                Some(u) => u.completion_tokens,
                None => old(self)@.2,
            }),
    {
        let mut emits: Vec<StreamEmit> = Vec::new();
        let ghost start = self.content@;
        let mut i: usize = 0;
        while i < chunk.choices.len()
            invariant
                i <= chunk.choices@.len(),
                self.input_tokens == old(self).input_tokens,
                self.output_tokens == old(self).output_tokens,
                start == old(self).content@,
                self.content@ == start + chunk_text(chunk.choices@, i as int),
                emits@.map_values(|e: StreamEmit| emit_view(e)) == chunk_emits(
                    chunk.choices@,
                    i as int,
                ),
            decreases chunk.choices@.len() - i,
        {
            let c = &chunk.choices[i];
            let ghost before = emits@.map_values(|e: StreamEmit| emit_view(e));
            match &c.content {
                Some(t) => {
                    if !t.as_str().is_empty() {
                        emits.push(StreamEmit::Token(t.clone()));
                        self.content.append(t.as_str());
                    }
                },
                None => {},
            }
            match &c.reasoning_content {
                Some(t) => {
                    if !t.as_str().is_empty() {
                        emits.push(StreamEmit::Reasoning(t.clone()));
                    }
                },
                None => {},
            }
            assert(emits@.map_values(|e: StreamEmit| emit_view(e)) =~= before + choice_emits(
                chunk.choices@[i as int],
            ));
            i = i + 1;
        }
        match chunk.usage {
            Some(u) => {
                self.input_tokens = u.prompt_tokens;
                self.output_tokens = u.completion_tokens;
            },
            None => {},
        }
        emits
    }

    /// The final result: the assembled reply and the last reported counts.
    pub fn finish(self) -> (r: ChatResult)
        ensures
            r.content@ == self@.0,
            r.input_tokens == self@.1,
            r.output_tokens == self@.2,
    {
        ChatResult {
            content: self.content,
            input_tokens: self.input_tokens,
            output_tokens: self.output_tokens,
        }
    }
}

/// The text a chunk adds to the reply is exactly the concatenation of the
/// tokens it passes on.
pub proof fn lemma_tokens_make_reply(cs: Seq<StreamChoice>, n: int)
    requires
        0 <= n <= cs.len(),
    ensures
        chunk_text(cs, n) == token_concat(chunk_emits(cs, n)),
    decreases n,
{
    if n > 0 {
        lemma_tokens_make_reply(cs, n - 1);
        lemma_token_concat_append(chunk_emits(cs, n - 1), choice_emits(cs[n - 1]));
        let c = cs[n - 1];
        let t = match nonempty(c.content) {
            Some(s) => seq![(false, s)],
            None => Seq::<(bool, Seq<char>)>::empty(),
        };
        let r = match nonempty(c.reasoning_content) {
            Some(s) => seq![(true, s)],
            None => Seq::<(bool, Seq<char>)>::empty(),
        };
        lemma_token_concat_append(t, r);
        reveal_with_fuel(token_concat, 2);
    }
}

/// The texts of the tokens (not the reasoning) among emits, concatenated.
pub open spec fn token_concat(es: Seq<(bool, Seq<char>)>) -> Seq<char>
    decreases es.len(),
{
    if es.len() == 0 {
        Seq::empty()
    } else {
        token_concat(es.drop_last()) + if es.last().0 {
            Seq::empty()
        } else {
            es.last().1
        }
    }
}

proof fn lemma_token_concat_append(a: Seq<(bool, Seq<char>)>, b: Seq<(bool, Seq<char>)>)
    ensures
        token_concat(a + b) == token_concat(a) + token_concat(b),
    decreases b.len(),
{
    if b.len() == 0 {
        assert(a + b =~= a);
    } else {
        lemma_token_concat_append(a, b.drop_last());
        assert((a + b).drop_last() =~= a + b.drop_last());
    }
}

/// Two valid UTF-8 byte strings concatenate to valid UTF-8 that decodes to
/// the concatenation of their texts.
proof fn lemma_decode_concat(a: Seq<u8>, b: Seq<u8>)
    requires
        vstd::utf8::valid_utf8(a),
        vstd::utf8::valid_utf8(b),
    ensures
        vstd::utf8::valid_utf8(a + b),
        vstd::utf8::decode_utf8(a + b) == vstd::utf8::decode_utf8(a) + vstd::utf8::decode_utf8(b),
{
    let x = vstd::utf8::decode_utf8(a);
    let y = vstd::utf8::decode_utf8(b);
    vstd::utf8::decode_utf8_encode_utf8(a);
    vstd::utf8::decode_utf8_encode_utf8(b);
    crate::web::lemma_encode_concat(x, y);
    vstd::utf8::encode_utf8_decode_utf8(x + y);
    vstd::utf8::encode_utf8_valid_utf8(x + y);
    assert(a + b == vstd::utf8::encode_utf8(x + y));
}

proof fn lemma_valid_up_to_bounds(b: Seq<u8>, j: int)
    requires
        0 <= j <= b.len(),
    ensures
        0 <= valid_up_to_from(b, j) <= j,
        vstd::utf8::valid_utf8(b.take(valid_up_to_from(b, j))),
    decreases j,
{
    if j <= 0 {
        assert(b.take(0) =~= Seq::<u8>::empty());
    } else if !vstd::utf8::valid_utf8(b.take(j)) {
        lemma_valid_up_to_bounds(b, j - 1);
    }
}

proof fn lemma_valid_up_to_at_least(b: Seq<u8>, j: int, i: int)
    requires
        0 <= i <= j <= b.len(),
        vstd::utf8::valid_utf8(b.take(i)),
    ensures
        valid_up_to_from(b, j) >= i,
    decreases j,
{
    if j > i && !vstd::utf8::valid_utf8(b.take(j)) {
        lemma_valid_up_to_at_least(b, j - 1, i);
    }
}

/// In valid UTF-8, a character boundary lies within 3 bytes before any
/// position.
proof fn lemma_boundary_near(w: Seq<u8>, m: int) -> (j: int)
    requires
        vstd::utf8::valid_utf8(w),
        0 <= m <= w.len(),
    ensures
        0 <= j <= m,
        m - 3 <= j,
        vstd::utf8::valid_utf8(w.take(j)),
    decreases w.len(),
{
    assert(w.take(0) =~= Seq::<u8>::empty());
    if m == 0 {
        0
    } else {
        let l = vstd::utf8::length_of_first_scalar(w);
        if m < l {
            0
        } else {
            let rest = vstd::utf8::pop_first_scalar(w);
            let head = w.take(l);
            assert(valid_utf8_first(w));
            let j2 = lemma_boundary_near(rest, m - l);
            assert(vstd::utf8::valid_utf8(head)) by {
                lemma_first_scalar_alone(w);
            }
            vstd::utf8::valid_utf8_concat(head, rest.take(j2));
            assert(w.take(l + j2) =~= head + rest.take(j2));
            l + j2
        }
    }
}

spec fn valid_utf8_first(w: Seq<u8>) -> bool {
    &&& vstd::utf8::valid_first_scalar(w)
    &&& 1 <= vstd::utf8::length_of_first_scalar(w) <= 4
    &&& vstd::utf8::length_of_first_scalar(w) <= w.len()
    &&& vstd::utf8::valid_utf8(vstd::utf8::pop_first_scalar(w))
}

proof fn lemma_first_scalar_alone(w: Seq<u8>)
    requires
        vstd::utf8::valid_utf8(w),
        w.len() > 0,
    ensures
        vstd::utf8::valid_utf8(w.take(vstd::utf8::length_of_first_scalar(w))),
{
    let l = vstd::utf8::length_of_first_scalar(w);
    let h = w.take(l);
    assert(h[0] == w[0]);
    assert(l >= 2 ==> h[1] == w[1]);
    assert(l >= 3 ==> h[2] == w[2]);
    assert(l >= 4 ==> h[3] == w[3]);
    assert(vstd::utf8::valid_first_scalar(h));
    assert(vstd::utf8::pop_first_scalar(h) =~= Seq::<u8>::empty());
    reveal_with_fuel(vstd::utf8::valid_utf8, 2);
}

/// The bytes after a valid UTF-8 prefix of valid UTF-8 are valid UTF-8.
proof fn lemma_valid_suffix(x: Seq<u8>, y: Seq<u8>)
    requires
        vstd::utf8::valid_utf8(x + y),
        vstd::utf8::valid_utf8(x),
    ensures
        vstd::utf8::valid_utf8(y),
    decreases x.len(),
{
    if x.len() == 0 {
        assert(x + y =~= y);
    } else {
        let xy = x + y;
        let l = vstd::utf8::length_of_first_scalar(x);
        assert(valid_utf8_first(x));
        assert(xy[0] == x[0]);
        assert(l >= 2 ==> xy[1] == x[1]);
        assert(l >= 3 ==> xy[2] == x[2]);
        assert(l >= 4 ==> xy[3] == x[3]);
        assert(vstd::utf8::length_of_first_scalar(xy) == l);
        assert(vstd::utf8::pop_first_scalar(xy) =~= vstd::utf8::pop_first_scalar(x) + y);
        lemma_valid_suffix(vstd::utf8::pop_first_scalar(x), y);
    }
}

/// When a chunk's bytes are a prefix of valid UTF-8 but not valid
/// themselves, what follows their longest valid prefix is a cut character.
proof fn lemma_cut_at_end(bytes: Seq<u8>, w: Seq<u8>, k: int)
    requires
        vstd::utf8::valid_utf8(w),
        bytes.len() <= w.len(),
        bytes == w.take(bytes.len() as int),
        k == valid_up_to(bytes),
        0 <= k < bytes.len(),
        vstd::utf8::valid_utf8(bytes.take(k)),
        bytes.take(k) == w.take(k),
        vstd::utf8::valid_utf8(w.skip(k)),
    ensures
        cut_char(bytes.skip(k)),
{
    let w2 = w.skip(k);
    let r = bytes.len() - k;
    let rest = bytes.skip(k);
    assert(rest =~= w2.take(r));
    let l = vstd::utf8::length_of_first_scalar(w2);
    assert(valid_utf8_first(w2));
    if l <= r {
        lemma_first_scalar_alone(w2);
        vstd::utf8::valid_utf8_concat(bytes.take(k), w2.take(l));
        assert(bytes.take(k + l) =~= bytes.take(k) + w2.take(l));
        lemma_valid_up_to_at_least(bytes, bytes.len() as int, k + l);
    }
    let u = w2.skip(r);
    assert(rest + u =~= w2);
    assert(vstd::utf8::valid_utf8(rest + u) && 0 < rest.len() < vstd::utf8::length_of_first_scalar(
        rest + u,
    ));
}

/// All the chunks, one after the other.
pub open spec fn concat_all(chunks: Seq<Seq<u8>>) -> Seq<u8>
    decreases chunks.len(),
{
    if chunks.len() == 0 {
        Seq::empty()
    } else {
        concat_all(chunks.drop_last()) + chunks.last()
    }
}

/// The buffer's (text, held bytes) after pushing the chunks, in order, into
/// an empty buffer.
pub open spec fn push_all(chunks: Seq<Seq<u8>>) -> (Seq<char>, Seq<u8>)
    decreases chunks.len(),
{
    if chunks.len() == 0 {
        (Seq::empty(), Seq::empty())
    } else {
        push_step(push_all(chunks.drop_last()), chunks.last())
    }
}

/// At every point of a valid UTF-8 stream `v`, however it was cut into
/// chunks, the buffer's text is the decoded stream up to the last character
/// boundary received, and it holds the (at most 3) bytes after it; at the
/// end of the stream it holds none.
pub proof fn lemma_push_all_prefix(v: Seq<u8>, chunks: Seq<Seq<u8>>)
    requires
        vstd::utf8::valid_utf8(v),
        concat_all(chunks).len() <= v.len(),
        v.take(concat_all(chunks).len() as int) == concat_all(chunks),
    ensures
        ({
            let e = concat_all(chunks).len() as int;
            let st = push_all(chunks);
            let b = e - st.1.len();
            &&& 0 <= b <= e
            &&& e - b < 4
            &&& st.1 == v.subrange(b, e)
            &&& vstd::utf8::valid_utf8(v.take(b))
            &&& vstd::utf8::valid_utf8(v.skip(b))
            &&& st.0 == vstd::utf8::decode_utf8(v.take(b))
            &&& (e == v.len() ==> st.1.len() == 0)
        }),
    decreases chunks.len(),
{
    if chunks.len() == 0 {
        assert(v.take(0) =~= Seq::<u8>::empty());
        assert(v.skip(0) =~= v);
        assert(v.subrange(0, 0) =~= Seq::<u8>::empty());
    } else {
        let pre = chunks.drop_last();
        let c = chunks.last();
        let cp = concat_all(pre);
        let e0 = cp.len() as int;
        let e = e0 + c.len();
        assert(concat_all(chunks) == cp + c);
        assert(v.take(e0) =~= cp) by {
            assert(v.take(e).take(e0) =~= (cp + c).take(e0));
        }
        lemma_push_all_prefix(v, pre);
        let st0 = push_all(pre);
        let b = e0 - st0.1.len();
        let bytes = st0.1 + c;
        assert(c =~= v.subrange(e0, e)) by {
            assert(v.take(e) == cp + c);
            assert forall|i: int| 0 <= i < c.len() implies v.subrange(e0, e)[i] == c[i] by {
                assert(v.take(e)[e0 + i] == (cp + c)[e0 + i]);
            }
        }
        lemma_push_step_prefix(v, st0, c, b, e0);
    }
}

/// One push keeps the buffer's state tied to the stream: its text is the
/// decoded stream up to a character boundary and it holds the bytes from
/// there to what was received.
proof fn lemma_push_step_prefix(v: Seq<u8>, st0: (Seq<char>, Seq<u8>), c: Seq<u8>, b: int, e0: int)
    requires
        vstd::utf8::valid_utf8(v),
        0 <= b <= e0,
        e0 - b < 4,
        e0 + c.len() <= v.len(),
        st0.1 == v.subrange(b, e0),
        c == v.subrange(e0, e0 + c.len()),
        vstd::utf8::valid_utf8(v.take(b)),
        vstd::utf8::valid_utf8(v.skip(b)),
        st0.0 == vstd::utf8::decode_utf8(v.take(b)),
    ensures
        ({
            let e = e0 + c.len();
            let st = push_step(st0, c);
            let b2 = e - st.1.len();
            &&& 0 <= b2 <= e
            &&& e - b2 < 4
            &&& st.1 == v.subrange(b2, e)
            &&& vstd::utf8::valid_utf8(v.take(b2))
            &&& vstd::utf8::valid_utf8(v.skip(b2))
            &&& st.0 == vstd::utf8::decode_utf8(v.take(b2))
            &&& (e == v.len() ==> st.1.len() == 0)
        }),
{
    let e = e0 + c.len();
    let bytes = st0.1 + c;
    assert(bytes =~= v.subrange(b, e));
    let w = v.skip(b);
    assert(bytes =~= w.take(e - b));
    let j = lemma_boundary_near(w, e - b);
    assert(bytes.take(j) =~= w.take(j));
    lemma_valid_up_to_at_least(bytes, bytes.len() as int, j);
    lemma_valid_up_to_bounds(bytes, bytes.len() as int);
    let k = valid_up_to(bytes);
    assert(bytes.take(k) =~= w.take(k));
    lemma_decode_concat(v.take(b), bytes.take(k));
    assert(v.take(b + k) =~= v.take(b) + bytes.take(k));
    assert(w =~= w.take(k) + w.skip(k));
    lemma_valid_suffix(w.take(k), w.skip(k));
    assert(w.skip(k) =~= v.skip(b + k));
    assert(bytes.skip(k) =~= v.subrange(b + k, e));
    if k == bytes.len() {
        assert(bytes.take(k) =~= bytes);
        assert(bytes.skip(k) =~= Seq::<u8>::empty());
    } else {
        lemma_cut_at_end(bytes, w, k);
    }
    assert(push_step(st0, c) == (st0.0 + vstd::utf8::decode_utf8(bytes.take(k)), bytes.skip(k)));
    if e == v.len() {
        assert(bytes =~= w);
        assert(bytes.take(bytes.len() as int) =~= bytes);
        lemma_valid_up_to_at_least(bytes, bytes.len() as int, bytes.len() as int);
    }
}

/// How a valid UTF-8 stream is cut into chunks, inside characters too, does
/// not change what the buffer receives: pushing the chunks in order gives
/// the whole stream's text and holds nothing back.
pub proof fn lemma_chunking_irrelevant(chunks: Seq<Seq<u8>>)
    requires
        vstd::utf8::valid_utf8(concat_all(chunks)),
    ensures
        push_all(chunks) == (vstd::utf8::decode_utf8(concat_all(chunks)), Seq::<u8>::empty()),
{
    let v = concat_all(chunks);
    assert(v.take(v.len() as int) =~= v);
    lemma_push_all_prefix(v, chunks);
    assert(push_all(chunks).1 =~= Seq::<u8>::empty());
}

} // verus!
