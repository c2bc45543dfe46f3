//! Text shaping for web tools: turning an HTML page into plain text and
//! percent-encoding a search query.
use vstd::prelude::*;
use vstd::utf8::encode_utf8;

use crate::text::{chars_of, decimal, is_whitespace, is_ws, string_of};

verus! {

/// State of the HTML scan after some prefix of the page.
pub struct StripState {
    pub in_tag: bool,
    pub in_script: bool,
    pub in_style: bool,
    pub text: Seq<char>,
}

/// The page character `c` matches the pattern character `p`, ignoring ASCII
/// case (patterns are written in lower case).
pub open spec fn char_matches(c: char, p: char) -> bool {
    c == p || ('A' <= c && c <= 'Z' && (c as u32) + 32 == (p as u32))
}

/// The pattern `p` occurs in `s` at index `i`, ignoring ASCII case.
pub open spec fn tag_at(s: Seq<char>, i: int, p: Seq<char>) -> bool {
    let w = s.subrange(i, i + p.len());
    &&& 0 <= i
    &&& i + p.len() <= s.len()
    &&& forall|k: int| 0 <= k < p.len() ==> char_matches(#[trigger] w[k], p[k])
}

/// `i` is a valid place to cut the UTF-8 bytes `b` (start, end, or the first
/// byte of an encoded character).
pub open spec fn boundary(b: Seq<u8>, i: int) -> bool {
    i == 0 || i == b.len() || (0 < i < b.len() && !(0x80 <= b[i] && b[i] <= 0xbf))
}

/// Start of the window of `w` characters before index `i` (and `i` itself).
pub open spec fn window_start(i: int, w: int) -> int {
    if i >= w {
        i - w
    } else {
        0
    }
}

/// The window `s[window_start(i, w) ..= i]` holds the pattern `p`.
pub open spec fn window_has(s: Seq<char>, i: int, w: int, p: Seq<char>) -> bool {
    exists|j: int| window_start(i, w) <= j && j + p.len() <= i + 1 && #[trigger] tag_at(s, j, p)
}

/// `<script`
pub open spec fn script_open() -> Seq<char> {
    seq!['<', 's', 'c', 'r', 'i', 'p', 't']
}

/// `<style`
pub open spec fn style_open() -> Seq<char> {
    seq!['<', 's', 't', 'y', 'l', 'e']
}

/// `/script>`
pub open spec fn script_end() -> Seq<char> {
    seq!['/', 's', 'c', 'r', 'i', 'p', 't', '>']
}

/// `/style>`
pub open spec fn style_end() -> Seq<char> {
    seq!['/', 's', 't', 'y', 'l', 'e', '>']
}

/// `</script>`
pub open spec fn script_close() -> Seq<char> {
    seq!['<', '/', 's', 'c', 'r', 'i', 'p', 't', '>']
}

/// `</style>`
pub open spec fn style_close() -> Seq<char> {
    seq!['<', '/', 's', 't', 'y', 'l', 'e', '>']
}

/// The scan state before the first character.
pub open spec fn strip_init() -> StripState {
    StripState { in_tag: false, in_script: false, in_style: false, text: Seq::empty() }
}

/// One step of the scan on the character at index `i` of the page `s`.
pub open spec fn strip_step(st: StripState, s: Seq<char>, i: int) -> StripState {
    let c = s[i];
    if !st.in_tag {
        if c == '<' {
            if tag_at(s, i, script_open()) {
                StripState { in_tag: true, in_script: true, ..st }
            } else if tag_at(s, i, style_open()) {
                StripState { in_tag: true, in_style: true, ..st }
            } else {
                StripState { in_tag: true, ..st }
            }
        } else if st.in_script || st.in_style {
            st
        } else {
            StripState { text: st.text.push(c), ..st }
        }
    } else if c == '>' {
        let s0 = StripState { in_tag: false, ..st };
        let s1 = if s0.in_script && window_has(s, i, 8, script_end()) {
            StripState { in_script: false, ..s0 }
        } else {
            s0
        };
        if s1.in_style && window_has(s, i, 6, style_end()) {
            StripState { in_style: false, ..s1 }
        } else {
            s1
        }
    } else if st.in_script && tag_at(s, i, script_close()) {
        StripState { in_script: false, ..st }
    } else if st.in_style && tag_at(s, i, style_close()) {
        StripState { in_style: false, ..st }
    } else {
        st
    }
}

/// The scan after the first `n` characters of the page.
pub open spec fn strip_run(s: Seq<char>, n: int) -> StripState
    decreases n,
{
    if n <= 0 {
        strip_init()
    } else {
        strip_step(strip_run(s, n - 1), s, n - 1)
    }
}

/// State of whitespace collapsing after a prefix: the output so far, and
/// whether whitespace was seen since the last word character.
pub open spec fn collapse_state(s: Seq<char>) -> (Seq<char>, bool)
    decreases s.len(),
{
    if s.len() == 0 {
        (Seq::empty(), false)
    } else {
        let prev = collapse_state(s.drop_last());
        let c = s.last();
        if is_ws(c) {
            (prev.0, true)
        } else if prev.1 && prev.0.len() > 0 {
            (prev.0.push(' ').push(c), false)
        } else {
            (prev.0.push(c), false)
        }
    }
}

/// The words of `s` (maximal runs of non-whitespace) joined by single spaces.
pub open spec fn collapse_ws(s: Seq<char>) -> Seq<char> {
    collapse_state(s).0
}

/// Plain text of an HTML page: everything outside `<...>` tags and outside
/// `<script>`/`<style>` elements, with whitespace runs collapsed to single
/// spaces and trimmed.
pub open spec fn stripped_text(html: Seq<char>) -> Seq<char> {
    collapse_ws(strip_run(html, html.len() as int).text)
}

fn char_matches_exec(c: char, p: char) -> (r: bool)
    ensures
        r == char_matches(c, p),
{
    c == p || ('A' <= c && c <= 'Z' && (c as u32) + 32 == (p as u32))
}

fn tag_at_exec(s: &Vec<char>, i: usize, p: &Vec<char>) -> (r: bool)
    ensures
        r == tag_at(s@, i as int, p@),
{
    let n = s.len();
    if i > n || p.len() > n - i {
        return false;
    }
    let ghost w = s@.subrange(i as int, i + p@.len());
    let mut k: usize = 0;
    while k < p.len()
        invariant
            k <= p.len(),
            n == s@.len(),
            i + p@.len() <= n,
            w == s@.subrange(i as int, i + p@.len()),
            forall|j: int| 0 <= j < k ==> char_matches(#[trigger] w[j], p@[j]),
        decreases p.len() - k,
    {
        assert(w[k as int] == s@[i + k]);
        if !char_matches_exec(s[i + k], p[k]) {
            return false;
        }
        k = k + 1;
    }
    true
}

fn window_start_exec(i: usize, w: usize) -> (r: usize)
    ensures
        r == window_start(i as int, w as int),
{
    if i >= w {
        i - w
    } else {
        0
    }
}

fn window_has_exec(s: &Vec<char>, i: usize, w: usize, p: &Vec<char>) -> (r: bool)
    requires
        i < s@.len(),
        p@.len() > 0,
    ensures
        r == window_has(s@, i as int, w as int, p@),
{
    let n = s.len();
    let start = window_start_exec(i, w);
    let mut j: usize = start;
    while j <= i
        invariant
            start == window_start(i as int, w as int),
            start <= j <= i + 1,
            i < n,
            n == s@.len(),
            p@.len() > 0,
            forall|k: int| start <= k < j ==> !(k + p@.len() <= i + 1 && #[trigger] tag_at(s@, k, p@)),
        decreases i + 1 - j,
    {
        if p.len() <= i + 1 - j && tag_at_exec(s, j, p) {
            return true;
        }
        j = j + 1;
    }
    assert forall|k: int|
        !(window_start(i as int, w as int) <= k && k + p@.len() <= i + 1 && #[trigger] tag_at(
            s@,
            k,
            p@,
        )) by {
        if window_start(i as int, w as int) <= k && k + p@.len() <= i + 1 {
            assert(k < j);
        }
    }
    false
}

fn script_open_chars() -> (v: Vec<char>)
    ensures
        v@ == script_open(),
{
    let v = vec!['<', 's', 'c', 'r', 'i', 'p', 't'];
    assert(v@ =~= script_open());
    v
}

fn style_open_chars() -> (v: Vec<char>)
    ensures
        v@ == style_open(),
{
    let v = vec!['<', 's', 't', 'y', 'l', 'e'];
    assert(v@ =~= style_open());
    v
}

fn script_end_chars() -> (v: Vec<char>)
    ensures
        v@ == script_end(),
{
    let v = vec!['/', 's', 'c', 'r', 'i', 'p', 't', '>'];
    assert(v@ =~= script_end());
    v
}

fn style_end_chars() -> (v: Vec<char>)
    ensures
        v@ == style_end(),
{
    let v = vec!['/', 's', 't', 'y', 'l', 'e', '>'];
    assert(v@ =~= style_end());
    v
}

fn script_close_chars() -> (v: Vec<char>)
    ensures
        v@ == script_close(),
{
    let v = vec!['<', '/', 's', 'c', 'r', 'i', 'p', 't', '>'];
    assert(v@ =~= script_close());
    v
}

fn style_close_chars() -> (v: Vec<char>)
    ensures
        v@ == style_close(),
{
    let v = vec!['<', '/', 's', 't', 'y', 'l', 'e', '>'];
    assert(v@ =~= style_close());
    v
}

/// Collapses whitespace: the words of `s` joined by single spaces (as
/// `s.split_whitespace().collect::<Vec<_>>().join(" ")` does).
pub fn collapse_whitespace(s: &Vec<char>) -> (r: String)
    ensures
        r@ == collapse_ws(s@),
{
    let mut out: Vec<char> = Vec::new();
    let mut gap = false;
    let mut i: usize = 0;
    while i < s.len()
        invariant
            i <= s.len(),
            (out@, gap) == collapse_state(s@.take(i as int)),
        decreases s.len() - i,
    {
        assert(s@.take(i + 1).drop_last() == s@.take(i as int));
        let c = s[i];
        if is_whitespace(c) {
            gap = true;
        } else {
            if gap && out.len() > 0 {
                out.push(' ');
            }
            out.push(c);
            gap = false;
        }
        i = i + 1;
    }
    assert(s@.take(s.len() as int) == s@);
    string_of(&out)
}

/// The scan over the page, returning its text before whitespace collapsing.
fn strip_scan(chars: &Vec<char>) -> (r: Vec<char>)
    ensures
        r@ == strip_run(chars@, chars@.len() as int).text,
{
    let so = script_open_chars();
    let sto = style_open_chars();
    let se = script_end_chars();
    let ste = style_end_chars();
    let sc = script_close_chars();
    let stc = style_close_chars();
    let mut text: Vec<char> = Vec::new();
    let mut in_tag = false;
    let mut in_script = false;
    let mut in_style = false;
    let mut i: usize = 0;
    while i < chars.len()
        invariant
            i <= chars.len(),
            so@ == script_open(),
            sto@ == style_open(),
            se@ == script_end(),
            ste@ == style_end(),
            sc@ == script_close(),
            stc@ == style_close(),
            strip_run(chars@, i as int) == (StripState { in_tag, in_script, in_style, text: text@ }),
        decreases chars.len() - i,
    {
        let c = chars[i];
        assert(strip_run(chars@, i + 1) == strip_step(strip_run(chars@, i as int), chars@, i as int));
        if !in_tag {
            if c == '<' {
                in_tag = true;
                if tag_at_exec(chars, i, &so) {
                    in_script = true;
                } else if tag_at_exec(chars, i, &sto) {
                    in_style = true;
                }
            } else if !in_script && !in_style {
                text.push(c);
            }
        } else if c == '>' {
            in_tag = false;
            if in_script && window_has_exec(chars, i, 8, &se) {
                in_script = false;
            }
            if in_style && window_has_exec(chars, i, 6, &ste) {
                in_style = false;
            }
        } else if in_script && tag_at_exec(chars, i, &sc) {
            in_script = false;
        } else if in_style && tag_at_exec(chars, i, &stc) {
            in_style = false;
        }
        i = i + 1;
    }
    text
}

/// Plain text of an HTML page: characters outside `<...>` tags and outside
/// script and style elements, whitespace collapsed to single spaces. The
/// `script` and `style` tag names are matched without regard to ASCII case.
pub fn strip_html_tags(html: &str) -> (r: String)
    ensures
        r@ == stripped_text(html@),
{
    let chars = chars_of(html);
    let t = strip_scan(&chars);
    collapse_whitespace(&t)
}

/// Characters that query encoding keeps as they are.
pub open spec fn url_unreserved(c: char) -> bool {
    ('A' <= c && c <= 'Z') || ('a' <= c && c <= 'z') || ('0' <= c && c <= '9') || c == '-' || c
        == '_' || c == '.' || c == '~'
}

/// Upper-case hexadecimal digit for `d < 16`.
pub open spec fn hex_upper(d: int) -> char {
    if d < 10 {
        crate::text::digit_char(d)
    } else if d == 10 {
        'A'
    } else if d == 11 {
        'B'
    } else if d == 12 {
        'C'
    } else if d == 13 {
        'D'
    } else if d == 14 {
        'E'
    } else {
        'F'
    }
}

/// Encoding of one character: unreserved characters stay, a space becomes
/// `+`, anything else becomes `%` and two upper-case hex digits of the low
/// byte of its code point.
pub open spec fn url_char(c: char) -> Seq<char> {
    if url_unreserved(c) {
        seq![c]
    } else if c == ' ' {
        seq!['+']
    } else {
        let b = (c as u32) as int % 256;
        seq!['%', hex_upper(b / 16), hex_upper(b % 16)]
    }
}

/// Encoding of a query, character by character.
pub open spec fn url_encode(s: Seq<char>) -> Seq<char>
    decreases s.len(),
{
    if s.len() == 0 {
        Seq::empty()
    } else {
        url_encode(s.drop_last()) + url_char(s.last())
    }
}

fn hex_digit(d: u32) -> (c: char)
    requires
        d < 16,
    ensures
        c == hex_upper(d as int),
{
    if d == 0 {
        '0'
    } else if d == 1 {
        '1'
    } else if d == 2 {
        '2'
    } else if d == 3 {
        '3'
    } else if d == 4 {
        '4'
    } else if d == 5 {
        '5'
    } else if d == 6 {
        '6'
    } else if d == 7 {
        '7'
    } else if d == 8 {
        '8'
    } else if d == 9 {
        '9'
    } else if d == 10 {
        'A'
    } else if d == 11 {
        'B'
    } else if d == 12 {
        'C'
    } else if d == 13 {
        'D'
    } else if d == 14 {
        'E'
    } else {
        'F'
    }
}

/// Percent-encodes a search query for a URL.
pub fn urlencoding(s: &str) -> (r: String)
    ensures
        r@ == url_encode(s@),
{
    let v = chars_of(s);
    let mut out: Vec<char> = Vec::new();
    let mut i: usize = 0;
    while i < v.len()
        invariant
            i <= v.len(),
            out@ == url_encode(v@.take(i as int)),
        decreases v.len() - i,
    {
        assert(v@.take(i + 1).drop_last() == v@.take(i as int));
        let c = v[i];
        if ('A' <= c && c <= 'Z') || ('a' <= c && c <= 'z') || ('0' <= c && c <= '9') || c == '-'
            || c == '_' || c == '.' || c == '~' {
            out.push(c);
        } else if c == ' ' {
            out.push('+');
        } else {
            let b: u32 = (c as u32) % 256;
            out.push('%');
            out.push(hex_digit(b / 16));
            out.push(hex_digit(b % 16));
        }
        i = i + 1;
    }
    assert(v@.take(v.len() as int) == v@);
    string_of(&out)
}


/// Text in which every whitespace character is a single space standing
/// between two non-whitespace characters.
pub open spec fn normalized(t: Seq<char>) -> bool {
    forall|i: int|
        0 <= i < t.len() && is_ws(#[trigger] t[i]) ==> t[i] == ' ' && 0 < i && i + 1 < t.len()
            && !is_ws(t[i - 1]) && !is_ws(t[i + 1])
}

/// Collapsed text has no leading or trailing whitespace and no whitespace
/// other than single spaces between words.
pub proof fn lemma_collapse_normalized(s: Seq<char>)
    ensures
        normalized(collapse_ws(s)),
{
    lemma_collapse_state_normalized(s);
}

proof fn lemma_collapse_state_normalized(s: Seq<char>)
    ensures
        normalized(collapse_state(s).0),
        collapse_state(s).0.len() > 0 ==> !is_ws(collapse_state(s).0.last()),
    decreases s.len(),
{
    if s.len() > 0 {
        lemma_collapse_state_normalized(s.drop_last());
        let prev = collapse_state(s.drop_last());
        let c = s.last();
        let t = collapse_state(s).0;
        if !is_ws(c) {
            if prev.1 && prev.0.len() > 0 {
                assert forall|i: int|
                    0 <= i < t.len() && is_ws(#[trigger] t[i]) implies t[i] == ' ' && 0 < i && i + 1
                    < t.len() && !is_ws(t[i - 1]) && !is_ws(t[i + 1]) by {
                    if i < prev.0.len() {
                        assert(t[i] == prev.0[i]);
                        assert(i != prev.0.len() - 1);
                        assert(t[i - 1] == prev.0[i - 1]);
                        assert(t[i + 1] == prev.0[i + 1]);
                    } else if i == prev.0.len() {
                        assert(t[i - 1] == prev.0.last());
                    }
                }
            } else {
                assert forall|i: int|
                    0 <= i < t.len() && is_ws(#[trigger] t[i]) implies t[i] == ' ' && 0 < i && i + 1
                    < t.len() && !is_ws(t[i - 1]) && !is_ws(t[i + 1]) by {
                    if i < prev.0.len() {
                        assert(t[i] == prev.0[i]);
                        assert(i != prev.0.len() - 1);
                        assert(t[i - 1] == prev.0[i - 1]);
                        assert(t[i + 1] == prev.0[i + 1]);
                    }
                }
            }
        }
    }
}

proof fn lemma_run_text_has_no_lt(chars: Seq<char>, n: int)
    ensures
        forall|i: int|
            0 <= i < strip_run(chars, n).text.len() ==> #[trigger] strip_run(chars, n).text[i] != '<',
    decreases n,
{
    if n > 0 {
        lemma_run_text_has_no_lt(chars, n - 1);
        let prev = strip_run(chars, n - 1);
        let st = strip_run(chars, n);
        assert forall|i: int| 0 <= i < st.text.len() implies #[trigger] st.text[i] != '<' by {
            if i < prev.text.len() {
                assert(st.text.len() == prev.text.len() || st.text == prev.text.push(chars[n - 1]));
            }
        }
    }
}

proof fn lemma_collapse_keeps_no_lt(s: Seq<char>)
    requires
        forall|i: int| 0 <= i < s.len() ==> s[i] != '<',
    ensures
        forall|i: int| 0 <= i < collapse_state(s).0.len() ==> #[trigger] collapse_state(s).0[i] != '<',
    decreases s.len(),
{
    if s.len() > 0 {
        lemma_collapse_keeps_no_lt(s.drop_last());
        let prev = collapse_state(s.drop_last()).0;
        let t = collapse_state(s).0;
        assert forall|i: int| 0 <= i < t.len() implies #[trigger] t[i] != '<' by {
            if i < prev.len() {
                assert(t[i] == prev[i]);
            } else {
                assert(s[s.len() - 1] == s.last());
            }
        }
    }
}

proof fn lemma_collapse_prefix_of_normalized(t: Seq<char>, k: int)
    requires
        normalized(t),
        0 <= k <= t.len(),
    ensures
        collapse_state(t.take(k)) == (if k > 0 && is_ws(t[k - 1]) {
            (t.take(k - 1), true)
        } else {
            (t.take(k), false)
        }),
    decreases k,
{
    if k > 0 {
        lemma_collapse_prefix_of_normalized(t, k - 1);
        assert(t.take(k).drop_last() =~= t.take(k - 1));
        assert(t.take(k).last() == t[k - 1]);
        let c = t[k - 1];
        if is_ws(c) {
            assert(is_ws(t[k - 1]));
        } else if k > 1 && is_ws(t[k - 2]) {
            assert(is_ws(t[k - 2]));
            assert(t[k - 2] == ' ');
            assert(t.take(k - 2).push(' ').push(c) =~= t.take(k));
        } else {
            assert(t.take(k - 1).push(c) =~= t.take(k));
        }
    }
}

/// Text already in normal form (single spaces between words, none at the
/// ends) collapses to itself.
proof fn lemma_collapse_normalized_fixed(t: Seq<char>)
    requires
        normalized(t),
    ensures
        collapse_ws(t) == t,
{
    lemma_collapse_prefix_of_normalized(t, t.len() as int);
    assert(t.take(t.len() as int) =~= t);
    if t.len() > 0 && is_ws(t[t.len() - 1]) {
        assert(is_ws(t[t.len() - 1]));
    }
}

/// The text of a page holds no `<`, and stripping it again gives it back.
pub proof fn lemma_stripped_text_is_fixed(html: Seq<char>)
    ensures
        forall|i: int| 0 <= i < stripped_text(html).len() ==> #[trigger] stripped_text(html)[i] != '<',
        stripped_text(stripped_text(html)) == stripped_text(html),
{
    let st = strip_run(html, html.len() as int);
    lemma_run_text_has_no_lt(html, html.len() as int);
    lemma_collapse_keeps_no_lt(st.text);
    let r = collapse_ws(st.text);
    lemma_collapse_normalized(st.text);
    lemma_collapse_normalized_fixed(r);
    assert forall|i: int| 0 <= i < r.len() implies r[i] != '<' by {
        assert(collapse_state(st.text).0[i] != '<');
    }
    lemma_tagless_page_is_text(r);
}

/// The laws of page text, on every page: it holds no `<`; it is in normal
/// form (collapsing its whitespace gives it back); stripping it again gives
/// it back; and a page without `<` has as text its own words joined by
/// single spaces.
pub proof fn lemma_page_text_laws(html: Seq<char>)
    ensures
        forall|i: int| 0 <= i < stripped_text(html).len() ==> #[trigger] stripped_text(html)[i] != '<',
        collapse_ws(stripped_text(html)) == stripped_text(html),
        stripped_text(stripped_text(html)) == stripped_text(html),
        (forall|i: int| 0 <= i < html.len() ==> html[i] != '<') ==> stripped_text(html) == collapse_ws(
            html,
        ),
{
    lemma_stripped_text_is_fixed(html);
    let st = strip_run(html, html.len() as int);
    lemma_collapse_normalized(st.text);
    lemma_collapse_normalized_fixed(collapse_ws(st.text));
    if forall|i: int| 0 <= i < html.len() ==> html[i] != '<' {
        lemma_tagless_page_is_text(html);
    }
}

/// A page without `<` is its own text: only whitespace is collapsed.
pub proof fn lemma_tagless_page_is_text(html: Seq<char>)
    requires
        forall|i: int| 0 <= i < html.len() ==> html[i] != '<',
    ensures
        stripped_text(html) == collapse_ws(html),
{
    lemma_tagless_run(html, html.len() as int);
    assert(html.take(html.len() as int) == html);
}

proof fn lemma_tagless_run(html: Seq<char>, n: int)
    requires
        0 <= n <= html.len(),
        forall|i: int| 0 <= i < html.len() ==> html[i] != '<',
    ensures
        strip_run(html, n) == (StripState {
            in_tag: false,
            in_script: false,
            in_style: false,
            text: html.take(n),
        }),
    decreases n,
{
    if n > 0 {
        lemma_tagless_run(html, n - 1);
        assert(html.take(n) == html.take(n - 1).push(html[n - 1]));
    } else {
        assert(html.take(0) =~= Seq::<char>::empty());
    }
}

/// Characters an encoded query may hold: unreserved ones, `+` and `%`.
pub open spec fn url_safe(c: char) -> bool {
    url_unreserved(c) || c == '+' || c == '%'
}

/// An encoded query holds only unreserved characters, `+` and `%`.
pub proof fn lemma_url_encode_safe(s: Seq<char>)
    ensures
        forall|i: int| 0 <= i < url_encode(s).len() ==> url_safe(#[trigger] url_encode(s)[i]),
    decreases s.len(),
{
    if s.len() > 0 {
        lemma_url_encode_safe(s.drop_last());
        let prev = url_encode(s.drop_last());
        let tail = url_char(s.last());
        assert(forall|d: int| 0 <= d < 16 ==> url_unreserved(#[trigger] hex_upper(d)));
        assert forall|i: int| 0 <= i < url_encode(s).len() implies url_safe(
            #[trigger] url_encode(s)[i],
        ) by {
            if i < prev.len() {
                assert(url_encode(s)[i] == prev[i]);
            } else {
                assert(url_encode(s)[i] == tail[i - prev.len()]);
            }
        }
    }
}

/// Value of a hexadecimal digit (either case); -1 for any other character.
pub open spec fn hex_value(c: char) -> int {
    if '0' <= c && c <= '9' {
        (c as u32) - ('0' as u32)
    } else if 'A' <= c && c <= 'F' {
        (c as u32) - ('A' as u32) + 10
    } else if 'a' <= c && c <= 'f' {
        (c as u32) - ('a' as u32) + 10
    } else {
        -1
    }
}

/// The bytes a form-encoded text stands for: `+` is a space, `%` and two
/// hexadecimal digits is the byte they spell, any other character is its
/// UTF-8 bytes.
pub open spec fn url_decode(t: Seq<char>) -> Seq<u8>
    decreases t.len(),
{
    if t.len() == 0 {
        Seq::empty()
    } else if t[0] == '+' {
        seq![32u8] + url_decode(t.skip(1))
    } else if t[0] == '%' && t.len() >= 3 && hex_value(t[1]) >= 0 && hex_value(t[2]) >= 0 {
        seq![(hex_value(t[1]) * 16 + hex_value(t[2])) as u8] + url_decode(t.skip(3))
    } else {
        encode_utf8(seq![t[0]]) + url_decode(t.skip(1))
    }
}

proof fn lemma_hex_round_trip(d: int)
    requires
        0 <= d < 16,
    ensures
        hex_value(hex_upper(d)) == d,
{
}

proof fn lemma_ascii_encoding(c: char)
    requires
        (c as u32) < 128,
    ensures
        encode_utf8(seq![c]) == seq![(c as u32) as u8],
{
    let x = c as u32;
    assert((x & 0x7F) == x) by (bit_vector)
        requires
            x < 128,
    ;
    assert(seq![c].drop_first() =~= Seq::<char>::empty());
    assert(encode_utf8(Seq::<char>::empty()) =~= Seq::<u8>::empty());
    assert(seq![c][0] == c);
    assert(vstd::utf8::encode_scalar(x) == seq![vstd::utf8::leading_byte_width_1(x)]);
    assert(vstd::utf8::leading_byte_width_1(x) == x as u8);
    assert(encode_utf8(seq![c]) =~= seq![(c as u32) as u8]);
}

/// An encoded ASCII character decodes to its byte, whatever follows it.
proof fn lemma_url_char_decodes(c: char, rest: Seq<char>)
    requires
        (c as u32) < 128,
    ensures
        url_decode(url_char(c) + rest) == encode_utf8(seq![c]) + url_decode(rest),
{
    let t = url_char(c) + rest;
    lemma_ascii_encoding(c);
    if url_unreserved(c) {
        assert(t.skip(1) =~= rest);
        assert(t[0] == c);
    } else if c == ' ' {
        assert(t.skip(1) =~= rest);
        assert(t[0] == '+');
    } else {
        let b = (c as u32) as int % 256;
        assert(b == (c as u32) as int);
        lemma_hex_round_trip(b / 16);
        lemma_hex_round_trip(b % 16);
        assert(t[0] == '%' && t[1] == hex_upper(b / 16) && t[2] == hex_upper(b % 16));
        assert(t.skip(3) =~= rest);
        assert((b / 16) * 16 + b % 16 == b);
    }
}

/// The encoding of a non-empty query is that of its first character followed
/// by that of the rest.
proof fn lemma_url_encode_front(s: Seq<char>)
    requires
        s.len() > 0,
    ensures
        url_encode(s) == url_char(s[0]) + url_encode(s.skip(1)),
    decreases s.len(),
{
    if s.len() == 1 {
        assert(s.drop_last() =~= Seq::<char>::empty());
        assert(s.skip(1) =~= Seq::<char>::empty());
        assert(url_char(s[0]) + Seq::<char>::empty() =~= url_char(s[0]));
    } else {
        let d = s.drop_last();
        lemma_url_encode_front(d);
        assert(s.skip(1).drop_last() =~= d.skip(1));
        assert(s.skip(1).last() == s.last());
        assert(url_encode(s) =~= url_char(s[0]) + url_encode(s.skip(1)));
    }
}

/// Decoding the encoding of an ASCII query as a form (`+` a space, `%` and
/// two hex digits a byte) gives back the query. (Other characters are
/// encoded by the low byte of their code point alone, so the law is stated
/// for ASCII text.)
pub proof fn lemma_url_decode_inverts(s: Seq<char>)
    requires
        forall|i: int| 0 <= i < s.len() ==> (s[i] as u32) < 128,
    ensures
        url_decode(url_encode(s)) == encode_utf8(s),
        vstd::utf8::decode_utf8(url_decode(url_encode(s))) == s,
    decreases s.len(),
{
    if s.len() == 0 {
        assert(url_encode(s) =~= Seq::<char>::empty());
    } else {
        let rest = s.skip(1);
        lemma_url_encode_front(s);
        lemma_url_char_decodes(s[0], url_encode(rest));
        assert forall|i: int| 0 <= i < rest.len() implies (rest[i] as u32) < 128 by {
            assert(rest[i] == s[i + 1]);
        }
        lemma_url_decode_inverts(rest);
        lemma_encode_concat(seq![s[0]], rest);
        assert(seq![s[0]] + rest =~= s);
    }
    vstd::utf8::encode_utf8_decode_utf8(s);
}

/// One related topic of a search response.
pub struct SearchTopic {
    pub text: Option<String>,
    pub url: Option<String>,
}

/// The parts of a search response the report uses.
pub struct SearchResponse {
    pub abstract_text: Option<String>,
    pub topics: Option<Vec<SearchTopic>>,
}

/// An optional text as an optional character sequence.
pub open spec fn opt_view(o: Option<String>) -> Option<Seq<char>> {
    match o {
        Some(s) => Some(s@),
        None => None,
    }
}

/// A related topic as (text, link).
pub open spec fn topic_view(t: SearchTopic) -> (Option<Seq<char>>, Option<Seq<char>>) {
    (opt_view(t.text), opt_view(t.url))
}

/// The plain values of a search response.
pub open spec fn response_view(r: SearchResponse) -> (
    Option<Seq<char>>,
    Option<Seq<(Option<Seq<char>>, Option<Seq<char>>)>>,
) {
    (
        opt_view(r.abstract_text),
        match r.topics {
            Some(ts) => Some(ts@.map_values(|t: SearchTopic| topic_view(t))),
            None => None,
        },
    )
}

/// What a search response body holds, read as JSON: `None` when the body is
/// not JSON; else the string `AbstractText` (if it is a string) and, when
/// `RelatedTopics` is an array, for each item its string `Text` and
/// `FirstURL` (each where present and a string).
pub uninterp spec fn search_fields(body: Seq<char>) -> Option<
    (Option<Seq<char>>, Option<Seq<(Option<Seq<char>>, Option<Seq<char>>)>>),
>;

/// `serde_json::from_str::<serde_json::Value>` on a search response body,
/// with the fields the report uses picked out; what comes back is named.
#[verifier::external_body]
pub(crate) fn read_search_response(body: &str) -> (r: Option<SearchResponse>)
    ensures
        r is Some <==> search_fields(body@) is Some,
        r matches Some(x) ==> response_view(x) == search_fields(body@)->0,
{
    let v: serde_json::Value = serde_json::from_str(body).ok()?;
    let pick = |x: &serde_json::Value, k: &str| x.get(k).and_then(|t| t.as_str()).map(|t| t.to_string());
    let topics = v.get("RelatedTopics").and_then(|t| t.as_array()).map(
        |a| a.iter().map(|r| SearchTopic { text: pick(r, "Text"), url: pick(r, "FirstURL") }).collect(),
    );
    Some(SearchResponse { abstract_text: pick(&v, "AbstractText"), topics })
}

/// The search request URL for a query.
pub open spec fn search_url_spec(query: Seq<char>) -> Seq<char> {
    "https://api.duckduckgo.com/?q="@ + url_encode(query) + "&format=json&no_html=1&skip_disambig=1"@
}

/// The complete related topics (those with both a text and a link) among
/// the first `n`, as (position, text, link), in order.
pub open spec fn complete_topics(ts: Seq<(Option<Seq<char>>, Option<Seq<char>>)>, n: int) -> Seq<
    (int, Seq<char>, Seq<char>),
>
    decreases n,
{
    if n <= 0 || n > ts.len() {
        Seq::empty()
    } else {
        complete_topics(ts, n - 1) + match ts[n - 1] {
            (Some(text), Some(url)) => seq![(n - 1, text, url)],
            _ => Seq::empty(),
        }
    }
}

/// Report lines for the first `n` results, each numbered by its topic's
/// position in the response (from 1).
pub open spec fn result_lines(rs: Seq<(int, Seq<char>, Seq<char>)>, n: int) -> Seq<char>
    decreases n,
{
    if n <= 0 || n > rs.len() {
        Seq::empty()
    } else {
        result_lines(rs, n - 1) + decimal((rs[n - 1].0 + 1) as nat) + ". "@ + rs[n - 1].1 + " - "@
            + rs[n - 1].2 + "\n"@
    }
}

proof fn lemma_complete_topics_grow(ts: Seq<(Option<Seq<char>>, Option<Seq<char>>)>, i: int, m: int)
    requires
        0 <= i <= m <= ts.len(),
    ensures
        complete_topics(ts, i).len() <= complete_topics(ts, m).len(),
        complete_topics(ts, m).take(complete_topics(ts, i).len() as int) == complete_topics(ts, i),
    decreases m - i,
{
    if i < m {
        lemma_complete_topics_grow(ts, i, m - 1);
        let a = complete_topics(ts, i);
        let b = complete_topics(ts, m - 1);
        let c = complete_topics(ts, m);
        assert(c.take(a.len() as int) =~= b.take(a.len() as int));
    } else {
        assert(complete_topics(ts, m).take(complete_topics(ts, m).len() as int) =~= complete_topics(ts, m));
    }
}

proof fn lemma_result_lines_prefix(
    a: Seq<(int, Seq<char>, Seq<char>)>,
    b: Seq<(int, Seq<char>, Seq<char>)>,
    n: int,
)
    requires
        0 <= n <= a.len(),
        n <= b.len(),
        a.take(n) == b.take(n),
    ensures
        result_lines(a, n) == result_lines(b, n),
    decreases n,
{
    if n > 0 {
        assert(a.take(n - 1) =~= a.take(n).take(n - 1));
        assert(b.take(n - 1) =~= b.take(n).take(n - 1));
        assert(a[n - 1] == a.take(n)[n - 1]);
        assert(b[n - 1] == b.take(n)[n - 1]);
        lemma_result_lines_prefix(a, b, n - 1);
    }
}

/// Report of a search whose response was JSON.
pub open spec fn search_text(
    query: Seq<char>,
    max_results: u64,
    fields: (Option<Seq<char>>, Option<Seq<(Option<Seq<char>>, Option<Seq<char>>)>>),
) -> Seq<char> {
    let a = match fields.0 {
        Some(t) => if t.len() > 0 {
            "摘要: "@ + t + "\n\n"@
        } else {
            Seq::empty()
        },
        None => Seq::empty(),
    };
    let b = match fields.1 {
        Some(ts) => {
            let rs = complete_topics(ts, ts.len() as int);
            result_lines(rs, if rs.len() < max_results {
                rs.len() as int
            } else {
                max_results as int
            })
        },
        None => Seq::empty(),
    };
    if (a + b).len() == 0 {
        "未找到 '"@ + query + "' 的相关结果"@
    } else {
        a + b
    }
}

/// The body can be cut after its first 2000 bytes (or is no longer).
pub open spec fn raw_cut_ok(body: Seq<char>) -> bool {
    encode_utf8(body).len() <= 2000 || boundary(encode_utf8(body), 2000)
}

/// Report of a search response body that is not JSON: its first 2000 bytes.
pub open spec fn raw_text_bytes(body: Seq<char>) -> Seq<u8> {
    let b = encode_utf8(body);
    encode_utf8("搜索结果(原始): "@) + b.take(if b.len() < 2000 {
        b.len() as int
    } else {
        2000
    })
}

/// The `web_search` tool.
pub struct WebSearchTool;

impl WebSearchTool {
    /// Which tool this is.
    pub fn kind(&self) -> (k: crate::tools::ToolKind)
        ensures
            k == crate::tools::ToolKind::WebSearch,
    {
        crate::tools::ToolKind::WebSearch
    }

    /// The request URL for a query.
    pub fn search_url(query: &str) -> (r: String)
        ensures
            r@ == search_url_spec(query@),
    {
        let mut r = crate::text::owned("https://api.duckduckgo.com/?q=");
        r.append(urlencoding(query).as_str());
        r.append("&format=json&no_html=1&skip_disambig=1");
        r
    }

    /// Report text of a search response read as JSON (its abstract and
    /// related topics).
    pub fn search_report_text(query: &str, max_results: u64, resp: &SearchResponse) -> (r: String)
        ensures
            r@ == search_text(query@, max_results, response_view(*resp)),
    {
        let mut a = String::new();
        match &resp.abstract_text {
            Some(t) => {
                if !t.as_str().is_empty() {
                    a.append("摘要: ");
                    a.append(t.as_str());
                    a.append("\n\n");
                }
            },
            None => {},
        }
        let mut out = a;
        match &resp.topics {
            Some(ts) => {
                let ghost tv = ts@.map_values(|t: SearchTopic| topic_view(t));
                let ghost base = out@;
                let mut i: usize = 0;
                let mut shown: u64 = 0;
                while i < ts.len() && shown < max_results
                    invariant
                        i <= ts@.len(),
                        shown <= max_results,
                        tv == ts@.map_values(|t: SearchTopic| topic_view(t)),
                        shown == complete_topics(tv, i as int).len(),
                        out@ == base + result_lines(complete_topics(tv, i as int), shown as int),
                    decreases ts@.len() - i,
                {
                    let t = &ts[i];
                    let ghost cs = complete_topics(tv, i as int);
                    assert(tv[i as int] == topic_view(*t));
                    match (&t.text, &t.url) {
                        (Some(text), Some(url)) => {
                            let ghost cs2 = complete_topics(tv, i + 1);
                            proof {
                                assert(cs2 == cs.push((i as int, text@, url@)));
                                assert(cs.take(shown as int) =~= cs2.take(shown as int));
                                lemma_result_lines_prefix(cs, cs2, shown as int);
                            }
                            out.append(crate::text::u64_to_decimal((i as u64) + 1).as_str());
                            out.append(". ");
                            out.append(text.as_str());
                            out.append(" - ");
                            out.append(url.as_str());
                            out.append("\n");
                            shown = shown + 1;
                        },
                        _ => {
                            assert(complete_topics(tv, i + 1) == cs);
                        },
                    }
                    i = i + 1;
                }
                proof {
                    let all = complete_topics(tv, tv.len() as int);
                    let cs = complete_topics(tv, i as int);
                    lemma_complete_topics_grow(tv, i as int, tv.len() as int);
                    let k = if all.len() < max_results {
                        all.len() as int
                    } else {
                        max_results as int
                    };
                    assert(k == shown as int);
                    assert(all.take(k) == cs.take(k));
                    lemma_result_lines_prefix(all, cs, k);
                }
            },
            None => {},
        }
        if out.as_str().is_empty() {
            let mut s = crate::text::owned("未找到 '");
            s.append(query);
            s.append("' 的相关结果");
            s
        } else {
            out
        }
    }

    /// Report of a search from the response body: the abstract and up to
    /// `max_results` related topics when the body is JSON, else the raw body
    /// cut after 2000 bytes.
    pub fn report(query: &str, max_results: u64, body: &str) -> (r: crate::tools::ToolResult)
        requires
            search_fields(body@) is Some || raw_cut_ok(body@),
        ensures
            r.success,
            r.tool_name@ == "web_search"@,
            search_fields(body@) matches Some(f) ==> r.output@ == search_text(query@, max_results, f),
            search_fields(body@) is None ==> encode_utf8(r.output@) == raw_text_bytes(body@),
    {
        match read_search_response(body) {
            Some(resp) => crate::tools::ToolResult::make(
                true,
                Self::search_report_text(query, max_results, &resp),
                "web_search",
            ),
            None => {
                let n = if body.as_bytes().len() < 2000 {
                    body.as_bytes().len()
                } else {
                    2000
                };
                proof {
                    lemma_boundary_agrees(body@, n as int);
                }
                let head = body.split_at(n).0;
                let mut s = crate::text::owned("搜索结果(原始): ");
                s.append(head);
                proof {
                    vstd::utf8::encode_utf8_decode_utf8(s@);
                    lemma_encode_concat("搜索结果(原始): "@, head@);
                }
                crate::tools::ToolResult::make(true, s, "web_search")
            },
        }
    }

    /// The report where one can be made; `None` where the raw body would be
    /// cut inside a character.
    pub fn try_report(query: &str, max_results: u64, body: &str) -> (r: Option<crate::tools::ToolResult>)
        ensures
            r is Some <==> (search_fields(body@) is Some || raw_cut_ok(body@)),
            r matches Some(t) ==> (search_fields(body@) matches Some(f) ==> t.output@ == search_text(query@, max_results, f)),
            r matches Some(t) ==> (search_fields(body@) is None ==> encode_utf8(t.output@) == raw_text_bytes(body@)),
    {
        let parses = read_search_response(body).is_some();
        let b = body.as_bytes();
        proof {
            lemma_boundary_agrees(body@, 2000);
        }
        if parses || b.len() <= 2000 || body.is_char_boundary(2000) {
            proof {
                lemma_boundary_agrees(body@, 2000);
            }
            Some(Self::report(query, max_results, body))
        } else {
            None
        }
    }
}

/// On UTF-8 text, `boundary` is std's notion of a character boundary.
pub proof fn lemma_boundary_agrees(chars: Seq<char>, i: int)
    ensures
        vstd::utf8::is_char_boundary(encode_utf8(chars), i) == boundary(encode_utf8(chars), i),
{
    let b = encode_utf8(chars);
    vstd::utf8::encode_utf8_valid_utf8(chars);
    vstd::utf8::is_char_boundary_start_end_of_seq(b);
    if 0 < i < b.len() {
        vstd::utf8::is_char_boundary_iff_not_is_continuation_byte(b, i);
    }
}

/// UTF-8 encoding of a concatenation is the concatenation of the encodings.
pub(crate) proof fn lemma_encode_concat(a: Seq<char>, b: Seq<char>)
    ensures
        encode_utf8(a + b) == encode_utf8(a) + encode_utf8(b),
    decreases a.len(),
{
    if a.len() > 0 {
        lemma_encode_concat(a.drop_first(), b);
        assert((a + b).drop_first() =~= a.drop_first() + b);
    } else {
        assert(a + b =~= b);
    }
}

/// Report of a fetched page: its status code, the first 5000 characters of
/// its text, and a cut marker when the text is over 5000 bytes.
pub open spec fn page_text(status: u16, text: Seq<char>) -> Seq<char> {
    "[状态码: "@ + crate::text::decimal(status as nat) + "]\n"@ + crate::tools::prefix_chars(text, 5000)
        + crate::tools::cut_marker(text, 5000)
}

/// The `web_fetch` tool.
pub struct WebFetchTool;

impl WebFetchTool {
    /// Which tool this is.
    pub fn kind(&self) -> (k: crate::tools::ToolKind)
        ensures
            k == crate::tools::ToolKind::WebFetch,
    {
        crate::tools::ToolKind::WebFetch
    }

    /// Report of a fetched page (its HTML reduced to text).
    pub fn page_output(status: u16, body: &str) -> (r: String)
        ensures
            r@ == page_text(status, stripped_text(body@)),
    {
        let text = strip_html_tags(body);
        let mut r = crate::text::owned("[状态码: ");
        r.append(crate::text::u64_to_decimal(status as u64).as_str());
        r.append("]\n");
        r.append(crate::text::take_chars(text.as_str(), 5000).as_str());
        if text.as_str().as_bytes().len() > 5000 {
            r.append("\n...(截断)");
        }
        r
    }
}

} // verus!
