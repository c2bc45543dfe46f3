//! Extraction of tool calls from a model reply. A call is written as
//! `<tool_call><tool_name>NAME</tool_name><tool_args>JSON</tool_args></tool_call>`;
//! the bracketed parts match lazily (the nearest closing tag ends a part)
//! and may span line breaks.
use vstd::prelude::*;

use crate::json::{json_text_parses, json_value_of, parse_json};
use crate::text::{chars_of, has_infix, occurs_at, occurs_at_exec, slice_vec, trim_spec, trim_vec};

verus! {

/// One tool call found in a reply.
#[derive(Debug)]
pub struct ParsedToolCall {
    pub name: String,
    /// The arguments, parsed from `args_text`.
    pub args: serde_json::Value,
    /// The trimmed argument text the arguments were parsed from.
    pub args_text: String,
}

/// `<tool_call>`
pub open spec fn call_open() -> Seq<char> {
    seq!['<', 't', 'o', 'o', 'l', '_', 'c', 'a', 'l', 'l', '>']
}

/// `</tool_call>`
pub open spec fn call_close() -> Seq<char> {
    seq!['<', '/', 't', 'o', 'o', 'l', '_', 'c', 'a', 'l', 'l', '>']
}

/// `<tool_name>`
pub open spec fn name_open() -> Seq<char> {
    seq!['<', 't', 'o', 'o', 'l', '_', 'n', 'a', 'm', 'e', '>']
}

/// `</tool_name>`
pub open spec fn name_close() -> Seq<char> {
    seq!['<', '/', 't', 'o', 'o', 'l', '_', 'n', 'a', 'm', 'e', '>']
}

/// `<tool_args>`
pub open spec fn args_open() -> Seq<char> {
    seq!['<', 't', 'o', 'o', 'l', '_', 'a', 'r', 'g', 's', '>']
}

/// `</tool_args>`
pub open spec fn args_close() -> Seq<char> {
    seq!['<', '/', 't', 'o', 'o', 'l', '_', 'a', 'r', 'g', 's', '>']
}

/// First index `e >= i` where `close` occurs in `s`.
pub open spec fn close_from(s: Seq<char>, close: Seq<char>, i: int) -> Option<int>
    decreases s.len() - i,
{
    if i < 0 || i > s.len() {
        None
    } else if occurs_at(s, close, i) {
        Some(i)
    } else if i == s.len() {
        None
    } else {
        close_from(s, close, i + 1)
    }
}

/// Leftmost match, starting at or after `p`, of `open` followed by the
/// nearest `close` after it: the start of `open`
/// and the start of `close`.
pub open spec fn lazy_match(s: Seq<char>, open: Seq<char>, close: Seq<char>, p: int) -> Option<
    (int, int),
>
    decreases s.len() - p,
{
    if p < 0 || p > s.len() {
        None
    } else if occurs_at(s, open, p) && close_from(s, close, p + open.len()) is Some {
        Some((p, close_from(s, close, p + open.len())->0))
    } else if p == s.len() {
        None
    } else {
        lazy_match(s, open, close, p + 1)
    }
}

/// The text between `open` and `close` in the leftmost lazy match, if any.
pub open spec fn first_inner(s: Seq<char>, open: Seq<char>, close: Seq<char>) -> Option<Seq<char>> {
    match lazy_match(s, open, close, 0) {
        Some((b, e)) => Some(s.subrange(b + open.len(), e)),
        None => None,
    }
}

/// The contents of the successive non-overlapping `<tool_call>` blocks of `s`
/// from index `p` on.
pub open spec fn blocks_from(s: Seq<char>, p: int) -> Seq<Seq<char>>
    decreases s.len() - p,
{
    if 0 <= p <= s.len() && lazy_match(s, call_open(), call_close(), p) is Some {
        let (b, e) = lazy_match(s, call_open(), call_close(), p)->0;
        proof {
            lemma_lazy_match_bounds(s, call_open(), call_close(), p);
        }
        seq![s.subrange(b + call_open().len(), e)] + blocks_from(s, e + call_close().len())
    } else {
        Seq::empty()
    }
}

/// Name and (trimmed) argument text of a block, when both tags are present.
pub open spec fn block_call(block: Seq<char>) -> Option<(Seq<char>, Seq<char>)> {
    match (first_inner(block, name_open(), name_close()), first_inner(
        block,
        args_open(),
        args_close(),
    )) {
        (Some(n), Some(a)) => Some((trim_spec(n), trim_spec(a))),
        _ => None,
    }
}

/// The calls of a list of blocks: name and argument text, for the blocks
/// with both tags whose argument text is JSON.
pub open spec fn calls_of(blocks: Seq<Seq<char>>) -> Seq<(Seq<char>, Seq<char>)>
    decreases blocks.len(),
{
    if blocks.len() == 0 {
        Seq::empty()
    } else {
        let prev = calls_of(blocks.drop_last());
        match block_call(blocks.last()) {
            Some((n, a)) => if json_text_parses(a) {
                prev.push((n, a))
            } else {
                prev
            },
            None => prev,
        }
    }
}

/// The tool calls of a reply, in order of appearance.
pub open spec fn tool_calls_spec(response: Seq<char>) -> Seq<(Seq<char>, Seq<char>)> {
    calls_of(blocks_from(response, 0))
}

/// A closing tag found from `i` on lies at or after `i`.
pub proof fn lemma_close_from_bounds(s: Seq<char>, close: Seq<char>, i: int)
    ensures
        close_from(s, close, i) matches Some(e) ==> i <= e && occurs_at(s, close, e),
    decreases s.len() - i,
{
    if 0 <= i <= s.len() && !occurs_at(s, close, i) && i < s.len() {
        lemma_close_from_bounds(s, close, i + 1);
    }
}

/// A lazy match found from `p` on starts at or after `p`, with the opening
/// tag at its start and the closing tag after it.
pub proof fn lemma_lazy_match_bounds(s: Seq<char>, open: Seq<char>, close: Seq<char>, p: int)
    ensures
        lazy_match(s, open, close, p) matches Some((b, e)) ==> {
            &&& p <= b
            &&& occurs_at(s, open, b)
            &&& b + open.len() <= e
            &&& occurs_at(s, close, e)
        },
    decreases s.len() - p,
{
    if 0 <= p <= s.len() {
        if occurs_at(s, open, p) && close_from(s, close, p + open.len()) is Some {
            lemma_close_from_bounds(s, close, p + open.len());
        } else if p < s.len() {
            lemma_lazy_match_bounds(s, open, close, p + 1);
        }
    }
}

fn close_from_exec(s: &Vec<char>, close: &Vec<char>, start: usize) -> (r: Option<usize>)
    requires
        start <= s@.len(),
    ensures
        r matches Some(e) ==> close_from(s@, close@, start as int) == Some(e as int),
        r is None ==> close_from(s@, close@, start as int) is None,
{
    let mut i = start;
    loop
        invariant
            start <= i <= s@.len(),
            close_from(s@, close@, i as int) == close_from(s@, close@, start as int),
        decreases s@.len() - i,
    {
        if occurs_at_exec(s, close, i) {
            return Some(i);
        }
        if i == s.len() {
            return None;
        }
        i = i + 1;
    }
}

fn lazy_match_exec(s: &Vec<char>, open: &Vec<char>, close: &Vec<char>, start: usize) -> (r:
    Option<(usize, usize)>)
    requires
        start <= s@.len(),
    ensures
        r matches Some((b, e)) ==> lazy_match(s@, open@, close@, start as int) == Some(
            (b as int, e as int),
        ),
        r is None ==> lazy_match(s@, open@, close@, start as int) is None,
{
    let mut p = start;
    loop
        invariant
            start <= p <= s@.len(),
            s.len() == s@.len(),
            lazy_match(s@, open@, close@, p as int) == lazy_match(
                s@,
                open@,
                close@,
                start as int,
            ),
        decreases s@.len() - p,
    {
        if occurs_at_exec(s, open, p) {
            match close_from_exec(s, close, p + open.len()) {
                Some(e) => {
                    return Some((p, e));
                },
                None => {},
            }
        }
        if p == s.len() {
            return None;
        }
        p = p + 1;
    }
}

/// Text between the first lazily matched `open` … `close` pair of `s`.
fn first_inner_exec(s: &Vec<char>, open: &Vec<char>, close: &Vec<char>) -> (r: Option<Vec<char>>)
    ensures
        r matches Some(t) ==> first_inner(s@, open@, close@) == Some(t@),
        r is None ==> first_inner(s@, open@, close@) is None,
{
    match lazy_match_exec(s, open, close, 0) {
        Some((b, e)) => {
            proof {
                lemma_lazy_match_bounds(s@, open@, close@, 0);
            }
            Some(slice_vec(s, b + open.len(), e))
        },
        None => None,
    }
}

fn tag_chars(t: &str) -> (v: Vec<char>)
    ensures
        v@ == t@,
{
    chars_of(t)
}

/// Contents of the `<tool_call>` blocks of a reply, in order.
pub fn tool_call_blocks(response: &str) -> (blocks: Vec<Vec<char>>)
    ensures
        blocks@.map_values(|b: Vec<char>| b@) == blocks_from(response@, 0),
{
    let s = chars_of(response);
    let open = tag_chars("<tool_call>");
    let close = tag_chars("</tool_call>");
    proof {
        reveal_strlit("<tool_call>");
        reveal_strlit("</tool_call>");
    }
    assert(open@ =~= call_open());
    assert(close@ =~= call_close());
    let mut blocks: Vec<Vec<char>> = Vec::new();
    let mut p: usize = 0;
    loop
        invariant
            p <= s@.len(),
            s.len() == s@.len(),
            s@ == response@,
            open@ == call_open(),
            close@ == call_close(),
            blocks_from(s@, 0) == blocks@.map_values(|b: Vec<char>| b@) + blocks_from(
                s@,
                p as int,
            ),
        decreases s@.len() - p,
    {
        match lazy_match_exec(&s, &open, &close, p) {
            Some((b, e)) => {
                proof {
                    lemma_lazy_match_bounds(s@, call_open(), call_close(), p as int);
                }
                let inner = slice_vec(&s, b + open.len(), e);
                let ghost old_blocks = blocks@;
                blocks.push(inner);
                assert(blocks@.map_values(|b: Vec<char>| b@) =~= old_blocks.map_values(
                    |b: Vec<char>| b@,
                ).push(inner@));
                assert(blocks_from(s@, p as int) == seq![inner@] + blocks_from(
                    s@,
                    (e + close.len()) as int,
                ));
                p = e + close.len();
            },
            None => {
                assert(blocks@.map_values(|b: Vec<char>| b@) + blocks_from(s@, p as int)
                    =~= blocks@.map_values(|b: Vec<char>| b@));
                return blocks;
            },
        }
    }
}

/// Extracts the tool calls of a model reply, in order: each
/// `<tool_call>` block that holds a `<tool_name>` and a `<tool_args>` part
/// whose trimmed text is JSON gives one call, named by the trimmed name text.
pub fn parse_tool_calls(response: &str) -> (calls: Vec<ParsedToolCall>)
    ensures
        calls@.len() == tool_calls_spec(response@).len(),
        forall|i: int|
            0 <= i < calls@.len() ==> #[trigger] calls@[i].name@ == tool_calls_spec(response@)[i].0
                && calls@[i].args_text@ == tool_calls_spec(response@)[i].1 && json_value_of(
                calls@[i].args_text@,
            ) == Some(calls@[i].args),
{
    let blocks = tool_call_blocks(response);
    let ghost bs = blocks@.map_values(|b: Vec<char>| b@);
    let no = tag_chars("<tool_name>");
    let nc = tag_chars("</tool_name>");
    let ao = tag_chars("<tool_args>");
    let ac = tag_chars("</tool_args>");
    proof {
        reveal_strlit("<tool_name>");
        reveal_strlit("</tool_name>");
        reveal_strlit("<tool_args>");
        reveal_strlit("</tool_args>");
    }
    assert(no@ =~= name_open());
    assert(nc@ =~= name_close());
    assert(ao@ =~= args_open());
    assert(ac@ =~= args_close());
    let mut calls: Vec<ParsedToolCall> = Vec::new();
    let mut i: usize = 0;
    while i < blocks.len()
        invariant
            i <= blocks@.len(),
            bs == blocks@.map_values(|b: Vec<char>| b@),
            bs == blocks_from(response@, 0),
            no@ == name_open(),
            nc@ == name_close(),
            ao@ == args_open(),
            ac@ == args_close(),
            calls@.map_values(|c: ParsedToolCall| call_view(c)) == calls_of(bs.take(i as int)),
            forall|k: int|
                0 <= k < calls@.len() ==> json_value_of(#[trigger] calls@[k].args_text@) == Some(
                    calls@[k].args,
                ),
        decreases blocks.len() - i,
    {
        assert(bs.take(i + 1).drop_last() == bs.take(i as int));
        assert(bs.take(i + 1).last() == blocks@[i as int]@);
        let block = &blocks[i];
        let name = first_inner_exec(block, &no, &nc);
        let args = first_inner_exec(block, &ao, &ac);
        match (name, args) {
            (Some(n), Some(a)) => {
                let name_t = trim_vec(&n);
                let args_t = trim_vec(&a);
                match parse_json(args_t.as_str()) {
                    Some(v) => {
                        let ghost before = calls@.map_values(|c: ParsedToolCall| call_view(c));
                        let ghost pair = (name_t@, args_t@);
                        calls.push(ParsedToolCall { name: name_t, args: v, args_text: args_t });
                        assert(calls@.map_values(|c: ParsedToolCall| call_view(c)) =~= before.push(
                            pair,
                        ));
                    },
                    None => {},
                }
            },
            _ => {},
        }
        i = i + 1;
    }
    assert(bs.take(blocks.len() as int) == bs);
    assert forall|k: int| 0 <= k < calls@.len() implies #[trigger] calls@[k].name@
        == tool_calls_spec(response@)[k].0 && calls@[k].args_text@ == tool_calls_spec(response@)[k].1
        && json_value_of(calls@[k].args_text@) == Some(calls@[k].args) by {
        assert(call_view(calls@[k]) == calls@.map_values(|c: ParsedToolCall| call_view(c))[k]);
    }
    calls
}

/// A parsed call as (name, argument text).
pub open spec fn call_view(c: ParsedToolCall) -> (Seq<char>, Seq<char>) {
    (c.name@, c.args_text@)
}


proof fn lemma_no_open_no_match(s: Seq<char>, open: Seq<char>, close: Seq<char>, p: int)
    requires
        !has_infix(s, open),
    ensures
        lazy_match(s, open, close, p) is None,
    decreases s.len() - p,
{
    if 0 <= p < s.len() {
        assert(!occurs_at(s, open, p));
        lemma_no_open_no_match(s, open, close, p + 1);
    } else if p == s.len() {
        assert(!occurs_at(s, open, p));
    }
}

/// Every call found in a list of blocks comes from one of them: its name is
/// the trimmed text of that block's first `<tool_name>` part and its
/// argument text the trimmed text of its first `<tool_args>` part.
proof fn lemma_calls_come_from_blocks(bs: Seq<Seq<char>>)
    ensures
        forall|i: int|
            #![trigger calls_of(bs)[i]]
            0 <= i < calls_of(bs).len() ==> exists|j: int|
                0 <= j < bs.len() && (first_inner(#[trigger] bs[j], name_open(), name_close()) matches Some(n)
                    && calls_of(bs)[i].0 == trim_spec(n)) && (first_inner(bs[j], args_open(), args_close())
                    matches Some(a) && calls_of(bs)[i].1 == trim_spec(a)),
    decreases bs.len(),
{
    if bs.len() > 0 {
        let d = bs.drop_last();
        lemma_calls_come_from_blocks(d);
        let prev = calls_of(d);
        let cs = calls_of(bs);
        assert forall|i: int| #![trigger cs[i]] 0 <= i < cs.len() implies exists|j: int|
            0 <= j < bs.len() && (first_inner(#[trigger] bs[j], name_open(), name_close()) matches Some(n)
                && cs[i].0 == trim_spec(n)) && (first_inner(bs[j], args_open(), args_close()) matches Some(
                a,
            ) && cs[i].1 == trim_spec(a)) by {
            if i < prev.len() {
                assert(cs[i] == prev[i]);
                let j = choose|j: int|
                    0 <= j < d.len() && (first_inner(#[trigger] d[j], name_open(), name_close()) matches Some(
                        n,
                    ) && prev[i].0 == trim_spec(n)) && (first_inner(d[j], args_open(), args_close())
                        matches Some(a) && prev[i].1 == trim_spec(a));
                assert(d[j] == bs[j]);
            } else {
                let j = bs.len() - 1;
                assert(bs[j] == bs.last());
            }
        }
    }
}

/// The name of each tool call extracted from a reply is exactly the trimmed
/// text between `<tool_name>` and `</tool_name>` of a `<tool_call>` block of
/// the reply (nothing else is done to it: its case is kept), and its
/// argument text is the trimmed text between `<tool_args>` and
/// `</tool_args>` of the same block.
pub proof fn lemma_call_name_is_trimmed_name_text(response: Seq<char>)
    ensures
        forall|i: int|
            #![trigger tool_calls_spec(response)[i]]
            0 <= i < tool_calls_spec(response).len() ==> exists|j: int|
                0 <= j < blocks_from(response, 0).len() && (first_inner(
                    #[trigger] blocks_from(response, 0)[j],
                    name_open(),
                    name_close(),
                ) matches Some(n) && tool_calls_spec(response)[i].0 == trim_spec(n)) && (first_inner(
                    blocks_from(response, 0)[j],
                    args_open(),
                    args_close(),
                ) matches Some(a) && tool_calls_spec(response)[i].1 == trim_spec(a)),
{
    let bs = blocks_from(response, 0);
    lemma_calls_come_from_blocks(bs);
    assert forall|i: int| #![trigger tool_calls_spec(response)[i]] 0 <= i < tool_calls_spec(response).len() implies exists|j: int|
        0 <= j < bs.len() && (first_inner(#[trigger] bs[j], name_open(), name_close()) matches Some(n)
            && tool_calls_spec(response)[i].0 == trim_spec(n)) && (first_inner(bs[j], args_open(), args_close())
            matches Some(a) && tool_calls_spec(response)[i].1 == trim_spec(a)) by {
        assert(tool_calls_spec(response)[i] == calls_of(bs)[i]);
    }
}

/// A reply in which `<tool_call>` does not occur holds no tool call.
pub proof fn lemma_no_tag_no_calls(response: Seq<char>)
    requires
        !has_infix(response, call_open()),
    ensures
        tool_calls_spec(response).len() == 0,
{
    lemma_no_open_no_match(response, call_open(), call_close(), 0);
    assert(blocks_from(response, 0) == Seq::<Seq<char>>::empty());
}

} // verus!
