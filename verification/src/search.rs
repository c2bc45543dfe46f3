//! Code search: the symbol index built with regular expressions, the
//! `grep` tool's match collection and the `code_search` tool's filtering.
use vstd::prelude::*;
use vstd::utf8::encode_utf8;

use crate::sort::{is_stable_order, stable_order};
use crate::text::{
    decimal, has_infix, skip_ws_from, join, lowercase, owned, str_contains, str_eq, u64_to_decimal,
    views, join_strings,
};
use crate::tools::{missing_arg, missing_arg_text, prefixed, ToolKind, ToolResult};

verus! {

/// A regular-expression match: byte offset of its start and matched text.
pub struct RegexMatch {
    pub start: usize,
    pub text: String,
}

/// A regular-expression capture: start and text of the whole match, and
/// the text of each group (group 1 first) where that group took part.
pub struct RegexCapture {
    pub start: usize,
    pub text: String,
    pub groups: Vec<Option<String>>,
}

/// What the `regex` crate reports when compiling `pattern`: `None` when it
/// compiles, else the error's display text.
pub uninterp spec fn regex_error_text(pattern: Seq<char>) -> Option<Seq<char>>;

/// The successive non-overlapping matches (`Regex::find_iter`) of `pattern`
/// in `text`, as start offset and matched text; `None` when the pattern
/// does not compile.
pub uninterp spec fn regex_matches(pattern: Seq<char>, text: Seq<char>) -> Option<
    Seq<(int, Seq<char>)>,
>;

/// The successive non-overlapping captures (`Regex::captures_iter`) of
/// `pattern` in `text`: start and text of the whole match and the text of
/// each group from group 1 on (where it took part); `None` when the pattern
/// does not compile.
pub uninterp spec fn regex_captures(pattern: Seq<char>, text: Seq<char>) -> Option<
    Seq<(int, Seq<char>, Seq<Option<Seq<char>>>)>,
>;

/// A match as (start offset, matched text).
pub open spec fn match_view(m: RegexMatch) -> (int, Seq<char>) {
    (m.start as int, m.text@)
}

/// An optional group text as an optional character sequence.
pub open spec fn group_view(g: Option<String>) -> Option<Seq<char>> {
    match g {
        Some(t) => Some(t@),
        None => None,
    }
}

/// A capture as (start offset, matched text, group texts).
pub open spec fn capture_view(c: RegexCapture) -> (int, Seq<char>, Seq<Option<Seq<char>>>) {
    (c.start as int, c.text@, c.groups@.map_values(|g: Option<String>| group_view(g)))
}

/// `regex::Regex::new`: the error text when the pattern does not compile
/// (named, not spelled out).
#[verifier::external_body]
pub(crate) fn regex_error(pattern: &str) -> (r: Option<String>)
    ensures
        r is Some <==> regex_error_text(pattern@) is Some,
        r matches Some(e) ==> e@ == regex_error_text(pattern@)->0,
{
    match regex::Regex::new(pattern) {
        Ok(_) => None,
        Err(e) => Some(e.to_string()),
    }
}

/// `regex::Regex::find_iter` on a pattern compiled with `Regex::new`: the
/// named list of matches, or `None` exactly when the pattern does not
/// compile (when `Regex::new` reports an error).
#[verifier::external_body]
pub(crate) fn regex_find_all(pattern: &str, text: &str) -> (r: Option<Vec<RegexMatch>>)
    ensures
        r is Some <==> regex_matches(pattern@, text@) is Some,
        r is Some <==> regex_error_text(pattern@) is None,
        r matches Some(v) ==> v@.map_values(|m: RegexMatch| match_view(m)) == regex_matches(
            pattern@,
            text@,
        )->0,
{
    match regex::Regex::new(pattern) {
        Ok(re) => Some(
            re.find_iter(text).map(|m| RegexMatch { start: m.start(), text: m.as_str().to_string() }).collect(),
        ),
        Err(_) => None,
    }
}

/// `regex::Regex::captures_iter` on a pattern compiled with `Regex::new`:
/// the named list of captures, or `None` exactly when the pattern does not
/// compile (when `Regex::new` reports an error).
#[verifier::external_body]
pub(crate) fn regex_capture_all(pattern: &str, text: &str) -> (r: Option<Vec<RegexCapture>>)
    ensures
        r is Some <==> regex_captures(pattern@, text@) is Some,
        r is Some <==> regex_error_text(pattern@) is None,
        r matches Some(v) ==> v@.map_values(|c: RegexCapture| capture_view(c)) == regex_captures(
            pattern@,
            text@,
        )->0,
{
    match regex::Regex::new(pattern) {
        Ok(re) => Some(
            re.captures_iter(text).map(|c| RegexCapture {
                start: c.get(0).map(|m| m.start()).unwrap_or(0),
                text: c.get(0).map(|m| m.as_str().to_string()).unwrap_or_default(),
                groups: c.iter().skip(1).map(|g| g.map(|m| m.as_str().to_string())).collect(),
            }).collect(),
        ),
        Err(_) => None,
    }
}

/// A symbol found in the project's source.
#[derive(Debug)]
pub struct SymbolIndex {
    pub name: String,
    pub kind: String,
    pub file: String,
    pub line: usize,
    pub signature: String,
}

/// The plain values of a symbol: name, kind, file, line, signature.
pub open spec fn sym_view(s: SymbolIndex) -> (Seq<char>, Seq<char>, Seq<char>, int, Seq<char>) {
    (s.name@, s.kind@, s.file@, s.line as int, s.signature@)
}

impl SymbolIndex {
    /// A copy of the symbol.
    pub fn duplicate(&self) -> (r: SymbolIndex)
        ensures
            sym_view(r) == sym_view(*self),
    {
        SymbolIndex {
            name: self.name.clone(),
            kind: self.kind.clone(),
            file: self.file.clone(),
            line: self.line,
            signature: self.signature.clone(),
        }
    }
}

/// Number of occurrences of the byte `x` in `b`.
pub open spec fn count_byte(b: Seq<u8>, x: u8) -> nat
    decreases b.len(),
{
    if b.len() == 0 {
        0
    } else {
        count_byte(b.drop_last(), x) + if b.last() == x {
            1nat
        } else {
            0nat
        }
    }
}

/// Line (from 1) of the byte offset `start` in `content`: one more than the
/// line breaks before it.
pub open spec fn line_at(content: Seq<char>, start: int) -> int {
    let b = encode_utf8(content);
    let c = count_byte(b.take(if start < b.len() {
        start
    } else {
        b.len() as int
    }), 10u8) as int;
    if c < usize::MAX {
        c + 1
    } else {
        c
    }
}

/// Line (from 1) of a byte offset in a text.
pub fn line_of_offset(content: &str, start: usize) -> (n: usize)
    ensures
        n == line_at(content@, start as int),
{
    let b = content.as_bytes();
    let end = if start < b.len() {
        start
    } else {
        b.len()
    };
    let mut n: usize = 0;
    let mut i: usize = 0;
    while i < end
        invariant
            i <= end <= b@.len(),
            b@ == encode_utf8(content@),
            end == (if start < b@.len() {
                start as int
            } else {
                b@.len() as int
            }),
            n == count_byte(b@.take(i as int), 10u8),
            n <= i,
        decreases end - i,
    {
        assert(b@.take(i + 1).drop_last() == b@.take(i as int));
        if b[i] == 10u8 {
            n = n + 1;
        }
        i = i + 1;
    }
    if n < usize::MAX {
        n + 1
    } else {
        n
    }
}

/// The rules of the symbol index (Rust, then TypeScript/JavaScript): the
/// regular expression, the kind it finds (or the group whose text is the
/// kind, when that group number is positive) and the group that holds the
/// name.
pub open spec fn symbol_rules() -> Seq<(Seq<char>, Seq<char>, int, int)> {
    seq![
        (r"(?m)^\s*(pub\s+)?fn\s+(\w+)"@, "function"@, 0, 2),
        (r"(?m)^\s*(pub\s+)?struct\s+(\w+)"@, "struct"@, 0, 2),
        (r"(?m)^\s*(pub\s+)?enum\s+(\w+)"@, "enum"@, 0, 2),
        (r"(?m)^\s*(pub\s+)?trait\s+(\w+)"@, "trait"@, 0, 2),
        (r"(?m)^\s*(pub\s+)?impl\s+(\w+)"@, "impl"@, 0, 2),
        (r"(?m)^\s*(pub\s+)?(const|static)\s+(\w+)"@, "const"@, 0, 3),
        (r"(?m)^\s*(export\s+)?(function|class|interface|type|enum)\s+(\w+)"@, ""@, 2, 3),
        (r"(?m)^\s*(export\s+)?(const|let|var)\s+(\w+)\s*[:=]\s*(\(|async|function)"@, "function"@, 0, 3),
    ]
}

fn symbol_rule(i: usize) -> (r: (&'static str, &'static str, usize, usize))
    requires
        i < 8,
    ensures
        r.0@ == symbol_rules()[i as int].0,
        r.1@ == symbol_rules()[i as int].1,
        r.2 == symbol_rules()[i as int].2,
        r.3 == symbol_rules()[i as int].3,
{
    match i {
        0 => (r"(?m)^\s*(pub\s+)?fn\s+(\w+)", "function", 0, 2),
        1 => (r"(?m)^\s*(pub\s+)?struct\s+(\w+)", "struct", 0, 2),
        2 => (r"(?m)^\s*(pub\s+)?enum\s+(\w+)", "enum", 0, 2),
        3 => (r"(?m)^\s*(pub\s+)?trait\s+(\w+)", "trait", 0, 2),
        4 => (r"(?m)^\s*(pub\s+)?impl\s+(\w+)", "impl", 0, 2),
        5 => (r"(?m)^\s*(pub\s+)?(const|static)\s+(\w+)", "const", 0, 3),
        6 => (r"(?m)^\s*(export\s+)?(function|class|interface|type|enum)\s+(\w+)", "", 2, 3),
        _ => (r"(?m)^\s*(export\s+)?(const|let|var)\s+(\w+)\s*[:=]\s*(\(|async|function)", "function", 0, 3),
    }
}

/// Text of group `g` (from 1) of a capture, or empty when it took no part.
pub open spec fn group_text(groups: Seq<Option<Seq<char>>>, g: int) -> Seq<char> {
    if 1 <= g <= groups.len() && groups[g - 1] is Some {
        groups[g - 1]->0
    } else {
        Seq::empty()
    }
}

/// Number of whitespace characters a match starts with (`^\s*` may take in
/// blank lines before the symbol's own line).
pub open spec fn leading_ws(t: Seq<char>) -> int {
    skip_ws_from(t, 0)
}

/// Symbols a list of captures gives in one file: one per capture whose name
/// is neither empty nor `pub`. The line and the signature are those of the
/// match without its leading whitespace.
pub open spec fn capture_symbols(
    file: Seq<char>,
    kind: Seq<char>,
    kind_group: int,
    name_group: int,
    content: Seq<char>,
    caps: Seq<(int, Seq<char>, Seq<Option<Seq<char>>>)>,
) -> Seq<(Seq<char>, Seq<char>, Seq<char>, int, Seq<char>)>
    decreases caps.len(),
{
    if caps.len() == 0 {
        Seq::empty()
    } else {
        let prev = capture_symbols(file, kind, kind_group, name_group, content, caps.drop_last());
        let c = caps.last();
        let name = group_text(c.2, name_group);
        let k = if kind_group > 0 {
            group_text(c.2, kind_group)
        } else {
            kind
        };
        let lead = leading_ws(c.1);
        if name.len() == 0 || name == "pub"@ {
            prev
        } else {
            prev.push(
                (
                    name,
                    k,
                    file,
                    line_at(content, c.0 + encode_utf8(c.1.take(lead)).len()),
                    c.1.subrange(lead, c.1.len() as int),
                ),
            )
        }
    }
}

/// Symbols of one file, rule by rule, for the first `n` rules.
pub open spec fn file_symbols_upto(file: Seq<char>, content: Seq<char>, n: int) -> Seq<
    (Seq<char>, Seq<char>, Seq<char>, int, Seq<char>),
>
    decreases n,
{
    if n <= 0 {
        Seq::empty()
    } else {
        let prev = file_symbols_upto(file, content, n - 1);
        let rule = symbol_rules()[n - 1];
        match regex_captures(rule.0, content) {
            Some(caps) => prev + capture_symbols(file, rule.1, rule.2, rule.3, content, caps),
            None => prev,
        }
    }
}

/// Symbols of one file, in rule order, then in order of appearance.
pub open spec fn file_symbols(file: Seq<char>, content: Seq<char>) -> Seq<
    (Seq<char>, Seq<char>, Seq<char>, int, Seq<char>),
> {
    file_symbols_upto(file, content, 8)
}

/// Source file extensions the index reads.
pub open spec fn indexed_extensions() -> Seq<Seq<char>> {
    seq!["rs"@, "ts"@, "tsx"@, "js"@, "jsx"@, "py"@, "go"@, "java"@, "cpp"@, "h"@]
}

fn indexed_extension(i: usize) -> (r: &'static str)
    requires
        i < 10,
    ensures
        r@ == indexed_extensions()[i as int],
{
    match i {
        0 => "rs",
        1 => "ts",
        2 => "tsx",
        3 => "js",
        4 => "jsx",
        5 => "py",
        6 => "go",
        7 => "java",
        8 => "cpp",
        _ => "h",
    }
}

/// A file is indexed when its extension is a source extension and its path
/// mentions none of `node_modules`, `target`, `.git`.
pub open spec fn is_indexed(path: Seq<char>, ext: Seq<char>) -> bool {
    indexed_extensions().contains(ext) && !has_infix(path, "node_modules"@) && !has_infix(
        path,
        "target"@,
    ) && !has_infix(path, ".git"@)
}

/// The index reads exactly the files with extension rs, ts, tsx, js, jsx,
/// py, go, java, cpp or h whose path mentions none of `node_modules`,
/// `target`, `.git`.
pub proof fn lemma_indexed_files(path: Seq<char>, ext: Seq<char>)
    ensures
        is_indexed(path, ext) <==> ((ext == "rs"@ || ext == "ts"@ || ext == "tsx"@ || ext == "js"@ || ext == "jsx"@ || ext == "py"@ || ext == "go"@ || ext == "java"@ || ext == "cpp"@ || ext == "h"@)
            && !has_infix(path, "node_modules"@) && !has_infix(path, "target"@) && !has_infix(
            path,
            ".git"@,
        )),
{
    let l = indexed_extensions();
    if ext == "rs"@ || ext == "ts"@ || ext == "tsx"@ || ext == "js"@ || ext == "jsx"@ || ext == "py"@ || ext == "go"@ || ext == "java"@ || ext == "cpp"@ || ext == "h"@ {
        let k = if ext == "rs"@ {
            0
        } else if ext == "ts"@ {
            1
        } else if ext == "tsx"@ {
            2
        } else if ext == "js"@ {
            3
        } else if ext == "jsx"@ {
            4
        } else if ext == "py"@ {
            5
        } else if ext == "go"@ {
            6
        } else if ext == "java"@ {
            7
        } else if ext == "cpp"@ {
            8
        } else {
            9
        };
        assert(l[k] == ext);
    }
    if l.contains(ext) {
        let j = choose|j: int| 0 <= j < l.len() && l[j] == ext;
        assert(j == 0 || j == 1 || j == 2 || j == 3 || j == 4 || j == 5 || j == 6 || j == 7 || j == 8
            || j == 9);
    }
}

/// Whether the index reads a file with this path and extension.
pub fn should_index(path: &str, ext: &str) -> (r: bool)
    ensures
        r == is_indexed(path@, ext@),
{
    let mut found = false;
    let mut i: usize = 0;
    while i < 10
        invariant
            i <= 10,
            found == exists|j: int| 0 <= j < i && indexed_extensions()[j] == ext@,
        decreases 10 - i,
    {
        if str_eq(indexed_extension(i), ext) {
            found = true;
        }
        i = i + 1;
    }
    assert(found == indexed_extensions().contains(ext@)) by {
        if indexed_extensions().contains(ext@) {
            let j = choose|j: int| 0 <= j < 10 && indexed_extensions()[j] == ext@;
        }
    }
    found && !str_contains(path, "node_modules") && !str_contains(path, "target")
        && !str_contains(path, ".git")
}

/// Text of group `g` (from 1) of a capture, or empty.
fn group_string(groups: &Vec<Option<String>>, g: usize) -> (r: String)
    ensures
        r@ == group_text(groups@.map_values(|x: Option<String>| group_view(x)), g as int),
{
    if 1 <= g && g <= groups.len() {
        match &groups[g - 1] {
            Some(t) => t.clone(),
            None => String::new(),
        }
    } else {
        String::new()
    }
}

/// A match without its leading whitespace: the byte offset where the rest
/// starts (as a line position: offsets past the text all mean its end) and
/// the rest.
fn trimmed_match(content: &str, start: usize, text: &str) -> (r: (usize, String))
    ensures
        line_at(content@, r.0 as int) == line_at(
            content@,
            start + encode_utf8(text@.take(leading_ws(text@))).len(),
        ),
        r.1@ == text@.subrange(leading_ws(text@), text@.len() as int),
{
    let tv = crate::text::chars_of(text);
    let mut lead: usize = 0;
    while lead < tv.len() && crate::text::is_whitespace(tv[lead])
        invariant
            lead <= tv@.len(),
            tv@ == text@,
            skip_ws_from(tv@, lead as int) == skip_ws_from(tv@, 0),
        decreases tv@.len() - lead,
    {
        lead = lead + 1;
    }
    let head = crate::text::string_of(&crate::text::slice_vec(&tv, 0, lead));
    let rest = crate::text::string_of(&crate::text::slice_vec(&tv, lead, tv.len()));
    let n = head.as_str().as_bytes().len();
    let len = content.as_bytes().len();
    let offset = if start > len || n > len - start {
        len
    } else {
        start + n
    };
    (offset, rest)
}

/// The symbols a list of captures gives in one file, for a rule with the
/// given kind (or kind group, when positive) and name group.
pub fn symbols_from_captures(
    file: &str,
    kind: &str,
    kind_group: usize,
    name_group: usize,
    content: &str,
    caps: &Vec<RegexCapture>,
) -> (r: Vec<SymbolIndex>)
    ensures
        r@.map_values(|s: SymbolIndex| sym_view(s)) == capture_symbols(
            file@,
            kind@,
            kind_group as int,
            name_group as int,
            content@,
            caps@.map_values(|c: RegexCapture| capture_view(c)),
        ),
{
    let ghost cv = caps@.map_values(|c: RegexCapture| capture_view(c));
    let mut out: Vec<SymbolIndex> = Vec::new();
    let mut j: usize = 0;
    while j < caps.len()
        invariant
            j <= caps@.len(),
            cv == caps@.map_values(|c: RegexCapture| capture_view(c)),
            out@.map_values(|s: SymbolIndex| sym_view(s)) == capture_symbols(
                file@,
                kind@,
                kind_group as int,
                name_group as int,
                content@,
                cv.take(j as int),
            ),
        decreases caps@.len() - j,
    {
        assert(cv.take(j + 1).drop_last() == cv.take(j as int));
        let c = &caps[j];
        assert(cv[j as int] == capture_view(*c));
        let name = group_string(&c.groups, name_group);
        if !name.as_str().is_empty() && !str_eq(name.as_str(), "pub") {
            let kind_text = if kind_group > 0 {
                group_string(&c.groups, kind_group)
            } else {
                owned(kind)
            };
            let (offset, signature) = trimmed_match(content, c.start, c.text.as_str());
            let line = line_of_offset(content, offset);
            let ghost prev_out = out@;
            out.push(SymbolIndex { name, kind: kind_text, file: owned(file), line, signature });
            assert(out@.map_values(|s: SymbolIndex| sym_view(s)) =~= prev_out.map_values(
                |s: SymbolIndex| sym_view(s),
            ).push(sym_view(out@.last())));
        }
        j = j + 1;
    }
    assert(cv.take(caps@.len() as int) == cv);
    out
}

/// The symbols of one source file.
pub fn index_file(file: &str, content: &str) -> (r: Vec<SymbolIndex>)
    ensures
        r@.map_values(|s: SymbolIndex| sym_view(s)) == file_symbols(file@, content@),
{
    let mut out: Vec<SymbolIndex> = Vec::new();
    let mut k: usize = 0;
    while k < 8
        invariant
            k <= 8,
            out@.map_values(|s: SymbolIndex| sym_view(s)) == file_symbols_upto(
                file@,
                content@,
                k as int,
            ),
        decreases 8 - k,
    {
        let (pattern, kind, kind_group, name_group) = symbol_rule(k);
        let ghost rule = symbol_rules()[k as int];
        let caps = regex_capture_all(pattern, content);
        let ghost before = out@.map_values(|s: SymbolIndex| sym_view(s));
        match caps {
            Some(caps) => {
                let found = symbols_from_captures(file, kind, kind_group, name_group, content, &caps);
                let ghost prev = out@;
                let mut found = found;
                out.append(&mut found);
                assert(out@.map_values(|s: SymbolIndex| sym_view(s)) =~= prev.map_values(
                    |s: SymbolIndex| sym_view(s),
                ) + capture_symbols(
                    file@,
                    kind@,
                    kind_group as int,
                    name_group as int,
                    content@,
                    caps@.map_values(|c: RegexCapture| capture_view(c)),
                ));
            },
            None => {},
        }
        k = k + 1;
    }
    out
}

/// The index of a project once every file is read: at most 2000 symbols
/// (the first ones found), then sorted by file path, keeping the order of
/// symbols within a file.
pub open spec fn finished_index(
    found: Seq<(Seq<char>, Seq<char>, Seq<char>, int, Seq<char>)>,
    p: Seq<usize>,
) -> bool {
    let kept = found.take(if found.len() < 2000 {
        found.len() as int
    } else {
        2000
    });
    is_stable_order(kept.map_values(|s: (Seq<char>, Seq<char>, Seq<char>, int, Seq<char>)| s.2), false, p)
}

/// Caps the index at 2000 symbols and sorts it by file path (stably).
pub fn finish_index(found: Vec<SymbolIndex>) -> (r: Vec<SymbolIndex>)
    ensures
        ({
            let fv = found@.map_values(|s: SymbolIndex| sym_view(s));
            let kept = fv.take(if fv.len() < 2000 {
                fv.len() as int
            } else {
                2000
            });
            exists|p: Seq<usize>|
                finished_index(fv, p) && r@.len() == kept.len() && forall|i: int|
                    0 <= i < r@.len() ==> sym_view(#[trigger] r@[i]) == kept[p[i] as int]
        }),
{
    let mut found = found;
    let ghost fv = found@.map_values(|s: SymbolIndex| sym_view(s));
    found.truncate(2000);
    let ghost kept = found@.map_values(|s: SymbolIndex| sym_view(s));
    assert(kept =~= fv.take(if fv.len() < 2000 {
        fv.len() as int
    } else {
        2000
    }));
    let mut keys: Vec<String> = Vec::new();
    let mut i: usize = 0;
    while i < found.len()
        invariant
            i <= found@.len(),
            keys@.len() == i,
            forall|t: int| 0 <= t < i ==> (#[trigger] keys@[t])@ == found@[t].file@,
        decreases found@.len() - i,
    {
        keys.push(found[i].file.clone());
        i = i + 1;
    }
    assert(keys@.map_values(|k: String| k@) =~= kept.map_values(
        |s: (Seq<char>, Seq<char>, Seq<char>, int, Seq<char>)| s.2,
    ));
    let p = stable_order(&keys, false);
    let mut r: Vec<SymbolIndex> = Vec::new();
    let mut k: usize = 0;
    while k < p.len()
        invariant
            k <= p@.len(),
            p@.len() == found@.len(),
            forall|t: int| 0 <= t < p@.len() ==> (#[trigger] p@[t]) < found@.len(),
            kept == found@.map_values(|s: SymbolIndex| sym_view(s)),
            r@.len() == k,
            forall|t: int| 0 <= t < k ==> sym_view(#[trigger] r@[t]) == kept[p@[t] as int],
        decreases p@.len() - k,
    {
        let idx = p[k];
        r.push(found[idx].duplicate());
        k = k + 1;
    }
    assert(finished_index(fv, p@));
    r
}

/// What a `grep` search has collected: its pattern and the hit lines.
pub struct GrepSearch {
    pattern: String,
    results: Vec<String>,
}

/// Hit lines for the first 10 matches in one file: `PATH:OFFSET | TEXT`, or
/// `OFFSET | TEXT` without a path.
pub open spec fn hit_lines(path: Option<Seq<char>>, ms: Seq<(int, Seq<char>)>) -> Seq<Seq<char>> {
    let first = ms.take(if ms.len() < 10 {
        ms.len() as int
    } else {
        10
    });
    first.map_values(
        |m: (int, Seq<char>)|
            match path {
                Some(p) => p + ":"@ + decimal(m.0 as nat) + " | "@ + m.1,
                None => decimal(m.0 as nat) + " | "@ + m.1,
            },
    )
}

/// Report of a finished `grep` search.
pub open spec fn grep_report_text(pattern: Seq<char>, results: Seq<Seq<char>>) -> Seq<char> {
    if results.len() == 0 {
        "未找到匹配: "@ + pattern
    } else {
        "找到 "@ + decimal(results.len()) + " 处匹配:\n"@ + join(results, "\n"@)
    }
}

impl View for GrepSearch {
    type V = (Seq<char>, Seq<Seq<char>>);

    closed spec fn view(&self) -> (Seq<char>, Seq<Seq<char>>) {
        (self.pattern@, views(self.results@))
    }
}

/// Most hit lines a search keeps collecting to (checked before each file).
pub open spec fn grep_limit() -> nat {
    50
}

impl GrepSearch {
    /// Starts a search: refused with the compiler's message when the
    /// pattern is not a valid regular expression.
    pub fn start(pattern: &str) -> (r: Result<GrepSearch, ToolResult>)
        ensures
            regex_error_text(pattern@) is None ==> (r matches Ok(g) && g@ == (
                pattern@,
                Seq::<Seq<char>>::empty(),
            )),
            regex_error_text(pattern@) matches Some(e) ==> (r matches Err(t) && t.shows(
                false,
                "正则表达式无效: "@ + e,
                "grep"@,
            )),
    {
        match regex_error(pattern) {
            Some(e) => Err(ToolResult::make(false, prefixed("正则表达式无效: ", e.as_str()), "grep")),
            None => {
                let g = GrepSearch { pattern: owned(pattern), results: Vec::new() };
                assert(views(g.results@) =~= Seq::<Seq<char>>::empty());
                Ok(g)
            },
        }
    }

    /// Whether the search goes on to the next file (fewer than 50 hits so far).
    pub fn wants_more(&self) -> (r: bool)
        ensures
            r == (self@.1.len() < grep_limit()),
    {
        self.results.len() < 50
    }

    fn add_hits(&mut self, path: Option<&str>, content: &str)
        ensures
            final(self)@.0 == old(self)@.0,
            final(self)@.1 == old(self)@.1 + match regex_matches(old(self)@.0, content@) {
                Some(ms) => hit_lines(
                    match path {
                        Some(p) => Some(p@),
                        None => None,
                    },
                    ms,
                ),
                None => Seq::empty(),
            },
    {
        match regex_find_all(self.pattern.as_str(), content) {
            None => {
                assert(views(self.results@) =~= views(self.results@) + Seq::<Seq<char>>::empty());
            },
            Some(ms) => {
                self.add_matches(path, &ms);
            },
        }
    }

    /// Adds hit lines for the first 10 of the given matches of the pattern
    /// in one file (`PATH:OFFSET | TEXT`, or `OFFSET | TEXT` without a path).
    pub fn add_matches(&mut self, path: Option<&str>, ms: &Vec<RegexMatch>)
        ensures
            final(self)@.0 == old(self)@.0,
            final(self)@.1 == old(self)@.1 + hit_lines(
                match path {
                    Some(p) => Some(p@),
                    None => None,
                },
                ms@.map_values(|m: RegexMatch| match_view(m)),
            ),
    {
        let ghost pv: Option<Seq<char>> = match path {
            Some(p) => Some(p@),
            None => None,
        };
        let ghost msv = ms@.map_values(|m: RegexMatch| match_view(m));
        let ghost before = views(self.results@);
        let ghost lines = hit_lines(pv, msv);
        let n = if ms.len() < 10 {
            ms.len()
        } else {
            10
        };
        let mut i: usize = 0;
        while i < n
            invariant
                i <= n <= ms@.len(),
                n == (if msv.len() < 10 {
                    msv.len() as int
                } else {
                    10
                }),
                msv == ms@.map_values(|m: RegexMatch| match_view(m)),
                lines == hit_lines(pv, msv),
                pv == (match path {
                    Some(p) => Some(p@),
                    None => None,
                }),
                self.pattern@ == old(self)@.0,
                views(self.results@) == before + lines.take(i as int),
            decreases n - i,
        {
            let m = &ms[i];
            let mut line = match path {
                Some(p) => {
                    let mut l = owned(p);
                    l.append(":");
                    l
                },
                None => String::new(),
            };
            line.append(u64_to_decimal(m.start as u64).as_str());
            line.append(" | ");
            line.append(m.text.as_str());
            let ghost prev = self.results@;
            self.results.push(line);
            assert(views(self.results@) =~= views(prev).push(line@));
            assert(lines.take(i + 1) =~= lines.take(i as int).push(lines[i as int]));
            i = i + 1;
        }
        assert(lines.take(n as int) == lines);
    }

    /// Adds the hits of one file of a directory search (`PATH:OFFSET | TEXT`).
    pub fn add_file(&mut self, path: &str, content: &str)
        ensures
            final(self)@.0 == old(self)@.0,
            final(self)@.1 == old(self)@.1 + match regex_matches(old(self)@.0, content@) {
                Some(ms) => hit_lines(Some(path@), ms),
                None => Seq::empty(),
            },
    {
        self.add_hits(Some(path), content);
    }

    /// Adds the hits of a single searched file (`OFFSET | TEXT`).
    pub fn add_single(&mut self, content: &str)
        ensures
            final(self)@.0 == old(self)@.0,
            final(self)@.1 == old(self)@.1 + match regex_matches(old(self)@.0, content@) {
                Some(ms) => hit_lines(None, ms),
                None => Seq::empty(),
            },
    {
        self.add_hits(None, content);
    }

    /// Report of the finished search.
    pub fn report(&self) -> (r: ToolResult)
        ensures
            r.shows(true, grep_report_text(self@.0, self@.1), "grep"@),
    {
        if self.results.len() == 0 {
            ToolResult::make(true, prefixed("未找到匹配: ", self.pattern.as_str()), "grep")
        } else {
            let mut s = owned("找到 ");
            s.append(u64_to_decimal(self.results.len() as u64).as_str());
            s.append(" 处匹配:\n");
            s.append(join_strings(&self.results, "\n").as_str());
            ToolResult::make(true, s, "grep")
        }
    }
}

/// The `grep` tool.
pub struct GrepTool;

impl GrepTool {
    /// Which tool this is.
    pub fn kind(&self) -> (k: ToolKind)
        ensures
            k == ToolKind::Grep,
    {
        ToolKind::Grep
    }

    /// Report when no pattern is given.
    pub fn missing_pattern() -> (r: ToolResult)
        ensures
            r.shows(false, missing_arg_text("pattern"@), "grep"@),
    {
        missing_arg("grep", "pattern")
    }

    /// Report when the search path does not exist.
    pub fn path_missing(display: &str) -> (r: ToolResult)
        ensures
            r.shows(false, "路径不存在: "@ + display@, "grep"@),
    {
        ToolResult::make(false, prefixed("路径不存在: ", display), "grep")
    }
}

/// A symbol is selected when its lower-cased name holds the (lower-cased)
/// query, its kind is the kind asked for (if any), and its file path holds
/// the path asked for (if any).
pub open spec fn symbol_selected(
    s: (Seq<char>, Seq<char>, Seq<char>, int, Seq<char>),
    query: Seq<char>,
    kind: Seq<char>,
    path: Seq<char>,
) -> bool {
    has_infix(lowercase(s.0), query) && (kind.len() == 0 || s.1 == kind) && (path.len() == 0
        || has_infix(s.2, path))
}

/// Report line for a symbol: `KIND | FILE:LINE | SIGNATURE`.
pub open spec fn symbol_line(s: (Seq<char>, Seq<char>, Seq<char>, int, Seq<char>)) -> Seq<char> {
    s.1 + " | "@ + s.2 + ":"@ + decimal(s.3 as nat) + " | "@ + s.4
}

/// Report lines of all selected symbols, in order.
pub open spec fn selected_lines(
    syms: Seq<(Seq<char>, Seq<char>, Seq<char>, int, Seq<char>)>,
    query: Seq<char>,
    kind: Seq<char>,
    path: Seq<char>,
) -> Seq<Seq<char>>
    decreases syms.len(),
{
    if syms.len() == 0 {
        Seq::empty()
    } else {
        let prev = selected_lines(syms.drop_last(), query, kind, path);
        if symbol_selected(syms.last(), query, kind, path) {
            prev.push(symbol_line(syms.last()))
        } else {
            prev
        }
    }
}

/// Report of a symbol search for a lower-cased query: the first 30 selected
/// symbols, or a not-found message.
pub open spec fn code_search_text(
    syms: Seq<(Seq<char>, Seq<char>, Seq<char>, int, Seq<char>)>,
    query: Seq<char>,
    kind: Seq<char>,
    path: Seq<char>,
) -> Seq<char> {
    let all = selected_lines(syms, query, kind, path);
    let shown = all.take(if all.len() < 30 {
        all.len() as int
    } else {
        30
    });
    if shown.len() == 0 {
        "未找到包含 '"@ + query + "' 的符号"@
    } else {
        "找到 "@ + decimal(shown.len()) + " 个符号:\n"@ + join(shown, "\n"@)
    }
}

proof fn lemma_selected_prefix(
    syms: Seq<(Seq<char>, Seq<char>, Seq<char>, int, Seq<char>)>,
    query: Seq<char>,
    kind: Seq<char>,
    path: Seq<char>,
    j: int,
)
    requires
        0 <= j <= syms.len(),
    ensures
        selected_lines(syms.take(j), query, kind, path).len() <= selected_lines(
            syms,
            query,
            kind,
            path,
        ).len(),
        selected_lines(syms, query, kind, path).take(
            selected_lines(syms.take(j), query, kind, path).len() as int,
        ) == selected_lines(syms.take(j), query, kind, path),
    decreases syms.len() - j,
{
    if j < syms.len() {
        lemma_selected_prefix(syms, query, kind, path, j + 1);
        assert(syms.take(j + 1).drop_last() == syms.take(j));
        let a = selected_lines(syms.take(j), query, kind, path);
        let b = selected_lines(syms.take(j + 1), query, kind, path);
        let all = selected_lines(syms, query, kind, path);
        assert(b.take(a.len() as int) =~= a);
        assert(all.take(a.len() as int) =~= all.take(b.len() as int).take(a.len() as int));
    } else {
        assert(syms.take(j) == syms);
    }
}

/// The `code_search` tool.
pub struct CodeSearchTool;

impl CodeSearchTool {
    /// Which tool this is.
    pub fn kind(&self) -> (k: ToolKind)
        ensures
            k == ToolKind::CodeSearch,
    {
        ToolKind::CodeSearch
    }

    /// Searches the symbol index: a missing query is refused; otherwise the
    /// query is lower-cased and the first 30 selected symbols reported.
    pub fn search(symbols: &Vec<SymbolIndex>, query: Option<&str>, kind: &str, path: &str) -> (r:
        ToolResult)
        ensures
            query is None ==> r.shows(false, missing_arg_text("query"@), "code_search"@),
            query matches Some(q) ==> r.shows(
                true,
                code_search_text(
                    symbols@.map_values(|s: SymbolIndex| sym_view(s)),
                    lowercase(q@),
                    kind@,
                    path@,
                ),
                "code_search"@,
            ),
    {
        let q = match query {
            Some(q) => q.to_lowercase(),
            None => {
                return missing_arg("code_search", "query");
            },
        };
        let ghost sv = symbols@.map_values(|s: SymbolIndex| sym_view(s));
        let ghost all = selected_lines(sv, q@, kind@, path@);
        let kind_empty = kind.is_empty();
        let path_empty = path.is_empty();
        let mut lines: Vec<String> = Vec::new();
        let mut i: usize = 0;
        assert(sv.take(symbols@.len() as int) == sv);
        assert(all.take(all.len() as int) == all);
        while i < symbols.len()
            invariant_except_break
                views(lines@) == selected_lines(sv.take(i as int), q@, kind@, path@),
                lines@.len() < 30,
            invariant
                i <= symbols@.len(),
                sv == symbols@.map_values(|s: SymbolIndex| sym_view(s)),
                all == selected_lines(sv, q@, kind@, path@),
                kind_empty == (kind@.len() == 0),
                path_empty == (path@.len() == 0),
                sv.take(symbols@.len() as int) == sv,
                all.take(all.len() as int) == all,
            ensures
                views(lines@) == all.take(if all.len() < 30 {
                    all.len() as int
                } else {
                    30
                }),
            decreases symbols@.len() - i,
        {
            assert(sv.take(i + 1).drop_last() == sv.take(i as int));
            let sym = &symbols[i];
            let lname = sym.name.as_str().to_lowercase();
            let selected = str_contains(lname.as_str(), q.as_str()) && (kind_empty || str_eq(
                sym.kind.as_str(),
                kind,
            )) && (path_empty || str_contains(sym.file.as_str(), path));
            if selected {
                let mut line = owned(sym.kind.as_str());
                line.append(" | ");
                line.append(sym.file.as_str());
                line.append(":");
                line.append(u64_to_decimal(sym.line as u64).as_str());
                line.append(" | ");
                line.append(sym.signature.as_str());
                let ghost prev = lines@;
                lines.push(line);
                assert(views(lines@) =~= views(prev).push(line@));
                if lines.len() >= 30 {
                    proof {
                        lemma_selected_prefix(sv, q@, kind@, path@, i + 1);
                    }
                    assert(views(lines@) == all.take(30));
                    break;
                }
            }
            i = i + 1;
        }
        if lines.len() == 0 {
            let mut s = owned("未找到包含 '");
            s.append(q.as_str());
            s.append("' 的符号");
            ToolResult::make(true, s, "code_search")
        } else {
            let mut s = owned("找到 ");
            s.append(u64_to_decimal(lines.len() as u64).as_str());
            s.append(" 个符号:\n");
            s.append(join_strings(&lines, "\n").as_str());
            ToolResult::make(true, s, "code_search")
        }
    }
}

} // verus!
