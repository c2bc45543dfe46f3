use agent_pc::search::{
    finish_index, index_file, line_of_offset, should_index, symbols_from_captures, CodeSearchTool, GrepSearch,
    GrepTool, RegexCapture, RegexMatch, SymbolIndex,
};

fn sym(name: &str, kind: &str, file: &str, line: usize, signature: &str) -> SymbolIndex {
    SymbolIndex {
        name: name.to_string(),
        kind: kind.to_string(),
        file: file.to_string(),
        line,
        signature: signature.to_string(),
    }
}

#[test]
fn line_numbers_from_byte_offsets() {
    assert_eq!(line_of_offset("a\nb\nc", 0), 1);
    assert_eq!(line_of_offset("a\nb\nc", 4), 3);
    assert_eq!(line_of_offset("x", 100), 1);
}

#[test]
fn which_files_are_indexed() {
    assert!(should_index("src/main.rs", "rs"));
    assert!(should_index("web/app.tsx", "tsx"));
    assert!(!should_index("README.md", "md"));
    assert!(!should_index("target/debug/build.rs", "rs"));
    assert!(!should_index("web/node_modules/x.js", "js"));
    assert!(!should_index("repo/.git/hooks/a.py", "py"));
}

#[test]
fn symbols_of_a_rust_file() {
    let syms = index_file("src/lib.rs", "pub fn alpha() {}\nstruct Beta;\n");
    let got: Vec<(String, String, usize, String)> =
        syms.iter().map(|s| (s.name.clone(), s.kind.clone(), s.line, s.signature.clone())).collect();
    assert_eq!(
        got,
        vec![
            ("alpha".to_string(), "function".to_string(), 1, "pub fn alpha".to_string()),
            ("Beta".to_string(), "struct".to_string(), 2, "struct Beta".to_string()),
        ]
    );
    assert!(syms.iter().all(|s| s.file == "src/lib.rs"));
}

#[test]
fn symbols_of_a_script() {
    let syms = index_file("a.ts", "export class Widget {}\nconst run = async () => 1;\n");
    let got: Vec<(&str, &str, usize)> = syms.iter().map(|s| (s.name.as_str(), s.kind.as_str(), s.line)).collect();
    // rule by rule: the `const` rule, the declaration rule (its keyword is
    // the kind), then the function-valued binding rule (named by the binding)
    assert_eq!(got, vec![("run", "const", 2), ("Widget", "class", 1), ("run", "function", 2)]);
}

#[test]
fn symbols_from_a_capture_list() {
    let caps = vec![
        RegexCapture {
            start: 0,
            text: "\n  export class Foo".to_string(),
            groups: vec![Some("export ".to_string()), Some("class".to_string()), Some("Foo".to_string())],
        },
        RegexCapture { start: 5, text: "x".to_string(), groups: vec![None, None, None] },
    ];
    let syms = symbols_from_captures("a.ts", "", 2, 3, "\n  export class Foo {}", &caps);
    assert_eq!(syms.len(), 1);
    assert_eq!((syms[0].name.as_str(), syms[0].kind.as_str(), syms[0].line), ("Foo", "class", 2));
    assert_eq!(syms[0].signature, "export class Foo");
    let syms = symbols_from_captures("a.rs", "function", 0, 3, "\n  export class Foo {}", &caps);
    assert_eq!(syms[0].kind, "function");
}

#[test]
fn grep_hits_from_a_match_list() {
    let mut g = GrepSearch::start("x").ok().unwrap();
    let ms: Vec<RegexMatch> = (0..12).map(|i| RegexMatch { start: i, text: "x".to_string() }).collect();
    g.add_matches(Some("f"), &ms);
    g.add_matches(None, &ms[..1].iter().map(|m| RegexMatch { start: m.start, text: m.text.clone() }).collect());
    let out = g.report().output;
    assert!(out.starts_with("找到 11 处匹配:\nf:0 | x\nf:1 | x"));
    assert!(out.ends_with("f:9 | x\n0 | x"));
}

#[test]
fn symbols_stand_on_their_own_line() {
    let syms = index_file("a.rs", "\n\nfn main() {}");
    assert_eq!(syms.len(), 1);
    assert_eq!((syms[0].name.as_str(), syms[0].kind.as_str(), syms[0].line), ("main", "function", 3));
    assert_eq!(syms[0].signature, "fn main");
    let syms = index_file("b.rs", "impl X {\n    fn go() {}\n}");
    let go = syms.iter().find(|s| s.name == "go").unwrap();
    assert_eq!((go.line, go.signature.as_str()), (2, "fn go"));
}

#[test]
fn arrow_functions_are_named_by_their_binding() {
    let syms = index_file("a.ts", "let foo = () => 1");
    assert_eq!(syms.len(), 1);
    assert_eq!((syms[0].name.as_str(), syms[0].kind.as_str(), syms[0].line), ("foo", "function", 1));
}

#[test]
fn script_classes_are_found_by_kind() {
    let syms = index_file("a.ts", "class Foo {}");
    let r = CodeSearchTool::search(&syms, Some("foo"), "class", "");
    assert!(r.success);
    assert!(r.output.starts_with("找到 1 个符号:"));
}

#[test]
fn index_is_sorted_by_file_keeping_order_within_a_file() {
    let found = vec![
        sym("b1", "function", "b.rs", 1, "fn b1"),
        sym("a1", "function", "a.rs", 1, "fn a1"),
        sym("b2", "function", "b.rs", 2, "fn b2"),
        sym("a2", "function", "a.rs", 2, "fn a2"),
    ];
    let names: Vec<String> = finish_index(found).into_iter().map(|s| s.name).collect();
    assert_eq!(names, vec!["a1", "a2", "b1", "b2"]);
}

#[test]
fn index_keeps_at_most_2000_symbols() {
    let found: Vec<SymbolIndex> = (0..2100).map(|i| sym(&format!("s{}", i), "function", "f.rs", i, "fn")).collect();
    let out = finish_index(found);
    assert_eq!(out.len(), 2000);
    assert_eq!(out[1999].name, "s1999");
}

#[test]
fn optional_groups_that_take_no_part_give_no_name() {
    // `(pub\s+)?` is the last group that matched nothing here, so the name
    // is the function's
    let syms = index_file("m.rs", "fn plain() {}\n");
    assert_eq!(syms.len(), 1);
    assert_eq!(syms[0].name, "plain");
    assert_eq!(syms[0].signature, "fn plain");
}

#[test]
fn grep_refuses_an_invalid_pattern() {
    match GrepSearch::start("(") {
        Err(t) => {
            assert!(!t.success);
            assert!(t.output.starts_with("正则表达式无效: "));
            assert!(t.output.len() > "正则表达式无效: ".len());
        }
        Ok(_) => panic!("the pattern does not compile"),
    }
}

#[test]
fn grep_collects_hits_per_file() {
    let mut g = match GrepSearch::start("fo+") {
        Ok(g) => g,
        Err(_) => panic!("valid pattern"),
    };
    assert!(g.wants_more());
    g.add_file("a.txt", "foo fooo");
    g.add_file("b.txt", "nothing here");
    let r = g.report();
    assert!(r.success);
    assert_eq!(r.output, "找到 2 处匹配:\na.txt:0 | foo\na.txt:4 | fooo");
}

#[test]
fn grep_single_file_and_no_hits() {
    let mut g = GrepSearch::start("foo").ok().unwrap();
    g.add_single("xfoo");
    assert_eq!(g.report().output, "找到 1 处匹配:\n1 | foo");
    let g = GrepSearch::start("zzz").ok().unwrap();
    assert_eq!(g.report().output, "未找到匹配: zzz");
}

#[test]
fn grep_takes_ten_hits_per_file_and_stops_after_fifty() {
    let mut g = GrepSearch::start("a").ok().unwrap();
    g.add_file("f", &"a".repeat(15));
    assert!(g.report().output.starts_with("找到 10 处匹配:"));
    for _ in 0..4 {
        g.add_file("f", &"a".repeat(15));
    }
    assert!(!g.wants_more());
    assert_eq!(GrepTool::missing_pattern().output, "缺少参数: pattern");
    assert_eq!(GrepTool::path_missing("/x").output, "路径不存在: /x");
}

#[test]
fn code_search_filters_and_formats() {
    let syms = vec![
        sym("alpha", "function", "src/lib.rs", 1, "pub fn alpha"),
        sym("Alphabet", "struct", "src/abc.rs", 7, "struct Alphabet"),
        sym("beta", "function", "src/lib.rs", 3, "fn beta"),
    ];
    let r = CodeSearchTool::search(&syms, Some("ALP"), "", "");
    assert!(r.success);
    assert_eq!(
        r.output,
        "找到 2 个符号:\nfunction | src/lib.rs:1 | pub fn alpha\nstruct | src/abc.rs:7 | struct Alphabet"
    );
    let r = CodeSearchTool::search(&syms, Some("alp"), "struct", "");
    assert_eq!(r.output, "找到 1 个符号:\nstruct | src/abc.rs:7 | struct Alphabet");
    let r = CodeSearchTool::search(&syms, Some("a"), "", "lib");
    assert_eq!(r.output, "找到 2 个符号:\nfunction | src/lib.rs:1 | pub fn alpha\nfunction | src/lib.rs:3 | fn beta");
    let r = CodeSearchTool::search(&syms, Some("ZZZ"), "", "");
    assert_eq!(r.output, "未找到包含 'zzz' 的符号");
    let r = CodeSearchTool::search(&syms, None, "", "");
    assert!(!r.success);
    assert_eq!(r.output, "缺少参数: query");
}

#[test]
fn code_search_shows_at_most_thirty() {
    let syms: Vec<SymbolIndex> = (0..40).map(|i| sym(&format!("f{}", i), "function", "a.rs", i, "fn")).collect();
    let r = CodeSearchTool::search(&syms, Some("f"), "", "");
    assert!(r.output.starts_with("找到 30 个符号:\n"));
    assert_eq!(r.output.lines().count(), 31);
}
