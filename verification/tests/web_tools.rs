use agent_pc::web::{
    SearchResponse, SearchTopic, strip_html_tags, urlencoding, WebFetchTool, WebSearchTool,
};

#[test]
fn tags_are_removed_and_blanks_collapsed() {
    assert_eq!(strip_html_tags("<p>Hello <b>World</b></p>"), "Hello World");
    assert_eq!(strip_html_tags("  a \n\t b  "), "a b");
    assert_eq!(strip_html_tags(""), "");
}

#[test]
fn script_and_style_contents_are_dropped() {
    assert_eq!(strip_html_tags("<script>var x=1;</script>Hi"), "Hi");
    assert_eq!(strip_html_tags("<script>x</script>ok"), "ok");
    assert_eq!(strip_html_tags("<style>p{}</style>ok"), "ok");
    assert_eq!(strip_html_tags("<STYLE>p{}</STYLE> ok"), "ok");
    assert_eq!(strip_html_tags("a<script src=x></script>b"), "ab");
}

#[test]
fn stripped_text_strips_to_itself() {
    for page in ["<p>Hello <b>World</b></p>", "<div>\n a  b </div>", "<script>s</script> t <i>u</i>"] {
        let t = strip_html_tags(page);
        assert!(!t.contains('<'));
        assert_eq!(strip_html_tags(&t), t);
    }
}

#[test]
fn tagless_page_is_its_text() {
    assert_eq!(strip_html_tags("just words"), "just words");
}

#[test]
fn non_ascii_text_around_tags_is_kept() {
    assert_eq!(strip_html_tags("é<b>x</b>"), "éx");
    assert_eq!(strip_html_tags("中<b>x</b>"), "中x");
    assert_eq!(strip_html_tags("<b>x</b>中"), "x中");
    // two accented letters before a script element: its text is still dropped
    assert_eq!(strip_html_tags("éé<script>var a;</script>z"), "ééz");
    assert_eq!(strip_html_tags("中文<STYLE>p{}</Style>正文"), "中文正文");
}

#[test]
fn query_encoding() {
    assert_eq!(urlencoding("Rust lang"), "Rust+lang");
    assert_eq!(urlencoding("a-b_c.d~e"), "a-b_c.d~e");
    assert_eq!(urlencoding("a&b=c"), "a%26b%3Dc");
    // characters beyond one byte are encoded by their lowest byte
    assert_eq!(urlencoding("中"), "%2D");
}

fn form_decode(t: &str) -> Vec<u8> {
    let b = t.as_bytes();
    let mut out = Vec::new();
    let mut i = 0;
    while i < b.len() {
        if b[i] == b'+' {
            out.push(b' ');
            i += 1;
        } else if b[i] == b'%' && i + 2 < b.len() && (b[i + 1] as char).is_ascii_hexdigit() && (b[i + 2] as char).is_ascii_hexdigit() {
            out.push(u8::from_str_radix(&t[i + 1..i + 3], 16).unwrap());
            i += 3;
        } else {
            out.push(b[i]);
            i += 1;
        }
    }
    out
}

#[test]
fn encoded_ascii_query_decodes_to_itself() {
    for q in ["Rust lang", "a&b=c+d", "100% /path?x=1#y", "~.-_", ""] {
        assert_eq!(form_decode(&urlencoding(q)), q.as_bytes());
    }
}

#[test]
fn search_url() {
    assert_eq!(
        WebSearchTool::search_url("rust verus"),
        "https://api.duckduckgo.com/?q=rust+verus&format=json&no_html=1&skip_disambig=1"
    );
}

#[test]
fn search_report_from_json() {
    let body = r#"{"AbstractText":"Rust 是语言","RelatedTopics":[{"Text":"A","FirstURL":"u1"},{"Text":"B"},{"Text":"C","FirstURL":"u3"}]}"#;
    let r = WebSearchTool::report("rust", 5, body);
    assert!(r.success);
    assert_eq!(r.tool_name, "web_search");
    // results are the topics with both a text and a link, numbered by position
    assert_eq!(r.output, "摘要: Rust 是语言\n\n1. A - u1\n3. C - u3\n");
    let r = WebSearchTool::report("rust", 2, body);
    assert_eq!(r.output, "摘要: Rust 是语言\n\n1. A - u1\n3. C - u3\n");
    let r = WebSearchTool::report("rust", 1, body);
    assert_eq!(r.output, "摘要: Rust 是语言\n\n1. A - u1\n");
}

#[test]
fn incomplete_topics_do_not_count_against_the_limit() {
    let body = r#"{"AbstractText":"","RelatedTopics":[{"Name":"G","Topics":[]},{"Text":"A","FirstURL":"u"}]}"#;
    let r = WebSearchTool::report("q", 1, body);
    assert_eq!(r.output, "2. A - u\n");
}

#[test]
fn report_text_from_parsed_fields() {
    let resp = SearchResponse {
        abstract_text: Some("摘要文字".to_string()),
        topics: Some(vec![
            SearchTopic { text: Some("T".to_string()), url: None },
            SearchTopic { text: Some("U".to_string()), url: Some("v".to_string()) },
        ]),
    };
    assert_eq!(WebSearchTool::search_report_text("q", 5, &resp), "摘要: 摘要文字\n\n2. U - v\n");
    let empty = SearchResponse { abstract_text: None, topics: None };
    assert_eq!(WebSearchTool::search_report_text("q", 5, &empty), "未找到 'q' 的相关结果");
}

#[test]
fn search_report_without_results() {
    let r = WebSearchTool::report("无结果", 5, r#"{"AbstractText":"","RelatedTopics":[]}"#);
    assert!(r.success);
    assert_eq!(r.output, "未找到 '无结果' 的相关结果");
}

#[test]
fn search_report_of_a_raw_body() {
    let r = WebSearchTool::report("q", 5, "not json");
    assert_eq!(r.output, "搜索结果(原始): not json");
    let long = "x".repeat(3000);
    let r = WebSearchTool::report("q", 5, &long);
    assert_eq!(r.output, format!("搜索结果(原始): {}", "x".repeat(2000)));
}

#[test]
fn search_report_refused_where_the_cut_splits_a_character() {
    let body = format!("{}中", "x".repeat(1999));
    assert!(WebSearchTool::try_report("q", 5, &body).is_none());
    assert!(WebSearchTool::try_report("q", 5, "plain").is_some());
}

#[test]
fn fetched_page_report() {
    assert_eq!(WebFetchTool::page_output(200, "<h1>Title</h1><p>Body</p>"), "[状态码: 200]\nTitleBody");
    let long = "y".repeat(6000);
    assert_eq!(WebFetchTool::page_output(404, &long), format!("[状态码: 404]\n{}\n...(截断)", "y".repeat(5000)));
    assert_eq!(WebFetchTool::page_output(200, "中<p>文"), "[状态码: 200]\n中文");
}
