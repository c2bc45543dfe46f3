use agent_pc::sort::stable_order;
use agent_pc::text::{
    i64_to_decimal, join_strings, replace_count, str_contains, take_chars, trim, u64_to_decimal,
};

#[test]
fn trimming() {
    assert_eq!(trim("  a b \n"), "a b");
    assert_eq!(trim("\u{3000}全角\u{3000}"), "全角");
    assert_eq!(trim("   "), "");
}

#[test]
fn decimals() {
    assert_eq!(u64_to_decimal(0), "0");
    assert_eq!(u64_to_decimal(18446744073709551615), "18446744073709551615");
    assert_eq!(i64_to_decimal(-1), "-1");
    assert_eq!(i64_to_decimal(i64::MIN), "-9223372036854775808");
}

#[test]
fn taking_characters() {
    assert_eq!(take_chars("中文abc", 3), "中文a");
    assert_eq!(take_chars("ab", 10), "ab");
}

#[test]
fn joining() {
    let v = vec!["a".to_string(), "b".to_string(), "c".to_string()];
    assert_eq!(join_strings(&v, ", "), "a, b, c");
    assert_eq!(join_strings(&vec![], ", "), "");
}

#[test]
fn replacing_counts_occurrences() {
    assert_eq!(replace_count("a.b.c", ".", "::"), ("a::b::c".to_string(), 2));
    assert_eq!(replace_count("xyz", "q", "r"), ("xyz".to_string(), 0));
    assert_eq!(replace_count("abab", "ab", "ab"), ("abab".to_string(), 2));
    assert!(str_contains("hello", "ell"));
    assert!(!str_contains("hello", "elo"));
}

#[test]
fn stable_orders() {
    let keys: Vec<String> = ["b", "a", "b", "a"].iter().map(|s| s.to_string()).collect();
    assert_eq!(stable_order(&keys, false), vec![1, 3, 0, 2]);
    assert_eq!(stable_order(&keys, true), vec![0, 2, 1, 3]);
    let keys: Vec<String> = ["ab", "a", ""].iter().map(|s| s.to_string()).collect();
    assert_eq!(stable_order(&keys, false), vec![2, 1, 0]);
}
