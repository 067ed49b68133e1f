use mcp2cli_rs::text::{
    contains, contains_char, ends_with, i64_decimal, replace, split_once_char, starts_with,
    str_eq, trim, trim_end_char, trim_start_matches, u64_decimal,
};

#[test]
fn prefixes_and_suffixes() {
    assert!(starts_with("--path", "--"));
    assert!(!starts_with("-x", "--"));
    assert!(starts_with("abc", ""));
    assert!(ends_with("http://h/sse", "/sse"));
    assert!(!ends_with("se", "/sse"));
}

#[test]
fn substring_search() {
    assert!(contains("http://h/sse?x=1", "/sse?"));
    assert!(!contains("http://h/sse", "/sse?"));
    assert!(contains("", ""));
    assert!(contains_char("a/b", '/'));
    assert!(!contains_char("ab", ':'));
}

#[test]
fn trimming() {
    assert_eq!(trim("  Name \t\n"), "Name");
    assert_eq!(trim("\u{3000}x\u{a0}"), "x");
    assert_eq!(trim("   "), "");
    assert_eq!(trim_start_matches("----key", "--"), "key");
    assert_eq!(trim_start_matches("---key", "--"), "-key");
    assert_eq!(trim_start_matches("key", ""), "key");
    assert_eq!(trim_end_char("http://api///", '/'), "http://api");
}

#[test]
fn splitting_and_equality() {
    assert_eq!(
        split_once_char("Authorization: Bearer a:b", ':'),
        Some(("Authorization".to_string(), " Bearer a:b".to_string()))
    );
    assert_eq!(split_once_char("no colon", ':'), None);
    assert!(str_eq("--", "--"));
    assert!(!str_eq("--", "---"));
}

#[test]
fn replacing() {
    assert_eq!(replace("/users/{id}/{id}", "{id}", "7"), "/users/7/7");
    assert_eq!(replace("aaa", "aa", "b"), "ba");
    assert_eq!(replace("none", "{x}", "y"), "none");
}

#[test]
fn decimals() {
    assert_eq!(u64_decimal(0), "0");
    assert_eq!(u64_decimal(18446744073709551615), "18446744073709551615");
    assert_eq!(i64_decimal(-32601), "-32601");
    assert_eq!(i64_decimal(i64::MIN), "-9223372036854775808");
    assert_eq!(i64_decimal(42), "42");
}
