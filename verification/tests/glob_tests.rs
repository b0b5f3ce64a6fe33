use edr_kill_switch::glob::wildcard_match;
use edr_kill_switch::text::{decimal, eq_ignore_case, join_spaced, lower_chars};

fn chars(s: &str) -> Vec<char> {
    s.chars().collect()
}

#[test]
fn star_matches_any_run() {
    assert!(wildcard_match(&chars("*"), &chars("")));
    assert!(wildcard_match(&chars("*"), &chars("anything")));
    assert!(wildcard_match(&chars("evil*"), &chars("evil.exe")));
    assert!(wildcard_match(&chars("*.exe"), &chars("evil.exe")));
    assert!(wildcard_match(&chars("e*l*e"), &chars("evil.exe")));
    assert!(wildcard_match(&chars("a**b"), &chars("ab")));
}

#[test]
fn literal_characters_must_agree() {
    assert!(wildcard_match(&chars("abc"), &chars("abc")));
    assert!(!wildcard_match(&chars("abc"), &chars("abd")));
    assert!(!wildcard_match(&chars("abc"), &chars("ab")));
    assert!(!wildcard_match(&chars(""), &chars("a")));
    assert!(wildcard_match(&chars(""), &chars("")));
    assert!(!wildcard_match(&chars("*.exe"), &chars("evil.dll")));
    assert!(!wildcard_match(&chars("a?c"), &chars("abc")));
    assert!(wildcard_match(&chars("a?c"), &chars("a?c")));
}

#[test]
fn lower_casing_touches_only_ascii_capitals() {
    assert_eq!(lower_chars("Evil.EXE"), chars("evil.exe"));
    assert_eq!(lower_chars("aZ@[`{09"), chars("az@[`{09"));
    assert_eq!(lower_chars("ÄÖ"), chars("ÄÖ"));
    assert!(eq_ignore_case("Chrome.exe", "chrome.EXE"));
    assert!(!eq_ignore_case("chrome.exe", "chrome.ex"));
}

#[test]
fn decimal_text_of_numbers() {
    assert_eq!(decimal(0), "0");
    assert_eq!(decimal(7), "7");
    assert_eq!(decimal(10), "10");
    assert_eq!(decimal(4212), "4212");
    assert_eq!(decimal(u64::MAX), "18446744073709551615");
}

#[test]
fn joins_with_single_spaces() {
    assert_eq!(join_spaced(&vec![]), "");
    assert_eq!(join_spaced(&vec!["a".to_string()]), "a");
    assert_eq!(
        join_spaced(&vec!["cmd".to_string(), "/c".to_string(), "dir".to_string()]),
        "cmd /c dir"
    );
}
