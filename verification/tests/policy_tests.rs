use edr_kill_switch::config::{builtin_allow_rules, Config, Platform, Rule, RuleType};
use edr_kill_switch::pattern::PatternCache;
use edr_kill_switch::policy::{
    matches_rule_hash, matches_rule_name, matches_rule_path, PolicyEngine, Verdict,
};
use edr_kill_switch::process::ProcessInfo;

fn name_rule(id: &str, value: &str) -> Rule {
    Rule::new(id, RuleType::Name { value: value.to_string() })
}

fn path_rule(id: &str, value: &str) -> Rule {
    Rule::new(id, RuleType::Path { value: value.to_string() })
}

fn hash_rule(id: &str, value: &str) -> Rule {
    Rule::new(id, RuleType::Hash { sha256: value.to_string() })
}

fn command_rule(id: &str, pattern: &str) -> Rule {
    Rule::new(id, RuleType::Command { pattern: pattern.to_string() })
}

fn engine(allow: Vec<Rule>, deny: Vec<Rule>) -> PolicyEngine {
    let config = Config { whitelist: allow, blacklist: deny, ..Config::default() };
    PolicyEngine::new(&config, Vec::new())
}

#[test]
fn name_rule_ignores_ascii_case() {
    let mut e = engine(vec![], vec![name_rule("d1", "evil.exe")]);
    let p = ProcessInfo::new(1111, "Evil.EXE");
    assert_eq!(e.evaluate(&p), Verdict::Deny("d1".to_string()));
    let q = ProcessInfo::new(7, "good.exe");
    assert_eq!(e.evaluate(&q), Verdict::Unmatched);
}

#[test]
fn name_rule_with_wildcard() {
    assert!(matches_rule_name("Evil.EXE", "evil*"));
    assert!(matches_rule_name("evil.exe", "*.EXE"));
    assert!(matches_rule_name("anything", "*"));
    assert!(!matches_rule_name("evil.exe", "*.dll"));
    assert!(!matches_rule_name("evil.exe", "evil"));
    assert!(matches_rule_name("evil", "evil"));
}

#[test]
fn path_rule_needs_a_path() {
    let mut e = engine(vec![], vec![path_rule("d1", "C:\\apps\\*")]);
    let mut p = ProcessInfo::new(5, "tool.exe");
    assert_eq!(e.evaluate(&p), Verdict::Unmatched);
    p.path = Some("c:\\APPS\\tool.exe".to_string());
    assert_eq!(e.evaluate(&p), Verdict::Deny("d1".to_string()));
    assert!(matches_rule_path("/usr/bin/nc", "/usr/bin/NC"));
    assert!(!matches_rule_path("/usr/bin/nc", "/usr/bin/ncat"));
}

#[test]
fn hash_rule_needs_a_digest() {
    let digest = "ba7816bf8f01cfea414140de5dae2223b00361a396177a9cb410ff61f20015ad";
    let mut e = engine(vec![], vec![hash_rule("h1", &digest.to_uppercase())]);
    let mut p = ProcessInfo::new(5, "tool.exe");
    assert_eq!(e.evaluate(&p), Verdict::Unmatched);
    p.hash = Some(digest.to_string());
    assert_eq!(e.evaluate(&p), Verdict::Deny("h1".to_string()));
    assert!(matches_rule_hash("ABCDEF", "abcdef"));
    assert!(!matches_rule_hash("abcdef", "abcde0"));
}

#[test]
fn command_rule_searches_the_joined_command_line() {
    let mut e = engine(vec![], vec![command_rule("c1", r"--steal\s+\d+")]);
    let mut p = ProcessInfo::new(9, "tool");
    p.command = vec!["tool".to_string(), "--steal".to_string(), "42".to_string()];
    assert_eq!(e.evaluate(&p), Verdict::Deny("c1".to_string()));
    p.command = vec!["tool".to_string(), "--steal".to_string(), "all".to_string()];
    assert_eq!(e.evaluate(&p), Verdict::Unmatched);
}

#[test]
fn pattern_that_does_not_compile_matches_nothing() {
    let mut e = engine(vec![], vec![command_rule("bad", "foo(bar"), name_rule("d2", "tool")]);
    let mut p = ProcessInfo::new(9, "tool");
    p.command = vec!["foo(bar".to_string()];
    assert_eq!(e.evaluate(&p), Verdict::Deny("d2".to_string()));
    assert_eq!(e.invalid_rule_ids(), vec!["bad".to_string()]);
}

#[test]
fn invalid_rule_ids_lists_allow_rules_first_and_skips_disabled_ones() {
    let mut off = command_rule("off", "(((");
    off.enabled = false;
    let mut e = engine(
        vec![command_rule("a-bad", "[z-a]"), command_rule("a-good", "ok")],
        vec![off, command_rule("d-bad", "*oops")],
    );
    assert_eq!(e.invalid_rule_ids(), vec!["a-bad".to_string(), "d-bad".to_string()]);
}

#[test]
fn pattern_cache_compiles_each_pattern_once() {
    let mut cache = PatternCache::new();
    assert!(cache.matches("a+b", "xxaaab"));
    assert!(!cache.matches("a+b", "xxb"));
    assert!(cache.matches("^x", "xxb"));
    assert_eq!(cache.len(), 2);
    assert!(!cache.matches("(", "("));
    assert!(!cache.is_valid("("));
    assert!(cache.is_valid("a+b"));
    assert_eq!(cache.len(), 3);
}

#[test]
fn allow_dominates_deny() {
    let mut e = engine(
        vec![name_rule("a1", "chrome.exe")],
        vec![path_rule("d1", "C:\\apps\\chrome.exe")],
    );
    let mut p = ProcessInfo::new(22, "chrome.exe");
    p.path = Some("C:\\apps\\chrome.exe".to_string());
    assert_eq!(e.evaluate(&p), Verdict::Allow("a1".to_string()));
    assert!(e.is_whitelisted(&p));
    assert!(e.is_blacklisted(&p));
}

#[test]
fn first_rule_in_declaration_order_wins() {
    let mut e = engine(
        vec![],
        vec![name_rule("other", "x"), name_rule("first", "ev*"), name_rule("second", "evil.exe")],
    );
    let p = ProcessInfo::new(3, "evil.exe");
    assert_eq!(e.evaluate(&p), Verdict::Deny("first".to_string()));
}

#[test]
fn disabled_rules_are_skipped() {
    let mut allow = name_rule("a1", "evil.exe");
    allow.enabled = false;
    let mut deny_off = name_rule("d0", "evil.exe");
    deny_off.enabled = false;
    let mut e = engine(vec![allow], vec![deny_off, name_rule("d1", "evil.exe")]);
    let p = ProcessInfo::new(3, "evil.exe");
    assert_eq!(e.evaluate(&p), Verdict::Deny("d1".to_string()));
    assert!(!e.is_whitelisted(&p));
}

#[test]
fn builtin_rules_come_before_the_lists() {
    let config = Config {
        whitelist: vec![name_rule("a1", "lsass.exe")],
        blacklist: vec![name_rule("d1", "agent.exe"), name_rule("d2", "lsass.exe")],
        ..Config::default()
    };
    let mut e = PolicyEngine::new(&config, builtin_allow_rules("agent.exe", Platform::Windows));
    assert_eq!(
        e.evaluate(&ProcessInfo::new(1, "AGENT.EXE")),
        Verdict::Allow("self_protection".to_string())
    );
    assert_eq!(
        e.evaluate(&ProcessInfo::new(2, "lsass.exe")),
        Verdict::Allow("system_lsass.exe".to_string())
    );
}

#[test]
fn builtin_rules_of_each_platform() {
    let windows = builtin_allow_rules("edr.exe", Platform::Windows);
    assert_eq!(windows.len(), 9);
    assert_eq!(windows[0].id, "self_protection");
    assert_eq!(windows[0].rule_type, RuleType::Name { value: "edr.exe".to_string() });
    assert_eq!(windows[0].description, Some("Self protection rule".to_string()));
    assert_eq!(windows[1].id, "system_System");
    assert_eq!(windows[8].id, "system_dwm.exe");
    assert_eq!(windows[8].rule_type, RuleType::Name { value: "dwm.exe".to_string() });
    assert_eq!(
        windows[2].description,
        Some("Critical system process: smss.exe".to_string())
    );
    assert!(windows.iter().all(|r| r.enabled));
    let other = builtin_allow_rules("edr", Platform::Other);
    assert_eq!(other.len(), 1);
}
