use edr_kill_switch::config::{
    clone_rules, Config, KillPolicy, LogFormat, Rule, RuleType, ScanningConfig,
};
use edr_kill_switch::store::{FileStamp, PolicyStore};

fn rule(id: &str) -> Rule {
    Rule::new(id, RuleType::Name { value: "x".to_string() })
}

fn valid() -> Config {
    Config { blacklist: vec![rule("d1")], ..Config::default() }
}

#[test]
fn default_configuration() {
    let c = Config::default();
    assert!(c.blacklist.is_empty());
    assert!(c.whitelist.is_empty());
    assert_eq!(
        c.scanning,
        ScanningConfig { scan_interval_ms: 2000, enable_hash_check: false, enable_command_check: true }
    );
    assert_eq!(
        c.kill_policy,
        KillPolicy {
            graceful_kill: true,
            force_kill_timeout_ms: 5000,
            cooldown_ms: 1000,
            max_retry_attempts: 3
        }
    );
    assert_eq!(c.logging.file_path, "edr_kill_switch.log");
    assert_eq!(c.logging.format, LogFormat::Json);
    assert_eq!(c.logging.rotation_size_mb, 10);
    assert_eq!(c.logging.max_files, 5);
}

#[test]
fn validate_accepts_a_document_with_an_enabled_rule() {
    assert_eq!(valid().validate(), Ok(()));
    let allow_only = Config { whitelist: vec![rule("a1")], ..Config::default() };
    assert_eq!(allow_only.validate(), Ok(()));
}

#[test]
fn validate_wants_an_enabled_rule() {
    assert_eq!(
        Config::default().validate(),
        Err("Configuration must contain at least one enabled rule".to_string())
    );
    let mut off = rule("d1");
    off.enabled = false;
    let c = Config { blacklist: vec![off], ..Config::default() };
    assert_eq!(
        c.validate(),
        Err("Configuration must contain at least one enabled rule".to_string())
    );
}

#[test]
fn validate_wants_a_scan_interval_of_100_ms() {
    let mut c = valid();
    c.scanning.scan_interval_ms = 99;
    assert_eq!(c.validate(), Err("Scan interval must be at least 100ms".to_string()));
    c.scanning.scan_interval_ms = 100;
    assert_eq!(c.validate(), Ok(()));
}

#[test]
fn validate_wants_a_force_kill_timeout_of_100_ms() {
    let mut c = valid();
    c.kill_policy.force_kill_timeout_ms = 99;
    assert_eq!(c.validate(), Err("Force kill timeout must be at least 100ms".to_string()));
    c.kill_policy.force_kill_timeout_ms = 100;
    assert_eq!(c.validate(), Ok(()));
}

#[test]
fn validate_wants_identifiers_that_differ() {
    let c = Config { blacklist: vec![rule("x"), rule("y"), rule("x")], ..Config::default() };
    assert_eq!(c.validate(), Err("Rule identifiers must be unique".to_string()));
    let c = Config { whitelist: vec![rule("x")], blacklist: vec![rule("x")], ..Config::default() };
    assert_eq!(c.validate(), Err("Rule identifiers must be unique".to_string()));
    let c = Config { whitelist: vec![rule("x"), rule("x")], blacklist: vec![], ..Config::default() };
    assert_eq!(c.validate(), Err("Rule identifiers must be unique".to_string()));
    let c = Config { whitelist: vec![rule("x")], blacklist: vec![rule("y")], ..Config::default() };
    assert_eq!(c.validate(), Ok(()));
}

#[test]
fn validate_reports_the_first_complaint() {
    let mut c = Config::default();
    c.scanning.scan_interval_ms = 1;
    c.kill_policy.force_kill_timeout_ms = 1;
    assert_eq!(
        c.validate(),
        Err("Configuration must contain at least one enabled rule".to_string())
    );
    c.blacklist.push(rule("d"));
    assert_eq!(c.validate(), Err("Scan interval must be at least 100ms".to_string()));
}

#[test]
fn log_format_names() {
    assert_eq!(LogFormat::parse("json"), Some(LogFormat::Json));
    assert_eq!(LogFormat::parse("text"), Some(LogFormat::Text));
    assert_eq!(LogFormat::parse("compact"), Some(LogFormat::Compact));
    assert_eq!(LogFormat::parse("JSON"), None);
    assert_eq!(LogFormat::parse(""), None);
}

#[test]
fn rules_are_copied_whole() {
    let mut r = rule("d1");
    r.description = Some("about".to_string());
    r.severity = Some("high".to_string());
    r.enabled = false;
    let rules = vec![r, Rule::new("c", RuleType::Command { pattern: "a.*".to_string() })];
    assert_eq!(clone_rules(&rules), rules);
    assert_eq!(rules[0].clone(), rules[0]);
}

#[test]
fn policy_file_is_read_again_only_when_its_stamp_changes() {
    let mut store = PolicyStore::new();
    let first = FileStamp { modified_ms: 1000, size: 20 };
    assert!(store.needs_reload(first));
    store.mark_read(first);
    assert!(!store.needs_reload(first));
    assert!(store.needs_reload(FileStamp { modified_ms: 1001, size: 20 }));
    assert!(store.needs_reload(FileStamp { modified_ms: 1000, size: 21 }));
}
