use edr_kill_switch::config::{LogFormat, LoggingConfig, RuleType};
use edr_kill_switch::logger::{LogEvent, Logger};
use edr_kill_switch::rotation::{needs_rotation, oldest_generation, rotated_path};

#[test]
fn rotation_is_due_when_the_line_would_pass_the_size() {
    let mb = 1_048_576u64;
    assert!(!needs_rotation(0, 100, 1));
    assert!(!needs_rotation(mb - 100, 100, 1));
    assert!(needs_rotation(mb - 99, 100, 1));
    assert!(needs_rotation(mb, 1, 1));
    assert!(!needs_rotation(10 * mb - 1, 1, 10));
    assert!(needs_rotation(10 * mb, 1, 10));
    assert!(needs_rotation(u64::MAX, u64::MAX, 1));
}

#[test]
fn rotation_size_of_zero_never_rotates() {
    assert!(!needs_rotation(u64::MAX, u64::MAX, 0));
    assert!(!needs_rotation(0, 0, 0));
}

#[test]
fn rotation_size_beyond_any_file_never_rotates() {
    assert!(!needs_rotation(u64::MAX, 0, u64::MAX));
    assert!(!needs_rotation(u64::MAX, u64::MAX, u64::MAX));
}

#[test]
fn generations_are_named_by_number() {
    assert_eq!(rotated_path("logs/edr.log", 0), "logs/edr.log");
    assert_eq!(rotated_path("logs/edr.log", 1), "logs/edr.log.1");
    assert_eq!(rotated_path("logs/edr.log", 12), "logs/edr.log.12");
    assert_eq!(oldest_generation(5), 4);
    assert_eq!(oldest_generation(1), 0);
    assert_eq!(oldest_generation(0), 0);
}

#[test]
fn rule_type_by_kind_name() {
    assert_eq!(
        RuleType::parse("name", "a".to_string()),
        Some(RuleType::Name { value: "a".to_string() })
    );
    assert_eq!(
        RuleType::parse("path", "a".to_string()),
        Some(RuleType::Path { value: "a".to_string() })
    );
    assert_eq!(
        RuleType::parse("hash", "a".to_string()),
        Some(RuleType::Hash { sha256: "a".to_string() })
    );
    assert_eq!(
        RuleType::parse("command", "a".to_string()),
        Some(RuleType::Command { pattern: "a".to_string() })
    );
    assert_eq!(RuleType::parse("Name", "a".to_string()), None);
    assert_eq!(RuleType::parse("", "a".to_string()), None);
    let hash = RuleType::Hash { sha256: "ab".to_string() };
    assert_eq!(hash.kind_name(), "hash");
    assert_eq!(hash.value(), "ab");
    assert_eq!(RuleType::Command { pattern: "x".to_string() }.kind_name(), "command");
    assert_eq!(RuleType::Name { value: "x".to_string() }.kind_name(), "name");
    assert_eq!(RuleType::Path { value: "x".to_string() }.kind_name(), "path");
}

#[test]
fn total_counts_every_event_ever_logged() {
    let config = LoggingConfig {
        file_path: "edr.log".to_string(),
        format: LogFormat::Compact,
        rotation_size_mb: 1,
        max_files: 2,
    };
    let mut log = Logger::new(&config);
    assert_eq!(log.total_logged(), 0);
    assert_eq!(log.settings(), &config);
    for n in 0..10_003u64 {
        log.log_event(LogEvent::ApplicationStopped { timestamp: n, reason: "r".to_string() });
    }
    assert_eq!(log.total_logged(), 10_003);
    assert_eq!(log.len(), 10_000);
    log.clear_logs();
    assert_eq!(log.total_logged(), 10_003);
}
