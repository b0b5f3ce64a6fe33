use edr_kill_switch::config::LogFormat;
use edr_kill_switch::format::{clock, format_compact_log, format_log_event, format_text_log};
use edr_kill_switch::logger::LogEvent;

const NOON: u64 = 1_431_648_000_000 + (12 * 3600 + 3 * 60 + 44) * 1000;

#[test]
fn clock_is_the_time_of_day() {
    assert_eq!(clock(0), "00:00:00");
    assert_eq!(clock(999), "00:00:00");
    assert_eq!(clock(1_000), "00:00:01");
    assert_eq!(clock(NOON), "12:03:44");
    assert_eq!(clock(86_399_999), "23:59:59");
    assert_eq!(clock(86_400_000), "00:00:00");
}

#[test]
fn compact_process_killed() {
    let e = LogEvent::ProcessKilled {
        pid: 4212,
        process_name: "evil.exe".to_string(),
        timestamp: NOON,
        success: true,
        reason: "terminated".to_string(),
    };
    assert_eq!(format_compact_log(&e), "12:03:44 KILL 4212 OK");
    let e = LogEvent::ProcessKilled {
        pid: 1,
        process_name: "evil.exe".to_string(),
        timestamp: NOON,
        success: false,
        reason: "restricted".to_string(),
    };
    assert_eq!(format_compact_log(&e), "12:03:44 KILL 1 FAIL");
}

#[test]
fn compact_forms_of_the_other_kinds() {
    let e = LogEvent::ThreatDetected {
        pid: 1111,
        process_name: "Evil.EXE".to_string(),
        rule: "d1".to_string(),
        timestamp: NOON,
        action_taken: "kill".to_string(),
    };
    assert_eq!(format_compact_log(&e), "12:03:44 THREAT 1111 d1");
    let e = LogEvent::ScanStarted { timestamp: NOON, scan_type: "daemon".to_string() };
    assert_eq!(format_compact_log(&e), "12:03:44 SCAN_START daemon");
    let e = LogEvent::ScanCompleted {
        timestamp: NOON,
        processes_scanned: 120,
        threats_found: 2,
        processes_killed: 1,
        duration_ms: 35,
    };
    assert_eq!(format_compact_log(&e), "12:03:44 SCAN_END 2/120 35ms");
    let e = LogEvent::ConfigurationChanged {
        timestamp: NOON,
        changed_by: "admin".to_string(),
        changes: "policy reloaded".to_string(),
    };
    assert_eq!(format_compact_log(&e), "12:03:44 CONFIG admin");
    let e = LogEvent::SystemEvent {
        timestamp: NOON,
        event_type: "emergency_stop".to_string(),
        message: "Emergency stop activated".to_string(),
        severity: "critical".to_string(),
    };
    assert_eq!(format_compact_log(&e), "12:03:44 SYS emergency_stop critical");
    let e = LogEvent::ApplicationStarted { timestamp: NOON, version: "1.2.0".to_string(), is_admin: true };
    assert_eq!(format_compact_log(&e), "12:03:44 START 1.2.0 ADMIN");
    let e = LogEvent::ApplicationStarted { timestamp: NOON, version: "1.2.0".to_string(), is_admin: false };
    assert_eq!(format_compact_log(&e), "12:03:44 START 1.2.0 USER");
    let e = LogEvent::ApplicationStopped { timestamp: NOON, reason: "signal".to_string() };
    assert_eq!(format_compact_log(&e), "12:03:44 STOP");
}

#[test]
fn text_forms_of_every_kind() {
    let e = LogEvent::ProcessKilled {
        pid: 4212,
        process_name: "evil.exe".to_string(),
        timestamp: NOON,
        success: false,
        reason: "restricted".to_string(),
    };
    assert_eq!(
        format_text_log(&e),
        "[2015-05-15 12:03:44 UTC] PROCESS_KILLED - PID: 4212, Process: evil.exe, Success: false, Reason: restricted"
    );
    let e = LogEvent::ThreatDetected {
        pid: 1111,
        process_name: "Evil.EXE".to_string(),
        rule: "d1".to_string(),
        timestamp: NOON,
        action_taken: "kill".to_string(),
    };
    assert_eq!(
        format_text_log(&e),
        "[2015-05-15 12:03:44 UTC] THREAT_DETECTED - PID: 1111, Process: Evil.EXE, Rule: d1, Action: kill"
    );
    let e = LogEvent::ScanStarted { timestamp: NOON, scan_type: "single".to_string() };
    assert_eq!(format_text_log(&e), "[2015-05-15 12:03:44 UTC] SCAN_STARTED - Type: single");
    let e = LogEvent::ScanCompleted {
        timestamp: NOON,
        processes_scanned: 120,
        threats_found: 2,
        processes_killed: 1,
        duration_ms: 35,
    };
    assert_eq!(
        format_text_log(&e),
        "[2015-05-15 12:03:44 UTC] SCAN_COMPLETED - Scanned: 120, Threats: 2, Killed: 1, Duration: 35ms"
    );
    let e = LogEvent::ConfigurationChanged {
        timestamp: NOON,
        changed_by: "admin".to_string(),
        changes: "policy reloaded".to_string(),
    };
    assert_eq!(
        format_text_log(&e),
        "[2015-05-15 12:03:44 UTC] CONFIG_CHANGED - By: admin, Changes: policy reloaded"
    );
    let e = LogEvent::SystemEvent {
        timestamp: NOON,
        event_type: "kill_failed".to_string(),
        message: "EPERM".to_string(),
        severity: "warn".to_string(),
    };
    assert_eq!(
        format_text_log(&e),
        "[2015-05-15 12:03:44 UTC] SYSTEM_EVENT - Type: kill_failed, Severity: warn, Message: EPERM"
    );
    let e = LogEvent::ApplicationStarted { timestamp: NOON, version: "1.2.0".to_string(), is_admin: true };
    assert_eq!(format_text_log(&e), "[2015-05-15 12:03:44 UTC] APP_STARTED - Version: 1.2.0, Admin: true");
    let e = LogEvent::ApplicationStopped { timestamp: NOON, reason: "signal".to_string() };
    assert_eq!(format_text_log(&e), "[2015-05-15 12:03:44 UTC] APP_STOPPED - Reason: signal");
}

#[test]
fn text_form_at_the_ends_of_the_calendar() {
    let e = LogEvent::ApplicationStopped { timestamp: 0, reason: "r".to_string() };
    assert_eq!(format_text_log(&e), "[1970-01-01 00:00:00 UTC] APP_STOPPED - Reason: r");
    let e = LogEvent::ApplicationStopped { timestamp: 253_402_300_799_999, reason: "r".to_string() };
    assert_eq!(format_text_log(&e), "[9999-12-31 23:59:59 UTC] APP_STOPPED - Reason: r");
    let e = LogEvent::ApplicationStopped { timestamp: u64::MAX, reason: "r".to_string() };
    assert_eq!(format_text_log(&e), "[9999-12-31 23:59:59 UTC] APP_STOPPED - Reason: r");
}

#[test]
fn format_of_the_configuration_picks_the_form() {
    let e = LogEvent::ApplicationStopped { timestamp: NOON, reason: "signal".to_string() };
    assert_eq!(format_log_event(LogFormat::Json, &e), None);
    assert_eq!(
        format_log_event(LogFormat::Text, &e),
        Some("[2015-05-15 12:03:44 UTC] APP_STOPPED - Reason: signal".to_string())
    );
    assert_eq!(format_log_event(LogFormat::Compact, &e), Some("12:03:44 STOP".to_string()));
}
