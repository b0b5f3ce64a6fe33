use edr_kill_switch::config::{LogFormat, LoggingConfig};
use edr_kill_switch::logger::{parse_kind, EventKind, LogEvent, LogStats, Logger};

fn config() -> LoggingConfig {
    LoggingConfig {
        file_path: "edr.log".to_string(),
        format: LogFormat::Text,
        rotation_size_mb: 10,
        max_files: 5,
    }
}

fn started(ts: u64) -> LogEvent {
    LogEvent::ScanStarted { timestamp: ts, scan_type: "single".to_string() }
}

fn killed(pid: u32, ts: u64, success: bool) -> LogEvent {
    LogEvent::ProcessKilled {
        pid,
        process_name: "evil.exe".to_string(),
        timestamp: ts,
        success,
        reason: "terminated".to_string(),
    }
}

fn threat(pid: u32, ts: u64) -> LogEvent {
    LogEvent::ThreatDetected {
        pid,
        process_name: "evil.exe".to_string(),
        rule: "d1".to_string(),
        timestamp: ts,
        action_taken: "kill".to_string(),
    }
}

fn completed(ts: u64) -> LogEvent {
    LogEvent::ScanCompleted {
        timestamp: ts,
        processes_scanned: 3,
        threats_found: 1,
        processes_killed: 1,
        duration_ms: 12,
    }
}

#[test]
fn new_log_is_empty() {
    let l = Logger::new(&config());
    assert_eq!(l.len(), 0);
    assert!(l.get_recent_logs(10).is_empty());
    assert_eq!(l.get_log_stats(), LogStats::default());
}

#[test]
fn events_are_kept_in_the_order_they_were_logged() {
    let mut l = Logger::new(&config());
    assert_eq!(l.log_event(started(100)), started(100));
    assert_eq!(l.log_event(threat(5, 110)), threat(5, 110));
    assert_eq!(l.log_event(completed(120)), completed(120));
    assert_eq!(l.get_recent_logs(10), vec![started(100), threat(5, 110), completed(120)]);
    assert_eq!(l.get_recent_logs(2), vec![threat(5, 110), completed(120)]);
    assert_eq!(l.get_recent_logs(0), vec![]);
}

#[test]
fn timestamps_never_go_back() {
    let mut l = Logger::new(&config());
    l.log_event(started(500));
    assert_eq!(l.log_event(threat(5, 400)), threat(5, 500));
    assert_eq!(l.log_event(killed(5, 500, true)), killed(5, 500, true));
    assert_eq!(l.log_event(completed(499)), completed(500));
    assert_eq!(l.log_event(started(501)), started(501));
    let all = l.get_recent_logs(100);
    let stamps: Vec<u64> = all.iter().map(|e| e.get_event_timestamp()).collect();
    assert_eq!(stamps, vec![500, 500, 500, 500, 501]);
}

#[test]
fn timestamps_never_go_back_across_a_clear() {
    let mut l = Logger::new(&config());
    l.log_event(started(900));
    l.clear_logs();
    assert_eq!(l.len(), 0);
    assert_eq!(l.log_event(started(100)), started(900));
}

#[test]
fn ring_keeps_the_last_ten_thousand_events() {
    let mut l = Logger::new(&config());
    for n in 0..10_000u64 {
        l.log_event(started(n));
    }
    assert_eq!(l.len(), 10_000);
    assert_eq!(l.get_recent_logs(u32::MAX)[0], started(0));
    l.log_event(started(10_000));
    assert_eq!(l.len(), 10_000);
    let all = l.get_recent_logs(u32::MAX);
    assert_eq!(all.len(), 10_000);
    assert_eq!(all[0], started(1));
    assert_eq!(all[9_999], started(10_000));
    for n in 0..5u64 {
        l.log_event(started(20_000 + n));
    }
    assert_eq!(l.len(), 10_000);
    assert_eq!(l.get_recent_logs(u32::MAX)[0], started(6));
}

#[test]
fn logs_by_type_come_newest_first() {
    let mut l = Logger::new(&config());
    l.log_event(killed(1, 10, true));
    l.log_event(started(20));
    l.log_event(killed(2, 30, false));
    l.log_event(threat(3, 40));
    l.log_event(killed(3, 50, true));
    assert_eq!(
        l.get_logs_by_type("kill", 10),
        vec![killed(3, 50, true), killed(2, 30, false), killed(1, 10, true)]
    );
    assert_eq!(
        l.get_logs_by_type("PROCESS_KILLED", 2),
        vec![killed(3, 50, true), killed(2, 30, false)]
    );
    assert_eq!(l.get_logs_by_type("threat", 10), vec![threat(3, 40)]);
    assert_eq!(l.get_logs_by_type("scan_end", 10), vec![]);
    assert_eq!(l.get_logs_by_type("kill", 0), vec![]);
    assert_eq!(l.get_logs_by_type("no such kind", 10), vec![]);
    assert_eq!(l.logs_of_kind(EventKind::ScanStarted, 5), vec![started(20)]);
}

#[test]
fn kind_names() {
    assert_eq!(parse_kind("process_killed"), Some(EventKind::ProcessKilled));
    assert_eq!(parse_kind("Kill"), Some(EventKind::ProcessKilled));
    assert_eq!(parse_kind("threat_detected"), Some(EventKind::ThreatDetected));
    assert_eq!(parse_kind("threat"), Some(EventKind::ThreatDetected));
    assert_eq!(parse_kind("scan_started"), Some(EventKind::ScanStarted));
    assert_eq!(parse_kind("scan_start"), Some(EventKind::ScanStarted));
    assert_eq!(parse_kind("scan_completed"), Some(EventKind::ScanCompleted));
    assert_eq!(parse_kind("scan_end"), Some(EventKind::ScanCompleted));
    assert_eq!(parse_kind("configuration_changed"), Some(EventKind::ConfigurationChanged));
    assert_eq!(parse_kind("CONFIG"), Some(EventKind::ConfigurationChanged));
    assert_eq!(parse_kind("system_event"), Some(EventKind::SystemEvent));
    assert_eq!(parse_kind("system"), Some(EventKind::SystemEvent));
    assert_eq!(parse_kind("application_started"), Some(EventKind::ApplicationStarted));
    assert_eq!(parse_kind("start"), Some(EventKind::ApplicationStarted));
    assert_eq!(parse_kind("application_stopped"), Some(EventKind::ApplicationStopped));
    assert_eq!(parse_kind("stop"), Some(EventKind::ApplicationStopped));
    assert_eq!(parse_kind("stopped"), None);
    assert_eq!(parse_kind(""), None);
}

#[test]
fn logs_by_timerange_include_both_ends() {
    let mut l = Logger::new(&config());
    l.log_event(started(10));
    l.log_event(threat(1, 20));
    l.log_event(killed(1, 30, true));
    l.log_event(completed(40));
    assert_eq!(l.get_logs_by_timerange(20, 30), vec![threat(1, 20), killed(1, 30, true)]);
    assert_eq!(l.get_logs_by_timerange(0, 10), vec![started(10)]);
    assert_eq!(l.get_logs_by_timerange(41, 100), vec![]);
    assert_eq!(l.get_logs_by_timerange(30, 20), vec![]);
    assert_eq!(l.get_logs_by_timerange(0, u64::MAX).len(), 4);
}

#[test]
fn stats_count_the_events_in_memory() {
    let mut l = Logger::new(&config());
    l.log_event(started(1));
    l.log_event(threat(1, 2));
    l.log_event(threat(2, 2));
    l.log_event(killed(1, 3, true));
    l.log_event(killed(2, 3, false));
    l.log_event(killed(3, 3, true));
    l.log_event(completed(4));
    l.log_event(LogEvent::ConfigurationChanged {
        timestamp: 5,
        changed_by: "admin".to_string(),
        changes: "policy reloaded".to_string(),
    });
    assert_eq!(
        l.get_log_stats(),
        LogStats {
            processes_killed: 3,
            successful_kills: 2,
            threats_detected: 2,
            scans_performed: 1,
            config_changes: 1
        }
    );
    l.clear_logs();
    assert_eq!(l.get_log_stats(), LogStats::default());
}

#[test]
fn event_accessors() {
    let e = killed(9, 77, true);
    assert_eq!(e.get_event_timestamp(), 77);
    assert_eq!(e.event_kind(), EventKind::ProcessKilled);
    assert_eq!(e.clone(), e);
    assert_eq!(e.with_timestamp(80), killed(9, 80, true));
    assert_eq!(completed(5).with_timestamp(6), completed(6));
    assert_eq!(completed(5).event_kind(), EventKind::ScanCompleted);
}

#[test]
fn export_writes_one_line_for_each_event() {
    let mut l = Logger::new(&config());
    l.log_event(started(1_431_648_000_000));
    l.log_event(killed(4212, 1_431_648_001_000, true));
    assert_eq!(l.export_logs(LogFormat::Json), None);
    assert_eq!(
        l.export_logs(LogFormat::Compact),
        Some(vec!["00:00:00 SCAN_START single".to_string(), "00:00:01 KILL 4212 OK".to_string()])
    );
    assert_eq!(
        l.export_logs(LogFormat::Text),
        Some(vec![
            "[2015-05-15 00:00:00 UTC] SCAN_STARTED - Type: single".to_string(),
            "[2015-05-15 00:00:01 UTC] PROCESS_KILLED - PID: 4212, Process: evil.exe, Success: true, Reason: terminated".to_string(),
        ])
    );
}
