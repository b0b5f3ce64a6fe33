use edr_kill_switch::config::KillPolicy;
use edr_kill_switch::killer::{KillError, KillState, NextStep, ProcessKiller, TerminateMode};

fn policy() -> KillPolicy {
    KillPolicy { graceful_kill: true, force_kill_timeout_ms: 5000, cooldown_ms: 1000, max_retry_attempts: 3 }
}

#[test]
fn new_governor_has_no_records() {
    let k = ProcessKiller::new(policy(), 1);
    assert_eq!(k.record_count(), 0);
    assert_eq!(k.state_of(5), None);
    assert!(!k.is_restart_blocked("/bin/x", 0));
}

#[test]
fn kill_is_admitted_in_the_first_mode_of_the_policy() {
    let mut k = ProcessKiller::new(policy(), 1);
    assert_eq!(k.kill_process(42, 10_000), Ok(TerminateMode::Graceful));
    assert_eq!(
        k.state_of(42),
        Some(KillState { last_attempt_at: 10_000, attempts: 0, terminal: false })
    );
    let mut forceful = ProcessKiller::new(KillPolicy { graceful_kill: false, ..policy() }, 1);
    assert_eq!(forceful.kill_process(42, 10_000), Ok(TerminateMode::Forceful));
}

#[test]
fn the_agent_itself_is_refused() {
    let mut k = ProcessKiller::new(policy(), 77);
    assert_eq!(k.kill_process(77, 10_000), Err(KillError::SelfProtected));
    assert_eq!(k.record_count(), 0);
}

#[test]
fn kill_within_the_cooldown_is_refused() {
    let mut k = ProcessKiller::new(policy(), 1);
    assert_eq!(k.kill_process(42, 10_000), Ok(TerminateMode::Graceful));
    assert_eq!(k.kill_process(42, 10_200), Err(KillError::InCooldown));
    assert_eq!(k.kill_process(42, 10_999), Err(KillError::InCooldown));
    assert_eq!(k.kill_process(42, 9_000), Err(KillError::InCooldown));
    assert_eq!(k.kill_process(42, 11_000), Ok(TerminateMode::Graceful));
    assert_eq!(k.kill_process(43, 11_000), Ok(TerminateMode::Graceful));
}

#[test]
fn cooldown_counts_from_the_recorded_outcome() {
    let mut k = ProcessKiller::new(policy(), 1);
    assert_eq!(k.kill_process(42, 10_000), Ok(TerminateMode::Graceful));
    k.record_success(42, &None, 10_500);
    assert_eq!(
        k.state_of(42),
        Some(KillState { last_attempt_at: 10_500, attempts: 0, terminal: true })
    );
    assert_eq!(k.kill_process(42, 11_400), Err(KillError::InCooldown));
    assert_eq!(k.kill_process(42, 11_500), Ok(TerminateMode::Graceful));
}

#[test]
fn retries_are_bounded_by_the_budget() {
    let mut k = ProcessKiller::new(policy(), 1);
    let mut now = 10_000;
    for n in 1..=3u32 {
        assert_eq!(k.kill_process(42, now), Ok(TerminateMode::Graceful));
        assert_eq!(k.record_failure(42, KillError::AccessDenied, now + 10), KillError::AccessDenied);
        assert_eq!(
            k.state_of(42),
            Some(KillState { last_attempt_at: now + 10, attempts: n, terminal: n == 3 })
        );
        now += 2_000;
    }
    assert_eq!(k.kill_process(42, now), Err(KillError::MaxRetriesReached));
    assert_eq!(k.kill_process(42, now + 100_000), Err(KillError::MaxRetriesReached));
    assert_eq!(k.state_of(42).unwrap().attempts, 3);
    k.record_failure(42, KillError::NotFound, now);
    assert_eq!(k.state_of(42).unwrap().attempts, 3);
}

#[test]
fn a_budget_of_zero_admits_nothing() {
    let mut k = ProcessKiller::new(KillPolicy { max_retry_attempts: 0, ..policy() }, 1);
    assert_eq!(k.kill_process(42, 10_000), Err(KillError::MaxRetriesReached));
}

#[test]
fn failure_hands_the_error_back() {
    let mut k = ProcessKiller::new(policy(), 1);
    k.kill_process(42, 10_000).unwrap();
    let e = k.record_failure(42, KillError::SystemError("EPERM".to_string()), 10_001);
    assert_eq!(e, KillError::SystemError("EPERM".to_string()));
}

#[test]
fn graceful_success_waits_for_the_exit() {
    let k = ProcessKiller::new(policy(), 1);
    assert_eq!(k.after_graceful(&Ok(()), 10_000), NextStep::AwaitExit { until: 15_000 });
    assert_eq!(
        k.after_graceful(&Ok(()), u64::MAX - 10),
        NextStep::AwaitExit { until: u64::MAX }
    );
}

#[test]
fn graceful_failure_goes_on_to_force_at_once() {
    let k = ProcessKiller::new(policy(), 1);
    assert_eq!(k.after_graceful(&Err(KillError::NotImplemented), 10_000), NextStep::ForceKill);
    assert_eq!(
        k.after_graceful(&Err(KillError::SystemError("x".to_string())), 10_000),
        NextStep::ForceKill
    );
}

#[test]
fn a_kill_blocks_restarts_for_five_seconds() {
    let mut k = ProcessKiller::new(policy(), 1);
    k.kill_process(42, 10_000).unwrap();
    k.record_success(42, &Some("/opt/evil".to_string()), 10_100);
    assert!(k.is_restart_blocked("/opt/evil", 10_100));
    assert!(k.is_restart_blocked("/opt/evil", 15_099));
    assert!(!k.is_restart_blocked("/opt/evil", 15_100));
    assert!(!k.is_restart_blocked("/opt/other", 10_200));
    assert!(!k.is_restart_blocked("/opt/EVIL", 10_200));
}

#[test]
fn cleanup_drops_records_of_five_minutes_ago() {
    let mut k = ProcessKiller::new(policy(), 1);
    k.kill_process(1001, 10_000).unwrap();
    k.kill_process(1002, 200_000).unwrap();
    k.record_success(1002, &Some("/opt/evil".to_string()), 200_000);
    k.cleanup_old_entries(309_999);
    assert_eq!(k.record_count(), 2);
    k.cleanup_old_entries(310_000);
    assert_eq!(k.record_count(), 1);
    assert_eq!(k.state_of(1001), None);
    assert!(k.state_of(1002).is_some());
    assert!(!k.is_restart_blocked("/opt/evil", 310_000));
    k.cleanup_old_entries(5);
    assert_eq!(k.record_count(), 1);
    k.cleanup_old_entries(500_000);
    assert_eq!(k.record_count(), 0);
}

#[test]
fn cleanup_keeps_restart_blocks_that_still_hold() {
    let mut k = ProcessKiller::new(policy(), 1);
    k.record_success(7, &Some("/a".to_string()), 1_000);
    k.record_success(8, &Some("/b".to_string()), 4_000);
    k.cleanup_old_entries(6_500);
    assert!(!k.is_restart_blocked("/a", 6_500));
    assert!(k.is_restart_blocked("/b", 6_500));
    assert!(k.is_restart_blocked("/b", 8_999));
    assert!(!k.is_restart_blocked("/b", 9_000));
}

#[test]
fn records_of_processes_that_are_gone_are_forgotten() {
    let mut k = ProcessKiller::new(policy(), 1);
    k.kill_process(10, 1_000).unwrap();
    k.kill_process(11, 1_000).unwrap();
    k.kill_process(12, 1_000).unwrap();
    k.forget_missing(&vec![11, 99]);
    assert_eq!(k.record_count(), 1);
    assert_eq!(k.state_of(11), Some(KillState { last_attempt_at: 1_000, attempts: 0, terminal: false }));
    assert_eq!(k.kill_process(10, 1_001), Ok(TerminateMode::Graceful));
}

#[test]
fn error_messages() {
    assert_eq!(KillError::InCooldown.message(), "Process is in cooldown period");
    assert_eq!(KillError::MaxRetriesReached.message(), "Maximum retry attempts reached");
    assert_eq!(KillError::InvalidHandle.message(), "Invalid process handle");
    assert_eq!(KillError::SystemError("boom".to_string()).message(), "System error: boom");
    assert_eq!(KillError::NotImplemented.message(), "Feature not implemented");
    assert_eq!(KillError::AccessDenied.message(), "Access denied (requires admin privileges)");
    assert_eq!(KillError::NotFound.message(), "Process not found");
    assert_eq!(KillError::SelfProtected.message(), "Refusing to terminate the agent itself");
    assert_eq!(KillError::SystemError("x".to_string()).clone(), KillError::SystemError("x".to_string()));
}
