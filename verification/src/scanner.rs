//! The scan driver: one tick over a snapshot of the processes, record by record.
//!
//! The driver classifies and decides; the caller takes the snapshot, terminates the
//! processes it is told to, and reports what came of it.

use vstd::prelude::*;
use vstd::string::*;

use crate::config::{builtin_allow_rules, clone_rules, Config, Platform, Rule};
use crate::config::KillPolicy;
use crate::killer::{
    admitted, clamped_sum, failed, first_mode, refusal, succeeded, KillError, KillState, NextStep,
    ProcessKiller, TerminateMode,
};
use crate::logger::{none_about, ring_after, stamp_after, EventModel, LogEvent, Logger};
use crate::policy::{bad_ids, texts, PolicyEngine, Verdict, VerdictModel};
use crate::process::{find_by_pid, is_first_of, is_tree_of, ProcessInfo, ProcessTree};

verus! {

/// Whether the periodic scan runs.
#[derive(Debug, Clone, Copy, PartialEq, Eq, Structural)]
pub enum DaemonState {
    Stopped,
    Running,
    /// Stopped by an emergency stop: it does not start again until it is re-armed.
    EmergencyStopped,
}

/// What the caller does next in a tick.
#[derive(Debug, Clone, Copy, PartialEq, Eq, Structural)]
pub enum ScanStep {
    /// Terminate process `pid` in mode `mode` and report the outcome.
    Terminate { pid: u32, mode: TerminateMode },
    /// Watch for the exit of process `pid` until `until` and report whether it exited.
    AwaitExit { pid: u32, until: u64 },
    /// The tick is over.
    Completed,
}

/// What is done about a process that a deny rule matched.
#[derive(Debug, PartialEq, Eq)]
pub enum ThreatAction {
    /// A dry run: the threat is logged and no kill is asked for.
    LogOnly,
    /// The agent lacks the privilege to kill.
    Restricted,
    /// The governor refused the kill.
    Throttled(KillError),
    /// The process is to be terminated, in this mode first.
    Kill(TerminateMode),
}

/// Counts over the life of the driver.
#[derive(Debug, Clone, Copy, PartialEq, Eq, Structural)]
pub struct ScanTotals {
    pub scan_count: u64,
    pub detected_threats: u64,
    pub killed_processes: u64,
}

/// The termination that the caller is to report on next.
#[derive(Debug, Clone, Copy, PartialEq, Eq, Structural)]
pub struct Awaited {
    /// The place of the process in the snapshot.
    pub index: usize,
    pub mode: TerminateMode,
    /// Whether the process was asked to close and its exit is watched for.
    pub awaiting_exit: bool,
    /// Until when the exit is watched for.
    pub until: u64,
}

/// What stays as it is while a tick goes over its records.
pub struct TickContext {
    pub current_pid: u32,
    pub elevated: bool,
    pub dry_run: bool,
    pub tick_started: u64,
    pub policy: KillPolicy,
    pub snapshot: Seq<ProcessInfo>,
}

/// What a tick changes: its own progress, the log, the governor's records, the counts.
pub struct TickModel {
    pub in_tick: bool,
    /// Whether a stop was asked for while the tick was under way.
    pub cancel: bool,
    pub cursor: int,
    pub pending: Option<Awaited>,
    pub events: Seq<EventModel>,
    pub last_timestamp: u64,
    pub states: Map<u32, KillState>,
    pub threats: u32,
    pub killed: u32,
    pub totals: ScanTotals,
}

/// One more, short of overflow.
pub open spec fn inc32(n: u32) -> u32 {
    if n < u32::MAX {
        (n + 1) as u32
    } else {
        n
    }
}

/// One more, short of overflow.
pub open spec fn inc64(n: u64) -> u64 {
    if n < u64::MAX {
        (n + 1) as u64
    } else {
        n
    }
}

/// The state after an event was logged.
pub open spec fn logged(m: TickModel, e: EventModel) -> TickModel {
    TickModel {
        events: ring_after(m.events, m.last_timestamp, e),
        last_timestamp: stamp_after(m.last_timestamp, e.timestamp()),
        ..m
    }
}

/// The event that reports a threat.
pub open spec fn threat_model(p: ProcessInfo, rule: Seq<char>, action: ThreatAction, now: u64) -> EventModel {
    EventModel::ThreatDetected {
        pid: p.pid,
        process_name: p.name@,
        rule,
        timestamp: now,
        action_taken: action_text(action),
    }
}

/// The event that reports the outcome of a kill.
pub open spec fn kill_model(p: ProcessInfo, success: bool, reason: Seq<char>, now: u64) -> EventModel {
    EventModel::ProcessKilled { pid: p.pid, process_name: p.name@, timestamp: now, success, reason }
}

/// An event about the agent itself.
pub open spec fn system_model(
    event_type: Seq<char>,
    message: Seq<char>,
    severity: Seq<char>,
    now: u64,
) -> EventModel {
    EventModel::SystemEvent { timestamp: now, event_type, message, severity }
}

/// The state after a warning was logged for each of the rules named, whose patterns do
/// not compile.
pub open spec fn warned(m: TickModel, ids: Seq<Seq<char>>, now: u64) -> TickModel
    decreases ids.len(),
{
    if ids.len() == 0 {
        m
    } else {
        logged(
            warned(m, ids.drop_last(), now),
            system_model("invalid_pattern"@, ids.last(), "warn"@, now),
        )
    }
}

/// The identifiers of the enabled rules of a configuration whose pattern does not
/// compile, those of the allow list first.
pub open spec fn bad_rules(allow: Seq<Rule>, deny: Seq<Rule>) -> Seq<Seq<char>> {
    bad_ids(allow) + bad_ids(deny)
}

/// The state of a driver that was just made.
pub open spec fn initial_model() -> TickModel {
    TickModel {
        in_tick: false,
        cancel: false,
        cursor: 0,
        pending: None,
        events: Seq::empty(),
        last_timestamp: 0,
        states: Map::empty(),
        threats: 0,
        killed: 0,
        totals: ScanTotals { scan_count: 0, detected_threats: 0, killed_processes: 0 },
    }
}

/// The state after the record at the cursor was dealt with at `now`, where `found` is
/// what the scan finds of it. A record that is no threat changes nothing but the cursor.
/// A threat is counted and logged with what is done about it. In a dry run, and
/// without the privilege to kill, the governor is not asked and the kill is logged as
/// failed and `restricted`. Else the governor is asked: where it refuses, nothing more
/// happens; where it admits the kill, the admission is on record and the termination
/// is awaited.
pub open spec fn scanned(
    ctx: TickContext,
    found: Option<Seq<char>>,
    m: TickModel,
    now: u64,
) -> TickModel {
    let p = ctx.snapshot[m.cursor];
    let next = TickModel { cursor: m.cursor + 1, ..m };
    match found {
        None => next,
        Some(rule) => {
            let action = action_for(
                ctx.dry_run,
                ctx.elevated,
                refusal(ctx.policy, ctx.current_pid, m.states, p.pid, now),
                first_mode(ctx.policy),
            );
            let counted = TickModel {
                threats: inc32(m.threats),
                totals: ScanTotals { detected_threats: inc64(m.totals.detected_threats), ..m.totals },
                states: if action is Kill {
                    m.states.insert(p.pid, admitted(m.states, p.pid, now))
                } else {
                    m.states
                },
                ..next
            };
            let reported = logged(counted, threat_model(p, rule, action, now));
            match action {
                ThreatAction::Kill(mode) => TickModel {
                    pending: Some(
                        Awaited { index: m.cursor as usize, mode, awaiting_exit: false, until: 0 },
                    ),
                    ..reported
                },
                ThreatAction::Throttled(_) => reported,
                _ => logged(reported, kill_model(p, false, "restricted"@, now)),
            }
        },
    }
}

/// The state after the tick was ended at `now`: the totals are logged, and one more
/// scan is counted.
pub open spec fn completed(ctx: TickContext, m: TickModel, now: u64) -> TickModel {
    let done = logged(
        m,
        EventModel::ScanCompleted {
            timestamp: now,
            processes_scanned: if m.cursor > u32::MAX {
                u32::MAX
            } else {
                m.cursor as u32
            },
            threats_found: m.threats,
            processes_killed: m.killed,
            duration_ms: if now >= ctx.tick_started {
                (now - ctx.tick_started) as u64
            } else {
                0
            },
        },
    );
    TickModel {
        in_tick: false,
        totals: ScanTotals { scan_count: inc64(m.totals.scan_count), ..m.totals },
        ..done
    }
}

/// The state after the tick went on at `now` as far as it can without the caller:
/// record after record, until a termination is awaited or the tick ends, which it does
/// after the last record, or at once where a stop was asked for. `findings` holds, for
/// each record of the snapshot, what the scan finds of it.
pub open spec fn advanced(
    ctx: TickContext,
    findings: Seq<Option<Seq<char>>>,
    m: TickModel,
    now: u64,
) -> TickModel
    decreases ctx.snapshot.len() - m.cursor,
{
    if !m.in_tick || m.pending is Some || m.cursor < 0 {
        m
    } else if m.cursor >= ctx.snapshot.len() || m.cancel {
        completed(ctx, m, now)
    } else {
        let after = scanned(ctx, findings[m.cursor], m, now);
        advanced(ctx, findings, TickModel { cursor: m.cursor + 1, ..after }, now)
    }
}

/// What the caller does next in a state.
pub open spec fn step_of(ctx: TickContext, m: TickModel) -> ScanStep {
    match m.pending {
        Some(k) => if k.awaiting_exit {
            ScanStep::AwaitExit { pid: ctx.snapshot[k.index as int].pid, until: k.until }
        } else {
            ScanStep::Terminate { pid: ctx.snapshot[k.index as int].pid, mode: k.mode }
        },
        None => ScanStep::Completed,
    }
}

/// The state after the kill of the process at `index` was booked as done at `now`.
pub open spec fn booked_success(
    ctx: TickContext,
    m: TickModel,
    index: int,
    reason: Seq<char>,
    now: u64,
) -> TickModel {
    let p = ctx.snapshot[index];
    let booked = TickModel {
        states: m.states.insert(p.pid, succeeded(m.states, p.pid, now)),
        killed: inc32(m.killed),
        totals: ScanTotals { killed_processes: inc64(m.totals.killed_processes), ..m.totals },
        ..m
    };
    logged(booked, kill_model(p, true, reason, now))
}

/// The state after the kill of the process at `index` was booked as failed at `now`.
/// Where the process is gone nothing is logged; a failure of the system is logged as a
/// warning; a denial of access as a failed kill that is `restricted`; any other failure
/// as a failed kill with the message of the error.
pub open spec fn booked_failure(
    ctx: TickContext,
    m: TickModel,
    index: int,
    error: KillError,
    now: u64,
) -> TickModel {
    let p = ctx.snapshot[index];
    let booked = TickModel {
        states: m.states.insert(p.pid, failed(ctx.policy, m.states, p.pid, now)),
        ..m
    };
    match error {
        KillError::NotFound => booked,
        KillError::AccessDenied => logged(booked, kill_model(p, false, "restricted"@, now)),
        KillError::SystemError(detail) => logged(
            booked,
            system_model("kill_failed"@, detail@, "warn"@, now),
        ),
        _ => logged(booked, kill_model(p, false, error.message_text(), now)),
    }
}

/// The state after the caller reported the outcome of a termination at `now`. A report
/// that nothing waits for changes nothing. After a graceful termination that succeeded
/// the exit is watched for, for the force-kill timeout at most; after one that failed
/// the forceful termination is due. The outcome of a forceful termination is booked.
pub open spec fn reported(
    ctx: TickContext,
    m: TickModel,
    outcome: Result<(), KillError>,
    now: u64,
) -> TickModel {
    match m.pending {
        Some(k) if !k.awaiting_exit => match k.mode {
            TerminateMode::Graceful => match outcome {
                Ok(_) => TickModel {
                    pending: Some(
                        Awaited {
                            awaiting_exit: true,
                            until: clamped_sum(now, ctx.policy.force_kill_timeout_ms),
                            ..k
                        },
                    ),
                    ..m
                },
                Err(_) => TickModel {
                    pending: Some(
                        Awaited {
                            index: k.index,
                            mode: TerminateMode::Forceful,
                            awaiting_exit: false,
                            until: 0,
                        },
                    ),
                    ..m
                },
            },
            TerminateMode::Forceful => match outcome {
                Ok(_) => booked_success(
                    ctx,
                    TickModel { pending: None, ..m },
                    k.index as int,
                    "terminated"@,
                    now,
                ),
                Err(error) => booked_failure(
                    ctx,
                    TickModel { pending: None, ..m },
                    k.index as int,
                    error,
                    now,
                ),
            },
        },
        _ => m,
    }
}

/// The state after the caller reported at `now` whether the process that was asked to
/// close has exited. A report that nothing waits for changes nothing. An exit is booked
/// as a kill; without it the forceful termination is due.
pub open spec fn polled(ctx: TickContext, m: TickModel, exited: bool, now: u64) -> TickModel {
    match m.pending {
        Some(k) if k.awaiting_exit => if exited {
            booked_success(ctx, TickModel { pending: None, ..m }, k.index as int, "exited"@, now)
        } else {
            TickModel {
                pending: Some(
                    Awaited {
                        index: k.index,
                        mode: TerminateMode::Forceful,
                        awaiting_exit: false,
                        until: 0,
                    },
                ),
                ..m
            }
        },
        _ => m,
    }
}

/// The rule identifier under which a restart within the block is reported.
pub open spec fn restart_block_id() -> Seq<char> {
    "restart_block"@
}

/// What a scan finds of a process: the identifier of the rule that makes it a threat,
/// or `None`. The agent itself is never a threat; an allow verdict ends the matter;
/// a restart within the block counts as a deny under the identifier `restart_block`;
/// else a deny verdict names its rule.
pub open spec fn finding_for(
    current_pid: u32,
    pid: u32,
    verdict: VerdictModel,
    restart_blocked: bool,
) -> Option<Seq<char>> {
    if pid == current_pid {
        None
    } else {
        match verdict {
            VerdictModel::Allow(_) => None,
            VerdictModel::Deny(id) => Some(
                if restart_blocked {
                    restart_block_id()
                } else {
                    id
                },
            ),
            VerdictModel::Unmatched => if restart_blocked {
                Some(restart_block_id())
            } else {
                None
            },
        }
    }
}

/// What is done about a threat: no kill in a dry run, none without the privilege to
/// kill, else what the governor says.
pub open spec fn action_for(
    dry_run: bool,
    elevated: bool,
    refused: Option<KillError>,
    first: TerminateMode,
) -> ThreatAction {
    if dry_run {
        ThreatAction::LogOnly
    } else if !elevated {
        ThreatAction::Restricted
    } else {
        match refused {
            Some(error) => ThreatAction::Throttled(error),
            None => ThreatAction::Kill(first),
        }
    }
}

/// What the threat event says was done.
pub open spec fn action_text(action: ThreatAction) -> Seq<char> {
    match action {
        ThreatAction::LogOnly => "none (dry run)"@,
        ThreatAction::Restricted => "restricted"@,
        ThreatAction::Throttled(_) => "throttled"@,
        ThreatAction::Kill(_) => "kill"@,
    }
}

/// Whether a process was started from an executable under a restart block at `now`.
pub open spec fn is_blocked(killer: ProcessKiller, p: ProcessInfo, now: u64) -> bool {
    p.path matches Some(path) && killer.restart_blocked(path@, now)
}

/// Classifies one process of a snapshot.
pub fn classify(
    engine: &mut PolicyEngine,
    killer: &ProcessKiller,
    current_pid: u32,
    process: &ProcessInfo,
    now: u64,
) -> (found: Option<String>)
    requires
        old(engine).wf(),
    ensures
        final(engine).wf(),
        final(engine).builtin() == old(engine).builtin(),
        final(engine).allow() == old(engine).allow(),
        final(engine).deny() == old(engine).deny(),
        match finding_for(
            current_pid,
            process.pid,
            old(engine).verdict(*process),
            is_blocked(*killer, *process, now),
        ) {
            Some(id) => found matches Some(f) && f@ == id,
            None => found is None,
        },
{
    if process.pid == current_pid {
        return None;
    }
    let verdict = engine.evaluate(process);
    let blocked = match &process.path {
        Some(path) => killer.is_restart_blocked(path.as_str(), now),
        None => false,
    };
    match verdict {
        Verdict::Allow(_) => None,
        Verdict::Deny(id) => if blocked {
            Some(String::from_str("restart_block"))
        } else {
            Some(id)
        },
        Verdict::Unmatched => if blocked {
            Some(String::from_str("restart_block"))
        } else {
            None
        },
    }
}

/// Decides what is done about a threat, and asks the governor where a kill is due.
pub fn plan_action(killer: &mut ProcessKiller, dry_run: bool, elevated: bool, pid: u32, now: u64) -> (action:
    ThreatAction)
    requires
        old(killer).wf(),
    ensures
        final(killer).wf(),
        final(killer).policy() == old(killer).policy(),
        final(killer).current_pid() == old(killer).current_pid(),
        action == action_for(
            dry_run,
            elevated,
            refusal(old(killer).policy(), old(killer).current_pid(), old(killer).states(), pid, now),
            first_mode(old(killer).policy()),
        ),
        dry_run || !elevated ==> *final(killer) == *old(killer),
        action is Kill ==> pid != old(killer).current_pid(),
        final(killer).states() == if action is Kill {
            old(killer).states().insert(pid, admitted(old(killer).states(), pid, now))
        } else {
            old(killer).states()
        },
        forall|path: Seq<char>, at: u64|
            final(killer).restart_blocked(path, at) == old(killer).restart_blocked(path, at),
{
    if dry_run {
        ThreatAction::LogOnly
    } else if !elevated {
        ThreatAction::Restricted
    } else {
        match killer.kill_process(pid, now) {
            Ok(mode) => ThreatAction::Kill(mode),
            Err(error) => ThreatAction::Throttled(error),
        }
    }
}

/// The event that reports a threat.
pub fn threat_event(process: &ProcessInfo, rule: String, action: &ThreatAction, now: u64) -> (e:
    LogEvent)
    ensures
        e@ == threat_model(*process, rule@, *action, now),
        e.subject() == Some(process.pid),
        e.timestamp() == now,
{
    let action_taken = match action {
        ThreatAction::LogOnly => String::from_str("none (dry run)"),
        ThreatAction::Restricted => String::from_str("restricted"),
        ThreatAction::Throttled(_) => String::from_str("throttled"),
        ThreatAction::Kill(_) => String::from_str("kill"),
    };
    LogEvent::ThreatDetected {
        pid: process.pid,
        process_name: process.name.clone(),
        rule,
        timestamp: now,
        action_taken,
    }
}

/// The event that reports the outcome of a kill.
pub fn kill_event(process: &ProcessInfo, success: bool, reason: &str, now: u64) -> (e: LogEvent)
    ensures
        e@ == kill_model(*process, success, reason@, now),
        e.subject() == Some(process.pid),
        e.timestamp() == now,
{
    LogEvent::ProcessKilled {
        pid: process.pid,
        process_name: process.name.clone(),
        timestamp: now,
        success,
        reason: String::from_str(reason),
    }
}

/// An event about the agent itself.
pub fn system_event(event_type: &str, message: &str, severity: &str, now: u64) -> (e: LogEvent)
    ensures
        e@ == system_model(event_type@, message@, severity@, now),
        e.subject() is None,
        e.timestamp() == now,
{
    LogEvent::SystemEvent {
        timestamp: now,
        event_type: String::from_str(event_type),
        message: String::from_str(message),
        severity: String::from_str(severity),
    }
}

fn bump(n: u32) -> (r: u32)
    ensures
        r == inc32(n),
{
    if n < u32::MAX {
        n + 1
    } else {
        n
    }
}

fn bump_total(n: u64) -> (r: u64)
    ensures
        r == inc64(n),
{
    if n < u64::MAX {
        n + 1
    } else {
        n
    }
}

/// The path of the executable of a process, as text.
pub open spec fn path_of(p: ProcessInfo) -> Option<Seq<char>> {
    match p.path {
        Some(path) => Some(path@),
        None => None,
    }
}

/// The executable whose process a report of a termination books as killed.
pub open spec fn path_killed_by_report(
    ctx: TickContext,
    m: TickModel,
    outcome: Result<(), KillError>,
) -> Option<Seq<char>> {
    match m.pending {
        Some(k) if !k.awaiting_exit && k.mode == TerminateMode::Forceful && outcome is Ok => path_of(
            ctx.snapshot[k.index as int],
        ),
        _ => None,
    }
}

/// The executable whose process the news of an exit books as killed.
pub open spec fn path_killed_by_poll(ctx: TickContext, m: TickModel, exited: bool) -> Option<
    Seq<char>,
> {
    match m.pending {
        Some(k) if k.awaiting_exit && exited => path_of(ctx.snapshot[k.index as int]),
        _ => None,
    }
}

/// Whether a process started from `q` is killed on sight at `at`, once a kill of a
/// process started from `killed` was booked at `now`: it was so before, or `q` is that
/// executable and `at` lies within five seconds of the kill.
pub open spec fn blocked_with(
    killer: ProcessKiller,
    killed: Option<Seq<char>>,
    now: u64,
    q: Seq<char>,
    at: u64,
) -> bool {
    killer.restart_blocked(q, at) || (killed == Some(q) && at < clamped_sum(
        now,
        crate::killer::RESTART_BLOCK_MS,
    ))
}

/// A dry run kills nothing: however far the tick goes on, no termination is awaited
/// and the records of the governor stay as they are.
pub proof fn law_dry_run_kills_nothing(
    ctx: TickContext,
    findings: Seq<Option<Seq<char>>>,
    m: TickModel,
    now: u64,
)
    requires
        ctx.dry_run,
        m.pending is None,
    ensures
        advanced(ctx, findings, m, now).pending is None,
        advanced(ctx, findings, m, now).states == m.states,
        advanced(ctx, findings, m, now).killed == m.killed,
    decreases ctx.snapshot.len() - m.cursor,
{
    if m.in_tick && m.cursor >= 0 && m.cursor < ctx.snapshot.len() && !m.cancel {
        let after = scanned(ctx, findings[m.cursor], m, now);
        law_dry_run_kills_nothing(
            ctx,
            findings,
            TickModel { cursor: m.cursor + 1, ..after },
            now,
        );
    }
}

/// The scan spares the agent: where the scan finds nothing of the agent's own process,
/// as it never does, going on with the tick leaves the log without an event about that
/// process and never awaits its termination.
pub proof fn law_scan_spares_the_agent(
    ctx: TickContext,
    findings: Seq<Option<Seq<char>>>,
    m: TickModel,
    now: u64,
)
    requires
        findings.len() == ctx.snapshot.len() <= usize::MAX,
        forall|i: int|
            0 <= i < ctx.snapshot.len() && (#[trigger] ctx.snapshot[i]).pid == ctx.current_pid
                ==> findings[i] is None,
        silent_about(m.events, ctx.current_pid),
        m.pending matches Some(k) ==> k.index < ctx.snapshot.len() && ctx.snapshot[k.index as int].pid
            != ctx.current_pid,
    ensures
        silent_about(advanced(ctx, findings, m, now).events, ctx.current_pid),
        step_of(ctx, advanced(ctx, findings, m, now)) matches ScanStep::Terminate { pid, .. }
            ==> pid != ctx.current_pid,
    decreases ctx.snapshot.len() - m.cursor,
{
    if !m.in_tick || m.pending is Some || m.cursor < 0 {
    } else if m.cursor >= ctx.snapshot.len() || m.cancel {
        let e = EventModel::ScanCompleted {
            timestamp: now,
            processes_scanned: if m.cursor > u32::MAX {
                u32::MAX
            } else {
                m.cursor as u32
            },
            threats_found: m.threats,
            processes_killed: m.killed,
            duration_ms: if now >= ctx.tick_started {
                (now - ctx.tick_started) as u64
            } else {
                0
            },
        };
        lemma_logged_silent(m, e, ctx.current_pid);
    } else {
        let p = ctx.snapshot[m.cursor];
        let after = scanned(ctx, findings[m.cursor], m, now);
        match findings[m.cursor] {
            None => {},
            Some(rule) => {
                let action = action_for(
                    ctx.dry_run,
                    ctx.elevated,
                    refusal(ctx.policy, ctx.current_pid, m.states, p.pid, now),
                    first_mode(ctx.policy),
                );
                let counted = TickModel {
                    threats: inc32(m.threats),
                    totals: ScanTotals {
                        detected_threats: inc64(m.totals.detected_threats),
                        ..m.totals
                    },
                    states: if action is Kill {
                        m.states.insert(p.pid, admitted(m.states, p.pid, now))
                    } else {
                        m.states
                    },
                    cursor: m.cursor + 1,
                    ..m
                };
                lemma_logged_silent(counted, threat_model(p, rule, action, now), ctx.current_pid);
                let told = logged(counted, threat_model(p, rule, action, now));
                lemma_logged_silent(told, kill_model(p, false, "restricted"@, now), ctx.current_pid);
                assert(p.pid != ctx.current_pid);
                assert(after.pending matches Some(k) ==> k.index == m.cursor);
            },
        }
        law_scan_spares_the_agent(ctx, findings, TickModel { cursor: m.cursor + 1, ..after }, now);
    }
}

/// The process that an event is about, for the two kinds that are about one.
pub open spec fn subject_of(e: EventModel) -> Option<u32> {
    match e {
        EventModel::ProcessKilled { pid, .. } => Some(pid),
        EventModel::ThreatDetected { pid, .. } => Some(pid),
        _ => None,
    }
}

/// Whether no event of the sequence is about process `pid`.
pub open spec fn silent_about(events: Seq<EventModel>, pid: u32) -> bool {
    forall|i: int| 0 <= i < events.len() ==> subject_of(#[trigger] events[i]) != Some(pid)
}

proof fn lemma_logged_silent(m: TickModel, e: EventModel, pid: u32)
    requires
        silent_about(m.events, pid),
        subject_of(e) != Some(pid),
    ensures
        silent_about(logged(m, e).events, pid),
{
    let stamped = e.at(stamp_after(m.last_timestamp, e.timestamp()));
    let all = m.events.push(stamped);
    let now = logged(m, e).events;
    assert forall|i: int| 0 <= i < now.len() implies subject_of(#[trigger] now[i]) != Some(pid) by {
        let k = if all.len() <= crate::logger::MAX_MEMORY_LOGS {
            i
        } else {
            i + all.len() - crate::logger::MAX_MEMORY_LOGS
        };
        assert(now[i] == all[k]);
        if k < m.events.len() {
            assert(all[k] == m.events[k]);
        }
    }
}

/// The scan driver, with the policy engine, the kill governor and the audit log that it
/// works with.
pub struct ProcessScanner {
    engine: PolicyEngine,
    killer: ProcessKiller,
    logger: Logger,
    builtin: Vec<Rule>,
    current_pid: u32,
    elevated: bool,
    daemon: DaemonState,
    snapshot: Vec<ProcessInfo>,
    cursor: usize,
    in_tick: bool,
    dry_run: bool,
    cancel: bool,
    pending: Option<Awaited>,
    tick_started: u64,
    threats: u32,
    killed: u32,
    totals: ScanTotals,
}

impl ProcessScanner {
    /// The agent's own process identifier.
    pub open spec fn current_pid(self) -> u32 {
        self.context().current_pid
    }

    /// Whether the agent has the privilege to kill.
    pub open spec fn elevated(self) -> bool {
        self.context().elevated
    }

    pub closed spec fn engine(self) -> PolicyEngine {
        self.engine
    }

    pub closed spec fn killer(self) -> ProcessKiller {
        self.killer
    }

    pub closed spec fn logger(self) -> Logger {
        self.logger
    }

    /// The events of the audit log that are in memory.
    pub open spec fn events(self) -> Seq<LogEvent> {
        self.logger().events()
    }

    pub closed spec fn daemon(self) -> DaemonState {
        self.daemon
    }

    /// Whether a tick is under way.
    pub open spec fn in_tick(self) -> bool {
        self.model().in_tick
    }

    /// What stays as it is while the tick goes over its records.
    pub closed spec fn context(self) -> TickContext {
        TickContext {
            current_pid: self.current_pid,
            elevated: self.elevated,
            dry_run: self.dry_run,
            tick_started: self.tick_started,
            policy: self.killer.policy(),
            snapshot: self.snapshot@,
        }
    }

    /// What a tick changes.
    pub closed spec fn model(self) -> TickModel {
        TickModel {
            in_tick: self.in_tick,
            cancel: self.cancel,
            cursor: self.cursor as int,
            pending: self.pending,
            events: self.logger.model(),
            last_timestamp: self.logger.last_timestamp(),
            states: self.killer.states(),
            threats: self.threats,
            killed: self.killed,
            totals: self.totals,
        }
    }

    /// The state is that of the parts: the events are those of the log, the records
    /// those of the governor, and the settings those the driver was made with.
    pub proof fn lemma_model(self)
        ensures
            self.model().events == self.logger().model(),
            self.model().last_timestamp == self.logger().last_timestamp(),
            self.model().states == self.killer().states(),
            self.context().policy == self.killer().policy(),
    {
    }

    /// The process whose termination the caller is to report next.
    pub open spec fn pending_pid(self) -> Option<u32> {
        match self.model().pending {
            Some(k) => Some(self.context().snapshot[k.index as int].pid),
            None => None,
        }
    }

    /// The parts are well formed, the governor protects this agent, the built-in allow
    /// rules are in force, the process waited for is one of the snapshot and not the
    /// agent, and no event in memory is about the agent's own process.
    pub closed spec fn wf(self) -> bool {
        &&& self.engine.wf()
        &&& self.killer.wf()
        &&& self.logger.wf()
        &&& self.killer.current_pid() == self.current_pid
        &&& self.engine.builtin() == self.builtin@
        &&& none_about(self.logger.events(), self.current_pid)
        &&& self.cursor <= self.snapshot@.len()
        &&& self.pending matches Some(k) ==> {
            &&& self.in_tick
            &&& !self.dry_run
            &&& self.elevated
            &&& k.index < self.cursor
            &&& self.snapshot@[k.index as int].pid != self.current_pid
        }
    }

    /// Self-immunity: in every state of the driver no event in memory reports a threat
    /// from, or a kill of, the agent's own process, and the process whose termination
    /// is awaited is never the agent.
    pub proof fn law_self_immunity(self)
        requires
            self.wf(),
        ensures
            none_about(self.events(), self.current_pid()),
            self.pending_pid() != Some(self.current_pid()),
    {
    }

    /// What a scan at `now` finds of a process.
    pub open spec fn finding(self, p: ProcessInfo, now: u64) -> Option<Seq<char>> {
        finding_for(
            self.current_pid(),
            p.pid,
            self.engine().verdict(p),
            is_blocked(self.killer(), p, now),
        )
    }

    /// What a scan at `now` finds of each record of the snapshot.
    pub open spec fn findings(self, now: u64) -> Seq<Option<Seq<char>>> {
        Seq::new(
            self.context().snapshot.len(),
            |i: int| self.finding(self.context().snapshot[i], now),
        )
    }

    /// Whether the rules and the restart blocks are those of `other`, so that a scan
    /// finds the same.
    pub open spec fn same_rules(self, other: ProcessScanner) -> bool {
        &&& self.engine().builtin() == other.engine().builtin()
        &&& self.engine().allow() == other.engine().allow()
        &&& self.engine().deny() == other.engine().deny()
        &&& forall|path: Seq<char>, at: u64|
            self.killer().restart_blocked(path, at) == other.killer().restart_blocked(path, at)
    }

    proof fn lemma_same_findings(self, other: ProcessScanner, now: u64)
        requires
            self.same_rules(other),
            self.context() == other.context(),
        ensures
            self.findings(now) == other.findings(now),
    {
        assert(self.findings(now) =~= other.findings(now));
    }

    /// A driver for the rules and the kill policy of `config`, for an agent that runs as
    /// process `current_pid` from the executable `exe_name`. Each enabled rule whose
    /// pattern does not compile is reported once, as a warning.
    pub fn new(
        config: &Config,
        current_pid: u32,
        exe_name: &str,
        platform: Platform,
        elevated: bool,
        now: u64,
    ) -> (s: ProcessScanner)
        ensures
            s.wf(),
            s.current_pid() == current_pid,
            s.elevated() == elevated,
            s.daemon() == DaemonState::Stopped,
            !s.in_tick(),
            s.model().pending is None,
            s.engine().allow() == config.whitelist@,
            s.engine().deny() == config.blacklist@,
            s.engine().builtin().len() == 1 + crate::config::critical_names(platform).len(),
            s.killer().policy() == config.kill_policy,
            s.killer().states() == Map::<u32, KillState>::empty(),
            forall|path: Seq<char>, at: u64| !s.killer().restart_blocked(path, at),
            s.context() == (TickContext {
                current_pid,
                elevated,
                dry_run: false,
                tick_started: 0,
                policy: config.kill_policy,
                snapshot: Seq::empty(),
            }),
            s.model() == warned(
                initial_model(),
                bad_rules(config.whitelist@, config.blacklist@),
                now,
            ),
    {
        let builtin = builtin_allow_rules(exe_name, platform);
        let engine = PolicyEngine::new(config, clone_rules(&builtin));
        let mut scanner = ProcessScanner {
            engine,
            killer: ProcessKiller::new(config.kill_policy, current_pid),
            logger: Logger::new(&config.logging),
            builtin,
            current_pid,
            elevated,
            daemon: DaemonState::Stopped,
            snapshot: Vec::new(),
            cursor: 0,
            in_tick: false,
            dry_run: false,
            cancel: false,
            pending: None,
            tick_started: 0,
            threats: 0,
            killed: 0,
            totals: ScanTotals { scan_count: 0, detected_threats: 0, killed_processes: 0 },
        };
        proof {
            assert(scanner.logger.model() =~= Seq::<EventModel>::empty());
            assert(scanner.model() == initial_model());
        }
        scanner.warn_invalid_patterns(now);
        scanner
    }

    /// Reports each enabled rule whose pattern does not compile.
    fn warn_invalid_patterns(&mut self, now: u64)
        requires
            old(self).wf(),
        ensures
            final(self).wf(),
            final(self).same_tick(*old(self)),
            final(self).killer == old(self).killer,
            final(self).engine.builtin() == old(self).engine.builtin(),
            final(self).engine.allow() == old(self).engine.allow(),
            final(self).engine.deny() == old(self).engine.deny(),
            final(self).model() == warned(
                old(self).model(),
                bad_rules(old(self).engine.allow(), old(self).engine.deny()),
                now,
            ),
    {
        let ids = self.engine.invalid_rule_ids();
        let ghost all = texts(ids@);
        let mut i: usize = 0;
        assert(all.take(0).len() == 0);
        while i < ids.len()
            invariant
                i <= ids.len(),
                all == texts(ids@),
                self.wf(),
                self.same_tick(*old(self)),
                self.killer == old(self).killer,
                self.engine.builtin() == old(self).engine.builtin(),
                self.engine.allow() == old(self).engine.allow(),
                self.engine.deny() == old(self).engine.deny(),
                self.model() == warned(old(self).model(), all.take(i as int), now),
            decreases ids.len() - i,
        {
            let event = system_event("invalid_pattern", ids[i].as_str(), "warn", now);
            self.logger.log_event(event);
            proof {
                let next = all.take(i + 1);
                assert(next.drop_last() == all.take(i as int));
                assert(next.last() == ids@[i as int]@);
            }
            i += 1;
        }
        assert(all.take(ids.len() as int) == all);
    }

    /// Whether everything but the engine, the governor and the log is as in `other`.
    closed spec fn same_tick(self, other: ProcessScanner) -> bool {
        &&& self.builtin == other.builtin
        &&& self.current_pid == other.current_pid
        &&& self.elevated == other.elevated
        &&& self.daemon == other.daemon
        &&& self.snapshot == other.snapshot
        &&& self.cursor == other.cursor
        &&& self.in_tick == other.in_tick
        &&& self.dry_run == other.dry_run
        &&& self.cancel == other.cancel
        &&& self.pending == other.pending
        &&& self.tick_started == other.tick_started
        &&& self.threats == other.threats
        &&& self.killed == other.killed
        &&& self.totals == other.totals
    }

    /// The counts over the life of the driver.
    pub fn get_system_stats(&self) -> (t: ScanTotals)
        ensures
            t == self.model().totals,
    {
        self.totals
    }

    /// The audit log.
    pub fn log(&self) -> (l: &Logger)
        ensures
            *l == self.logger(),
    {
        &self.logger
    }

    /// The kill governor.
    pub fn governor(&self) -> (k: &ProcessKiller)
        ensures
            *k == self.killer(),
    {
        &self.killer
    }

    pub fn daemon_state(&self) -> (d: DaemonState)
        ensures
            d == self.daemon(),
    {
        self.daemon
    }

    /// Whether a tick is under way.
    pub fn is_scanning(&self) -> (b: bool)
        ensures
            b == self.in_tick(),
    {
        self.in_tick
    }

    /// The termination that the caller is to report on next.
    pub fn awaited(&self) -> (k: Option<Awaited>)
        ensures
            k == self.model().pending,
    {
        self.pending
    }

    /// The first record of process `pid` in the snapshot of the tick.
    pub fn get_process_by_pid(&self, pid: u32) -> (found: Option<&ProcessInfo>)
        ensures
            match found {
                Some(p) => exists|i: int|
                    is_first_of(self.context().snapshot, pid, i) && *p == self.context().snapshot[i],
                None => forall|i: int|
                    0 <= i < self.context().snapshot.len() ==> (
                    #[trigger] self.context().snapshot[i]).pid != pid,
            },
    {
        match find_by_pid(&self.snapshot, pid) {
            Some(i) => Some(&self.snapshot[i]),
            None => None,
        }
    }

    /// The tree of process `root_pid` in the snapshot of the tick.
    pub fn get_process_tree(&self, root_pid: u32) -> (tree: ProcessTree)
        ensures
            is_tree_of(
                tree,
                self.context().snapshot,
                root_pid,
                self.context().snapshot.len(),
            ),
    {
        ProcessTree::build_tree(&self.snapshot, root_pid)
    }

    /// What a scan at `now` finds of a process that need not be in a snapshot.
    pub fn classify_process(&mut self, process: &ProcessInfo, now: u64) -> (found: Option<String>)
        requires
            old(self).wf(),
        ensures
            final(self).wf(),
            final(self).same_rules(*old(self)),
            final(self).context() == old(self).context(),
            final(self).model() == old(self).model(),
            final(self).daemon() == old(self).daemon(),
            final(self).killer() == old(self).killer(),
            final(self).logger() == old(self).logger(),
            match old(self).finding(*process, now) {
                Some(id) => found matches Some(f) && f@ == id,
                None => found is None,
            },
    {
        classify(&mut self.engine, &self.killer, self.current_pid, process, now)
    }

    /// Logs an event that is about no process: the start or the stop of the
    /// application, a change of the configuration, or an event of the agent itself. An
    /// event about a process is not logged and `false` is returned.
    pub fn log_event(&mut self, event: LogEvent) -> (logged_it: bool)
        requires
            old(self).wf(),
        ensures
            final(self).wf(),
            final(self).same_rules(*old(self)),
            final(self).context() == old(self).context(),
            final(self).daemon() == old(self).daemon(),
            final(self).killer() == old(self).killer(),
            final(self).engine() == old(self).engine(),
            logged_it == (event.subject() is None),
            final(self).model() == if logged_it {
                logged(old(self).model(), event@)
            } else {
                old(self).model()
            },
    {
        match &event {
            LogEvent::ProcessKilled { .. } => false,
            LogEvent::ThreatDetected { .. } => false,
            _ => {
                self.logger.log_event(event);
                true
            },
        }
    }

    /// Starts a tick over a snapshot taken at `now`: the governor drops the records
    /// that are five minutes old and those of processes that are not in the snapshot,
    /// and the start of the scan is logged, as `daemon` where the periodic scan runs,
    /// else as `single`. A tick that was under way is given up.
    pub fn begin_scan(&mut self, snapshot: Vec<ProcessInfo>, dry_run: bool, now: u64)
        requires
            old(self).wf(),
        ensures
            final(self).wf(),
            final(self).daemon() == old(self).daemon(),
            final(self).engine() == old(self).engine(),
            final(self).context() == (TickContext {
                dry_run,
                tick_started: now,
                snapshot: snapshot@,
                ..old(self).context()
            }),
            final(self).model() == logged(
                TickModel {
                    in_tick: true,
                    cancel: false,
                    cursor: 0,
                    pending: None,
                    threats: 0,
                    killed: 0,
                    states: final(self).killer().states(),
                    ..old(self).model()
                },
                EventModel::ScanStarted {
                    timestamp: now,
                    scan_type: if old(self).daemon() == DaemonState::Running {
                        "daemon"@
                    } else {
                        "single"@
                    },
                },
            ),
            forall|pid: u32|
                #![trigger final(self).killer().states().contains_key(pid)]
                final(self).killer().states().contains_key(pid) <==> old(self).killer().states().contains_key(pid) && crate::killer::is_fresh(
                    old(self).killer().states()[pid],
                    now,
                ) && exists|i: int| 0 <= i < snapshot@.len() && (#[trigger] snapshot@[i]).pid == pid,
            forall|pid: u32| #[trigger]
                final(self).killer().states().contains_key(pid) ==> final(self).killer().states()[pid] == old(self).killer().states()[pid],
            forall|path: Seq<char>, at: u64|
                at >= now ==> final(self).killer().restart_blocked(path, at) == old(self).killer().restart_blocked(path, at),
    {
        let mut live: Vec<u32> = Vec::new();
        let mut i: usize = 0;
        while i < snapshot.len()
            invariant
                i <= snapshot.len(),
                live@.len() == i,
                forall|k: int| 0 <= k < i ==> live@[k] == (#[trigger] snapshot@[k]).pid,
            decreases snapshot.len() - i,
        {
            live.push(snapshot[i].pid);
            i += 1;
        }
        self.killer.cleanup_old_entries(now);
        let ghost mid = self.killer;
        self.killer.forget_missing(&live);
        proof {
            assert forall|pid: u32|
                live@.contains(pid) <==> exists|i: int|
                    0 <= i < snapshot@.len() && (#[trigger] snapshot@[i]).pid == pid by {
                if live@.contains(pid) {
                    let k = choose|k: int| 0 <= k < live@.len() && live@[k] == pid;
                    assert(snapshot@[k].pid == pid);
                }
                if exists|i: int| 0 <= i < snapshot@.len() && (#[trigger] snapshot@[i]).pid == pid {
                    let k = choose|i: int|
                        0 <= i < snapshot@.len() && (#[trigger] snapshot@[i]).pid == pid;
                    assert(live@[k] == pid);
                }
            }
            assert forall|pid: u32|
                #![trigger self.killer.states().contains_key(pid)]
                self.killer.states().contains_key(pid) <==> old(self).killer.states().contains_key(
                    pid,
                ) && crate::killer::is_fresh(old(self).killer.states()[pid], now) && exists|i: int|
                    0 <= i < snapshot@.len() && (#[trigger] snapshot@[i]).pid == pid by {
                assert(self.killer.states().contains_key(pid) <==> mid.states().contains_key(pid)
                    && live@.contains(pid));
                assert(mid.states().contains_key(pid) <==> old(self).killer.states().contains_key(
                    pid,
                ) && crate::killer::is_fresh(old(self).killer.states()[pid], now));
            }
            assert forall|pid: u32| #[trigger]
                self.killer.states().contains_key(pid) implies self.killer.states()[pid] == old(self).killer.states()[pid] by {
                assert(mid.states().contains_key(pid));
            }
        }
        self.snapshot = snapshot;
        self.cursor = 0;
        self.in_tick = true;
        self.dry_run = dry_run;
        self.cancel = false;
        self.pending = None;
        self.tick_started = now;
        self.threats = 0;
        self.killed = 0;
        let scan_type = match self.daemon {
            DaemonState::Running => String::from_str("daemon"),
            _ => String::from_str("single"),
        };
        self.logger.log_event(LogEvent::ScanStarted { timestamp: now, scan_type });
    }

    /// Ends the tick: the totals are logged and counted.
    fn complete(&mut self, now: u64)
        requires
            old(self).wf(),
            old(self).pending is None,
        ensures
            final(self).wf(),
            final(self).model() == completed(old(self).context(), old(self).model(), now),
            final(self).context() == old(self).context(),
            final(self).engine == old(self).engine,
            final(self).killer == old(self).killer,
            final(self).daemon == old(self).daemon,
    {
        let duration_ms: u64 = if now >= self.tick_started {
            now - self.tick_started
        } else {
            0
        };
        let scanned: u32 = if self.cursor > u32::MAX as usize {
            u32::MAX
        } else {
            self.cursor as u32
        };
        self.logger.log_event(
            LogEvent::ScanCompleted {
                timestamp: now,
                processes_scanned: scanned,
                threats_found: self.threats,
                processes_killed: self.killed,
                duration_ms,
            },
        );
        self.in_tick = false;
        self.totals.scan_count = bump_total(self.totals.scan_count);
    }

    /// The step that the state calls for.
    fn current_step(&self) -> (step: ScanStep)
        requires
            self.wf(),
        ensures
            step == step_of(self.context(), self.model()),
    {
        match self.pending {
            Some(k) => {
                let pid = self.snapshot[k.index].pid;
                if k.awaiting_exit {
                    ScanStep::AwaitExit { pid, until: k.until }
                } else {
                    ScanStep::Terminate { pid, mode: k.mode }
                }
            },
            None => ScanStep::Completed,
        }
    }

    /// Deals with the record at the cursor.
    fn scan_record(&mut self, now: u64)
        requires
            old(self).wf(),
            old(self).pending is None,
            old(self).in_tick,
            old(self).cursor < old(self).snapshot@.len(),
        ensures
            final(self).wf(),
            final(self).same_rules(*old(self)),
            final(self).context() == old(self).context(),
            final(self).daemon == old(self).daemon,
            final(self).in_tick,
            final(self).cancel == old(self).cancel,
            final(self).model() == scanned(
                old(self).context(),
                old(self).finding(old(self).snapshot@[old(self).cursor as int], now),
                old(self).model(),
                now,
            ),
            old(self).dry_run || !old(self).elevated ==> final(self).killer == old(self).killer,
    {
        let index = self.cursor;
        assert(index < self.snapshot.len());
        self.cursor = index + 1;
        let found = classify(
            &mut self.engine,
            &self.killer,
            self.current_pid,
            &self.snapshot[index],
            now,
        );
        if let Some(rule) = found {
            let pid = self.snapshot[index].pid;
            assert(pid != self.current_pid);
            self.threats = bump(self.threats);
            self.totals.detected_threats = bump_total(self.totals.detected_threats);
            let action = plan_action(&mut self.killer, self.dry_run, self.elevated, pid, now);
            let event = threat_event(&self.snapshot[index], rule, &action, now);
            self.logger.log_event(event);
            match action {
                ThreatAction::Kill(mode) => {
                    self.pending = Some(Awaited { index, mode, awaiting_exit: false, until: 0 });
                },
                ThreatAction::Throttled(_) => {},
                _ => {
                    let denied = kill_event(&self.snapshot[index], false, "restricted", now);
                    self.logger.log_event(denied);
                },
            }
        }
    }

    /// Goes on with the tick at `now` and says what the caller does next. Each record
    /// is classified in turn; a threat is logged, and killed where the run is no dry
    /// run, the agent has the privilege and the governor admits it. The tick ends with
    /// the last record, or at once where a stop was asked for.
    pub fn next_step(&mut self, now: u64) -> (step: ScanStep)
        requires
            old(self).wf(),
        ensures
            final(self).wf(),
            final(self).same_rules(*old(self)),
            final(self).context() == old(self).context(),
            final(self).daemon() == old(self).daemon(),
            final(self).model() == advanced(
                old(self).context(),
                old(self).findings(now),
                old(self).model(),
                now,
            ),
            step == step_of(final(self).context(), final(self).model()),
            step matches ScanStep::Terminate { pid, .. } ==> pid != final(self).current_pid()
                && !final(self).context().dry_run && final(self).elevated(),
            step matches ScanStep::AwaitExit { pid, .. } ==> pid != final(self).current_pid(),
            step == ScanStep::Completed ==> !final(self).in_tick(),
            old(self).model().pending is None && (old(self).context().dry_run || !old(self).elevated()) ==> step == ScanStep::Completed && final(self).killer() == old(self).killer(),
    {
        let ghost ctx = self.context();
        let ghost fs = self.findings(now);
        let ghost start = self.model();
        if self.in_tick && self.pending.is_none() {
            while self.cursor < self.snapshot.len() && !self.cancel && self.pending.is_none()
                invariant
                    self.wf(),
                    self.in_tick,
                    self.same_rules(*old(self)),
                    self.context() == ctx,
                    self.findings(now) == fs,
                    self.daemon == old(self).daemon,
                    advanced(ctx, fs, self.model(), now) == advanced(ctx, fs, start, now),
                    self.dry_run || !self.elevated ==> self.killer == old(self).killer,
                decreases self.snapshot@.len() - self.cursor,
            {
                let ghost before = *self;
                self.scan_record(now);
                proof {
                    self.lemma_same_findings(before, now);
                    assert(fs[before.cursor as int] == before.finding(
                        before.snapshot@[before.cursor as int],
                        now,
                    ));
                    let m = before.model();
                    let after = scanned(ctx, fs[m.cursor], m, now);
                    assert(TickModel { cursor: m.cursor + 1, ..after } == after);
                }
            }
            if self.pending.is_none() {
                self.complete(now);
            }
        }
        self.current_step()
    }

    /// Books a kill that succeeded and logs it.
    fn finish_success(&mut self, index: usize, reason: &str, now: u64)
        requires
            old(self).wf(),
            index < old(self).snapshot@.len(),
            old(self).snapshot@[index as int].pid != old(self).current_pid,
        ensures
            final(self).wf(),
            final(self).context() == old(self).context(),
            final(self).daemon == old(self).daemon,
            final(self).engine == old(self).engine,
            final(self).model() == booked_success(
                old(self).context(),
                old(self).model(),
                index as int,
                reason@,
                now,
            ),
            forall|q: Seq<char>, at: u64|
                final(self).killer.restart_blocked(q, at) == blocked_with(
                    old(self).killer,
                    path_of(old(self).snapshot@[index as int]),
                    now,
                    q,
                    at,
                ),
    {
        let pid = self.snapshot[index].pid;
        self.killer.record_success(pid, &self.snapshot[index].path, now);
        let event = kill_event(&self.snapshot[index], true, reason, now);
        self.logger.log_event(event);
        self.killed = bump(self.killed);
        self.totals.killed_processes = bump_total(self.totals.killed_processes);
    }

    /// Books a kill that failed and logs what the kind of failure calls for.
    fn finish_failure(&mut self, index: usize, error: KillError, now: u64)
        requires
            old(self).wf(),
            index < old(self).snapshot@.len(),
            old(self).snapshot@[index as int].pid != old(self).current_pid,
        ensures
            final(self).wf(),
            final(self).same_rules(*old(self)),
            final(self).context() == old(self).context(),
            final(self).daemon == old(self).daemon,
            final(self).engine == old(self).engine,
            final(self).model() == booked_failure(
                old(self).context(),
                old(self).model(),
                index as int,
                error,
                now,
            ),
    {
        let pid = self.snapshot[index].pid;
        let error = self.killer.record_failure(pid, error, now);
        match &error {
            KillError::NotFound => {},
            KillError::AccessDenied => {
                let event = kill_event(&self.snapshot[index], false, "restricted", now);
                self.logger.log_event(event);
            },
            KillError::SystemError(detail) => {
                let event = system_event("kill_failed", detail.as_str(), "warn", now);
                self.logger.log_event(event);
            },
            _ => {
                let reason = error.message();
                let event = kill_event(&self.snapshot[index], false, reason.as_str(), now);
                self.logger.log_event(event);
            },
        }
    }

    /// Takes the outcome of the termination that the last step asked for, and goes on
    /// with the tick. After a graceful termination that succeeded the exit is awaited;
    /// after one that failed or is not implemented the forceful one follows at once.
    /// The outcome of a forceful termination is booked with the governor and logged. A
    /// kill that is booked as done blocks restarts from the same executable for five
    /// seconds, which counts for the records that follow.
    pub fn terminate_result(&mut self, outcome: Result<(), KillError>, now: u64) -> (step: ScanStep)
        requires
            old(self).wf(),
        ensures
            final(self).wf(),
            final(self).context() == old(self).context(),
            final(self).daemon() == old(self).daemon(),
            final(self).engine().builtin() == old(self).engine().builtin(),
            final(self).engine().allow() == old(self).engine().allow(),
            final(self).engine().deny() == old(self).engine().deny(),
            final(self).model() == advanced(
                old(self).context(),
                final(self).findings(now),
                reported(old(self).context(), old(self).model(), outcome, now),
                now,
            ),
            step == step_of(final(self).context(), final(self).model()),
            step matches ScanStep::Terminate { pid, .. } ==> pid != final(self).current_pid(),
            step matches ScanStep::AwaitExit { pid, .. } ==> pid != final(self).current_pid(),
            step == ScanStep::Completed ==> !final(self).in_tick(),
            forall|q: Seq<char>, at: u64|
                final(self).killer().restart_blocked(q, at) == blocked_with(
                    old(self).killer(),
                    path_killed_by_report(old(self).context(), old(self).model(), outcome),
                    now,
                    q,
                    at,
                ),
    {
        if let Some(k) = self.pending {
            if !k.awaiting_exit {
                match k.mode {
                    TerminateMode::Graceful => match self.killer.after_graceful(&outcome, now) {
                        NextStep::AwaitExit { until } => {
                            self.pending = Some(
                                Awaited {
                                    index: k.index,
                                    mode: k.mode,
                                    awaiting_exit: true,
                                    until,
                                },
                            );
                        },
                        NextStep::ForceKill => {
                            self.pending = Some(
                                Awaited {
                                    index: k.index,
                                    mode: TerminateMode::Forceful,
                                    awaiting_exit: false,
                                    until: 0,
                                },
                            );
                        },
                    },
                    TerminateMode::Forceful => {
                        self.pending = None;
                        match outcome {
                            Ok(_) => self.finish_success(k.index, "terminated", now),
                            Err(error) => self.finish_failure(k.index, error, now),
                        }
                    },
                }
            }
        }
        let ghost mid = *self;
        let step = self.next_step(now);
        proof {
            self.lemma_same_findings(mid, now);
        }
        step
    }

    /// Takes the news of whether the process that was asked to close has exited, and
    /// goes on with the tick. Where it has exited the kill is booked and logged; where
    /// it has not, the forceful termination follows.
    pub fn exit_polled(&mut self, exited: bool, now: u64) -> (step: ScanStep)
        requires
            old(self).wf(),
        ensures
            final(self).wf(),
            final(self).context() == old(self).context(),
            final(self).daemon() == old(self).daemon(),
            final(self).engine().builtin() == old(self).engine().builtin(),
            final(self).engine().allow() == old(self).engine().allow(),
            final(self).engine().deny() == old(self).engine().deny(),
            final(self).model() == advanced(
                old(self).context(),
                final(self).findings(now),
                polled(old(self).context(), old(self).model(), exited, now),
                now,
            ),
            step == step_of(final(self).context(), final(self).model()),
            step matches ScanStep::Terminate { pid, .. } ==> pid != final(self).current_pid(),
            step matches ScanStep::AwaitExit { pid, .. } ==> pid != final(self).current_pid(),
            step == ScanStep::Completed ==> !final(self).in_tick(),
            forall|q: Seq<char>, at: u64|
                final(self).killer().restart_blocked(q, at) == blocked_with(
                    old(self).killer(),
                    path_killed_by_poll(old(self).context(), old(self).model(), exited),
                    now,
                    q,
                    at,
                ),
    {
        if let Some(k) = self.pending {
            if k.awaiting_exit {
                if exited {
                    self.pending = None;
                    self.finish_success(k.index, "exited", now);
                } else {
                    self.pending = Some(
                        Awaited {
                            index: k.index,
                            mode: TerminateMode::Forceful,
                            awaiting_exit: false,
                            until: 0,
                        },
                    );
                }
            }
        }
        let ghost mid = *self;
        let step = self.next_step(now);
        proof {
            self.lemma_same_findings(mid, now);
        }
        step
    }

    /// Takes a configuration that was read anew. A valid one replaces the rules, which
    /// is logged as a change by `actor`, with a warning for each pattern that does not
    /// compile. An invalid one is reported as an error and the rules stay as they are.
    pub fn reload_policy(&mut self, config: &Config, actor: &str, now: u64) -> (res: Result<
        (),
        String,
    >)
        requires
            old(self).wf(),
        ensures
            final(self).wf(),
            final(self).context() == old(self).context(),
            final(self).daemon() == old(self).daemon(),
            final(self).killer() == old(self).killer(),
            res is Ok <==> config.is_valid(),
            res matches Err(msg) ==> Some(msg@) == config.complaint(),
            res is Ok ==> final(self).engine().allow() == config.whitelist@ && final(self).engine().deny() == config.blacklist@ && final(self).model() == warned(
                logged(
                    old(self).model(),
                    EventModel::ConfigurationChanged {
                        timestamp: now,
                        changed_by: actor@,
                        changes: "policy reloaded"@,
                    },
                ),
                bad_rules(config.whitelist@, config.blacklist@),
                now,
            ),
            res is Err ==> final(self).engine() == old(self).engine() && final(self).model()
                == logged(
                old(self).model(),
                system_model("config_invalid"@, config.complaint()->0, "error"@, now),
            ),
            final(self).engine().builtin() == old(self).engine().builtin(),
    {
        match config.validate() {
            Ok(_) => {
                self.engine = PolicyEngine::new(config, clone_rules(&self.builtin));
                self.logger.log_event(
                    LogEvent::ConfigurationChanged {
                        timestamp: now,
                        changed_by: String::from_str(actor),
                        changes: String::from_str("policy reloaded"),
                    },
                );
                self.warn_invalid_patterns(now);
                Ok(())
            },
            Err(msg) => {
                let event = system_event("config_invalid", msg.as_str(), "error", now);
                self.logger.log_event(event);
                Err(msg)
            },
        }
    }

    /// Starts the periodic scan, which is logged. After an emergency stop it does not
    /// start.
    pub fn start_daemon(&mut self, now: u64) -> (started: bool)
        requires
            old(self).wf(),
        ensures
            final(self).wf(),
            final(self).context() == old(self).context(),
            final(self).engine() == old(self).engine(),
            final(self).killer() == old(self).killer(),
            started == (old(self).daemon() != DaemonState::EmergencyStopped),
            final(self).daemon() == if started {
                DaemonState::Running
            } else {
                DaemonState::EmergencyStopped
            },
            final(self).model() == if old(self).daemon() == DaemonState::Stopped {
                logged(old(self).model(), system_model("daemon-status"@, "running"@, "info"@, now))
            } else {
                old(self).model()
            },
    {
        match self.daemon {
            DaemonState::EmergencyStopped => false,
            DaemonState::Running => true,
            DaemonState::Stopped => {
                self.daemon = DaemonState::Running;
                let event = system_event("daemon-status", "running", "info", now);
                self.logger.log_event(event);
                true
            },
        }
    }

    /// Stops the periodic scan, which is logged. A tick under way ends when it next
    /// goes on, after the record at hand.
    pub fn stop_daemon(&mut self, now: u64)
        requires
            old(self).wf(),
        ensures
            final(self).wf(),
            final(self).context() == old(self).context(),
            final(self).engine() == old(self).engine(),
            final(self).killer() == old(self).killer(),
            final(self).daemon() == if old(self).daemon() == DaemonState::Running {
                DaemonState::Stopped
            } else {
                old(self).daemon()
            },
            final(self).model() == if old(self).daemon() == DaemonState::Running {
                logged(
                    TickModel { cancel: old(self).model().in_tick, ..old(self).model() },
                    system_model("daemon-status"@, "stopped"@, "info"@, now),
                )
            } else {
                old(self).model()
            },
    {
        if let DaemonState::Running = self.daemon {
            self.daemon = DaemonState::Stopped;
            self.cancel = self.in_tick;
            let event = system_event("daemon-status", "stopped", "info", now);
            self.logger.log_event(event);
        }
    }

    /// Stops the periodic scan at once and for good: it does not start again until it
    /// is re-armed. The stop is logged as a critical event.
    pub fn emergency_stop(&mut self, now: u64)
        requires
            old(self).wf(),
        ensures
            final(self).wf(),
            final(self).context() == old(self).context(),
            final(self).engine() == old(self).engine(),
            final(self).killer() == old(self).killer(),
            final(self).daemon() == DaemonState::EmergencyStopped,
            final(self).model() == logged(
                TickModel { cancel: old(self).model().in_tick, ..old(self).model() },
                system_model("emergency_stop"@, "Emergency stop activated"@, "critical"@, now),
            ),
    {
        self.daemon = DaemonState::EmergencyStopped;
        self.cancel = self.in_tick;
        let event = system_event("emergency_stop", "Emergency stop activated", "critical", now);
        self.logger.log_event(event);
    }

    /// Lets the periodic scan be started again after an emergency stop, which is logged.
    pub fn rearm(&mut self, now: u64)
        requires
            old(self).wf(),
        ensures
            final(self).wf(),
            final(self).context() == old(self).context(),
            final(self).engine() == old(self).engine(),
            final(self).killer() == old(self).killer(),
            final(self).daemon() == if old(self).daemon() == DaemonState::EmergencyStopped {
                DaemonState::Stopped
            } else {
                old(self).daemon()
            },
            final(self).model() == if old(self).daemon() == DaemonState::EmergencyStopped {
                logged(old(self).model(), system_model("daemon-status"@, "re-armed"@, "info"@, now))
            } else {
                old(self).model()
            },
    {
        if let DaemonState::EmergencyStopped = self.daemon {
            self.daemon = DaemonState::Stopped;
            let event = system_event("daemon-status", "re-armed", "info", now);
            self.logger.log_event(event);
        }
    }
}

} // verus!
