//! The audit log: the events, and the ring of the most recent ones kept in memory.

use std::collections::VecDeque;
use vstd::prelude::*;
use vstd::string::*;

use crate::config::{LogFormat, LoggingConfig};
use crate::format::{format_compact_log, format_text_log, formatted};
use crate::text::{ascii_lower, lower_chars, same_text};

verus! {

/// How many events the ring keeps; the oldest leaves when one more arrives.
pub const MAX_MEMORY_LOGS: usize = 10_000;

/// One event of the audit log. Every event carries the instant it was logged at, in
/// milliseconds since the Unix epoch.
#[derive(Debug, PartialEq, Eq)]
pub enum LogEvent {
    ProcessKilled { pid: u32, process_name: String, timestamp: u64, success: bool, reason: String },
    ThreatDetected {
        pid: u32,
        process_name: String,
        rule: String,
        timestamp: u64,
        action_taken: String,
    },
    ScanStarted { timestamp: u64, scan_type: String },
    ScanCompleted {
        timestamp: u64,
        processes_scanned: u32,
        threats_found: u32,
        processes_killed: u32,
        duration_ms: u64,
    },
    ConfigurationChanged { timestamp: u64, changed_by: String, changes: String },
    SystemEvent { timestamp: u64, event_type: String, message: String, severity: String },
    ApplicationStarted { timestamp: u64, version: String, is_admin: bool },
    ApplicationStopped { timestamp: u64, reason: String },
}

/// An event as the contracts speak of it: the strings as their text.
pub enum EventModel {
    ProcessKilled {
        pid: u32,
        process_name: Seq<char>,
        timestamp: u64,
        success: bool,
        reason: Seq<char>,
    },
    ThreatDetected {
        pid: u32,
        process_name: Seq<char>,
        rule: Seq<char>,
        timestamp: u64,
        action_taken: Seq<char>,
    },
    ScanStarted { timestamp: u64, scan_type: Seq<char> },
    ScanCompleted {
        timestamp: u64,
        processes_scanned: u32,
        threats_found: u32,
        processes_killed: u32,
        duration_ms: u64,
    },
    ConfigurationChanged { timestamp: u64, changed_by: Seq<char>, changes: Seq<char> },
    SystemEvent { timestamp: u64, event_type: Seq<char>, message: Seq<char>, severity: Seq<char> },
    ApplicationStarted { timestamp: u64, version: Seq<char>, is_admin: bool },
    ApplicationStopped { timestamp: u64, reason: Seq<char> },
}

impl EventModel {
    /// The instant the event carries.
    pub open spec fn timestamp(self) -> u64 {
        match self {
            EventModel::ProcessKilled { timestamp, .. } => timestamp,
            EventModel::ThreatDetected { timestamp, .. } => timestamp,
            EventModel::ScanStarted { timestamp, .. } => timestamp,
            EventModel::ScanCompleted { timestamp, .. } => timestamp,
            EventModel::ConfigurationChanged { timestamp, .. } => timestamp,
            EventModel::SystemEvent { timestamp, .. } => timestamp,
            EventModel::ApplicationStarted { timestamp, .. } => timestamp,
            EventModel::ApplicationStopped { timestamp, .. } => timestamp,
        }
    }

    /// The event with another instant and everything else as it is.
    pub open spec fn at(self, instant: u64) -> EventModel {
        match self {
            EventModel::ProcessKilled { pid, process_name, timestamp, success, reason } => {
                EventModel::ProcessKilled {
                    pid,
                    process_name,
                    timestamp: instant,
                    success,
                    reason,
                }
            },
            EventModel::ThreatDetected { pid, process_name, rule, timestamp, action_taken } => {
                EventModel::ThreatDetected {
                    pid,
                    process_name,
                    rule,
                    timestamp: instant,
                    action_taken,
                }
            },
            EventModel::ScanStarted { timestamp, scan_type } => EventModel::ScanStarted {
                timestamp: instant,
                scan_type,
            },
            EventModel::ScanCompleted {
                timestamp,
                processes_scanned,
                threats_found,
                processes_killed,
                duration_ms,
            } => EventModel::ScanCompleted {
                timestamp: instant,
                processes_scanned,
                threats_found,
                processes_killed,
                duration_ms,
            },
            EventModel::ConfigurationChanged { timestamp, changed_by, changes } => {
                EventModel::ConfigurationChanged { timestamp: instant, changed_by, changes }
            },
            EventModel::SystemEvent { timestamp, event_type, message, severity } => {
                EventModel::SystemEvent { timestamp: instant, event_type, message, severity }
            },
            EventModel::ApplicationStarted { timestamp, version, is_admin } => {
                EventModel::ApplicationStarted { timestamp: instant, version, is_admin }
            },
            EventModel::ApplicationStopped { timestamp, reason } => {
                EventModel::ApplicationStopped { timestamp: instant, reason }
            },
        }
    }
}

impl View for LogEvent {
    type V = EventModel;

    open spec fn view(&self) -> EventModel {
        match *self {
            LogEvent::ProcessKilled { pid, process_name, timestamp, success, reason } => {
                EventModel::ProcessKilled {
                    pid,
                    process_name: process_name@,
                    timestamp,
                    success,
                    reason: reason@,
                }
            },
            LogEvent::ThreatDetected { pid, process_name, rule, timestamp, action_taken } => {
                EventModel::ThreatDetected {
                    pid,
                    process_name: process_name@,
                    rule: rule@,
                    timestamp,
                    action_taken: action_taken@,
                }
            },
            LogEvent::ScanStarted { timestamp, scan_type } => EventModel::ScanStarted {
                timestamp,
                scan_type: scan_type@,
            },
            LogEvent::ScanCompleted {
                timestamp,
                processes_scanned,
                threats_found,
                processes_killed,
                duration_ms,
            } => EventModel::ScanCompleted {
                timestamp,
                processes_scanned,
                threats_found,
                processes_killed,
                duration_ms,
            },
            LogEvent::ConfigurationChanged { timestamp, changed_by, changes } => {
                EventModel::ConfigurationChanged {
                    timestamp,
                    changed_by: changed_by@,
                    changes: changes@,
                }
            },
            LogEvent::SystemEvent { timestamp, event_type, message, severity } => {
                EventModel::SystemEvent {
                    timestamp,
                    event_type: event_type@,
                    message: message@,
                    severity: severity@,
                }
            },
            LogEvent::ApplicationStarted { timestamp, version, is_admin } => {
                EventModel::ApplicationStarted { timestamp, version: version@, is_admin }
            },
            LogEvent::ApplicationStopped { timestamp, reason } => EventModel::ApplicationStopped {
                timestamp,
                reason: reason@,
            },
        }
    }
}

/// The events of a sequence as the contracts speak of them.
pub open spec fn models(events: Seq<LogEvent>) -> Seq<EventModel> {
    Seq::new(events.len(), |i: int| events[i]@)
}

/// The instant that an event handed in with `timestamp` is logged at when the latest
/// instant on record is `last`: no earlier than that.
pub open spec fn stamp_after(last: u64, timestamp: u64) -> u64 {
    if timestamp < last {
        last
    } else {
        timestamp
    }
}

/// The events in memory after one more was logged.
pub open spec fn ring_after(events: Seq<EventModel>, last: u64, e: EventModel) -> Seq<EventModel> {
    newest(events.push(e.at(stamp_after(last, e.timestamp()))), MAX_MEMORY_LOGS as nat)
}

/// The kinds of event.
#[derive(Debug, Clone, Copy, PartialEq, Eq, Structural)]
pub enum EventKind {
    ProcessKilled,
    ThreatDetected,
    ScanStarted,
    ScanCompleted,
    ConfigurationChanged,
    SystemEvent,
    ApplicationStarted,
    ApplicationStopped,
}

impl Clone for LogEvent {
    fn clone(&self) -> (r: Self)
        ensures
            r == *self,
    {
        match self {
            LogEvent::ProcessKilled { pid, process_name, timestamp, success, reason } => {
                LogEvent::ProcessKilled {
                    pid: *pid,
                    process_name: process_name.clone(),
                    timestamp: *timestamp,
                    success: *success,
                    reason: reason.clone(),
                }
            },
            LogEvent::ThreatDetected { pid, process_name, rule, timestamp, action_taken } => {
                LogEvent::ThreatDetected {
                    pid: *pid,
                    process_name: process_name.clone(),
                    rule: rule.clone(),
                    timestamp: *timestamp,
                    action_taken: action_taken.clone(),
                }
            },
            LogEvent::ScanStarted { timestamp, scan_type } => LogEvent::ScanStarted {
                timestamp: *timestamp,
                scan_type: scan_type.clone(),
            },
            LogEvent::ScanCompleted {
                timestamp,
                processes_scanned,
                threats_found,
                processes_killed,
                duration_ms,
            } => LogEvent::ScanCompleted {
                timestamp: *timestamp,
                processes_scanned: *processes_scanned,
                threats_found: *threats_found,
                processes_killed: *processes_killed,
                duration_ms: *duration_ms,
            },
            LogEvent::ConfigurationChanged { timestamp, changed_by, changes } => {
                LogEvent::ConfigurationChanged {
                    timestamp: *timestamp,
                    changed_by: changed_by.clone(),
                    changes: changes.clone(),
                }
            },
            LogEvent::SystemEvent { timestamp, event_type, message, severity } => {
                LogEvent::SystemEvent {
                    timestamp: *timestamp,
                    event_type: event_type.clone(),
                    message: message.clone(),
                    severity: severity.clone(),
                }
            },
            LogEvent::ApplicationStarted { timestamp, version, is_admin } => {
                LogEvent::ApplicationStarted {
                    timestamp: *timestamp,
                    version: version.clone(),
                    is_admin: *is_admin,
                }
            },
            LogEvent::ApplicationStopped { timestamp, reason } => LogEvent::ApplicationStopped {
                timestamp: *timestamp,
                reason: reason.clone(),
            },
        }
    }
}

impl LogEvent {
    /// The instant the event carries.
    pub open spec fn timestamp(self) -> u64 {
        match self {
            LogEvent::ProcessKilled { timestamp, .. } => timestamp,
            LogEvent::ThreatDetected { timestamp, .. } => timestamp,
            LogEvent::ScanStarted { timestamp, .. } => timestamp,
            LogEvent::ScanCompleted { timestamp, .. } => timestamp,
            LogEvent::ConfigurationChanged { timestamp, .. } => timestamp,
            LogEvent::SystemEvent { timestamp, .. } => timestamp,
            LogEvent::ApplicationStarted { timestamp, .. } => timestamp,
            LogEvent::ApplicationStopped { timestamp, .. } => timestamp,
        }
    }

    /// The kind of the event.
    pub open spec fn kind(self) -> EventKind {
        match self {
            LogEvent::ProcessKilled { .. } => EventKind::ProcessKilled,
            LogEvent::ThreatDetected { .. } => EventKind::ThreatDetected,
            LogEvent::ScanStarted { .. } => EventKind::ScanStarted,
            LogEvent::ScanCompleted { .. } => EventKind::ScanCompleted,
            LogEvent::ConfigurationChanged { .. } => EventKind::ConfigurationChanged,
            LogEvent::SystemEvent { .. } => EventKind::SystemEvent,
            LogEvent::ApplicationStarted { .. } => EventKind::ApplicationStarted,
            LogEvent::ApplicationStopped { .. } => EventKind::ApplicationStopped,
        }
    }

    /// The event with another instant and everything else as it is.
    pub open spec fn at(self, instant: u64) -> LogEvent {
        match self {
            LogEvent::ProcessKilled { pid, process_name, timestamp, success, reason } => {
                LogEvent::ProcessKilled { pid, process_name, timestamp: instant, success, reason }
            },
            LogEvent::ThreatDetected { pid, process_name, rule, timestamp, action_taken } => {
                LogEvent::ThreatDetected {
                    pid,
                    process_name,
                    rule,
                    timestamp: instant,
                    action_taken,
                }
            },
            LogEvent::ScanStarted { timestamp, scan_type } => LogEvent::ScanStarted {
                timestamp: instant,
                scan_type,
            },
            LogEvent::ScanCompleted {
                timestamp,
                processes_scanned,
                threats_found,
                processes_killed,
                duration_ms,
            } => LogEvent::ScanCompleted {
                timestamp: instant,
                processes_scanned,
                threats_found,
                processes_killed,
                duration_ms,
            },
            LogEvent::ConfigurationChanged { timestamp, changed_by, changes } => {
                LogEvent::ConfigurationChanged { timestamp: instant, changed_by, changes }
            },
            LogEvent::SystemEvent { timestamp, event_type, message, severity } => {
                LogEvent::SystemEvent { timestamp: instant, event_type, message, severity }
            },
            LogEvent::ApplicationStarted { timestamp, version, is_admin } => {
                LogEvent::ApplicationStarted { timestamp: instant, version, is_admin }
            },
            LogEvent::ApplicationStopped { timestamp, reason } => LogEvent::ApplicationStopped {
                timestamp: instant,
                reason,
            },
        }
    }

    /// The process that the event is about, for the two kinds that are about one.
    pub open spec fn subject(self) -> Option<u32> {
        match self {
            LogEvent::ProcessKilled { pid, .. } => Some(pid),
            LogEvent::ThreatDetected { pid, .. } => Some(pid),
            _ => None,
        }
    }

    pub fn get_event_timestamp(&self) -> (t: u64)
        ensures
            t == self.timestamp(),
    {
        match self {
            LogEvent::ProcessKilled { timestamp, .. } => *timestamp,
            LogEvent::ThreatDetected { timestamp, .. } => *timestamp,
            LogEvent::ScanStarted { timestamp, .. } => *timestamp,
            LogEvent::ScanCompleted { timestamp, .. } => *timestamp,
            LogEvent::ConfigurationChanged { timestamp, .. } => *timestamp,
            LogEvent::SystemEvent { timestamp, .. } => *timestamp,
            LogEvent::ApplicationStarted { timestamp, .. } => *timestamp,
            LogEvent::ApplicationStopped { timestamp, .. } => *timestamp,
        }
    }

    pub fn event_kind(&self) -> (k: EventKind)
        ensures
            k == self.kind(),
    {
        match self {
            LogEvent::ProcessKilled { .. } => EventKind::ProcessKilled,
            LogEvent::ThreatDetected { .. } => EventKind::ThreatDetected,
            LogEvent::ScanStarted { .. } => EventKind::ScanStarted,
            LogEvent::ScanCompleted { .. } => EventKind::ScanCompleted,
            LogEvent::ConfigurationChanged { .. } => EventKind::ConfigurationChanged,
            LogEvent::SystemEvent { .. } => EventKind::SystemEvent,
            LogEvent::ApplicationStarted { .. } => EventKind::ApplicationStarted,
            LogEvent::ApplicationStopped { .. } => EventKind::ApplicationStopped,
        }
    }

    /// The event with the instant `instant`.
    pub fn with_timestamp(self, instant: u64) -> (e: LogEvent)
        ensures
            e == self.at(instant),
    {
        match self {
            LogEvent::ProcessKilled { pid, process_name, timestamp: _, success, reason } => {
                LogEvent::ProcessKilled { pid, process_name, timestamp: instant, success, reason }
            },
            LogEvent::ThreatDetected { pid, process_name, rule, timestamp: _, action_taken } => {
                LogEvent::ThreatDetected {
                    pid,
                    process_name,
                    rule,
                    timestamp: instant,
                    action_taken,
                }
            },
            LogEvent::ScanStarted { timestamp: _, scan_type } => LogEvent::ScanStarted {
                timestamp: instant,
                scan_type,
            },
            LogEvent::ScanCompleted {
                timestamp: _,
                processes_scanned,
                threats_found,
                processes_killed,
                duration_ms,
            } => LogEvent::ScanCompleted {
                timestamp: instant,
                processes_scanned,
                threats_found,
                processes_killed,
                duration_ms,
            },
            LogEvent::ConfigurationChanged { timestamp: _, changed_by, changes } => {
                LogEvent::ConfigurationChanged { timestamp: instant, changed_by, changes }
            },
            LogEvent::SystemEvent { timestamp: _, event_type, message, severity } => {
                LogEvent::SystemEvent { timestamp: instant, event_type, message, severity }
            },
            LogEvent::ApplicationStarted { timestamp: _, version, is_admin } => {
                LogEvent::ApplicationStarted { timestamp: instant, version, is_admin }
            },
            LogEvent::ApplicationStopped { timestamp: _, reason } => LogEvent::ApplicationStopped {
                timestamp: instant,
                reason,
            },
        }
    }
}

/// The kind that a name stands for, without regard to ASCII case: the full name of the
/// kind, or its short form.
pub open spec fn kind_named(name: Seq<char>) -> Option<EventKind> {
    let n = ascii_lower(name);
    if n == "process_killed"@ || n == "kill"@ {
        Some(EventKind::ProcessKilled)
    } else if n == "threat_detected"@ || n == "threat"@ {
        Some(EventKind::ThreatDetected)
    } else if n == "scan_started"@ || n == "scan_start"@ {
        Some(EventKind::ScanStarted)
    } else if n == "scan_completed"@ || n == "scan_end"@ {
        Some(EventKind::ScanCompleted)
    } else if n == "configuration_changed"@ || n == "config"@ {
        Some(EventKind::ConfigurationChanged)
    } else if n == "system_event"@ || n == "system"@ {
        Some(EventKind::SystemEvent)
    } else if n == "application_started"@ || n == "start"@ {
        Some(EventKind::ApplicationStarted)
    } else if n == "application_stopped"@ || n == "stop"@ {
        Some(EventKind::ApplicationStopped)
    } else {
        None
    }
}

fn lowered_is(lowered: &Vec<char>, literal: &str) -> (r: bool)
    ensures
        r == (lowered@ == literal@),
{
    let other = crate::text::chars_of(literal);
    crate::text::chars_equal(lowered, &other)
}

/// The kind that `name` stands for.
pub fn parse_kind(name: &str) -> (k: Option<EventKind>)
    ensures
        k == kind_named(name@),
{
    let n = lower_chars(name);
    if lowered_is(&n, "process_killed") || lowered_is(&n, "kill") {
        Some(EventKind::ProcessKilled)
    } else if lowered_is(&n, "threat_detected") || lowered_is(&n, "threat") {
        Some(EventKind::ThreatDetected)
    } else if lowered_is(&n, "scan_started") || lowered_is(&n, "scan_start") {
        Some(EventKind::ScanStarted)
    } else if lowered_is(&n, "scan_completed") || lowered_is(&n, "scan_end") {
        Some(EventKind::ScanCompleted)
    } else if lowered_is(&n, "configuration_changed") || lowered_is(&n, "config") {
        Some(EventKind::ConfigurationChanged)
    } else if lowered_is(&n, "system_event") || lowered_is(&n, "system") {
        Some(EventKind::SystemEvent)
    } else if lowered_is(&n, "application_started") || lowered_is(&n, "start") {
        Some(EventKind::ApplicationStarted)
    } else if lowered_is(&n, "application_stopped") || lowered_is(&n, "stop") {
        Some(EventKind::ApplicationStopped)
    } else {
        None
    }
}

/// Whether no event carries an earlier instant than the one before it.
pub open spec fn non_decreasing(events: Seq<LogEvent>) -> bool {
    forall|i: int, j: int|
        0 <= i <= j < events.len() ==> (#[trigger] events[i]).timestamp() <= (
        #[trigger] events[j]).timestamp()
}

/// The last `limit` events, or all of them where there are fewer.
pub open spec fn newest<T>(events: Seq<T>, limit: nat) -> Seq<T> {
    if events.len() <= limit {
        events
    } else {
        events.skip(events.len() - limit)
    }
}

/// The events of kind `kind`, the newest first, `limit` of them at most.
pub open spec fn newest_of_kind(events: Seq<LogEvent>, kind: EventKind, limit: nat) -> Seq<
    LogEvent,
> {
    let of_kind = events.filter(|e: LogEvent| e.kind() == kind).reverse();
    if of_kind.len() <= limit {
        of_kind
    } else {
        of_kind.take(limit as int)
    }
}

/// The events logged from `start` to `end`, both included, the oldest first.
pub open spec fn within(events: Seq<LogEvent>, start: u64, end: u64) -> Seq<LogEvent> {
    events.filter(|e: LogEvent| start <= e.timestamp() <= end)
}

/// How many of the events meet `pred`.
pub open spec fn count_of(events: Seq<LogEvent>, pred: spec_fn(LogEvent) -> bool) -> nat {
    events.filter(pred).len()
}

/// Counts over the events in memory.
#[derive(Debug, Clone, Copy, PartialEq, Eq, Structural)]
pub struct LogStats {
    pub processes_killed: u32,
    pub successful_kills: u32,
    pub threats_detected: u32,
    pub scans_performed: u32,
    pub config_changes: u32,
}

impl Default for LogStats {
    fn default() -> (s: LogStats)
        ensures
            s == (LogStats {
                processes_killed: 0,
                successful_kills: 0,
                threats_detected: 0,
                scans_performed: 0,
                config_changes: 0,
            }),
    {
        LogStats {
            processes_killed: 0,
            successful_kills: 0,
            threats_detected: 0,
            scans_performed: 0,
            config_changes: 0,
        }
    }
}

pub open spec fn is_kill(e: LogEvent) -> bool {
    e is ProcessKilled
}

pub open spec fn is_successful_kill(e: LogEvent) -> bool {
    e matches LogEvent::ProcessKilled { success, .. } && success
}

/// The counts over a sequence of events.
pub open spec fn stats_of(events: Seq<LogEvent>) -> LogStats {
    LogStats {
        processes_killed: count_of(events, |e: LogEvent| is_kill(e)) as u32,
        successful_kills: count_of(events, |e: LogEvent| is_successful_kill(e)) as u32,
        threats_detected: count_of(events, |e: LogEvent| e is ThreatDetected) as u32,
        scans_performed: count_of(events, |e: LogEvent| e is ScanCompleted) as u32,
        config_changes: count_of(events, |e: LogEvent| e is ConfigurationChanged) as u32,
    }
}

proof fn lemma_filter_step(events: Seq<LogEvent>, i: int, pred: spec_fn(LogEvent) -> bool)
    requires
        0 <= i < events.len(),
    ensures
        events.take(i + 1).filter(pred) == if pred(events[i]) {
            events.take(i).filter(pred).push(events[i])
        } else {
            events.take(i).filter(pred)
        },
{
    reveal(Seq::filter);
    assert(events.take(i + 1).drop_last() == events.take(i));
    assert(events.take(i + 1).last() == events[i]);
}

proof fn lemma_filter_front(events: Seq<LogEvent>, i: int, pred: spec_fn(LogEvent) -> bool)
    requires
        0 < i <= events.len(),
    ensures
        events.skip(i - 1).filter(pred).reverse() == if pred(events[i - 1]) {
            events.skip(i).filter(pred).reverse().push(events[i - 1])
        } else {
            events.skip(i).filter(pred).reverse()
        },
{
    let head = seq![events[i - 1]];
    let tail = events.skip(i);
    assert(events.skip(i - 1) == head + tail);
    Seq::filter_distributes_over_add(head, tail, pred);
    reveal_with_fuel(Seq::filter, 2);
    assert(head.drop_last() == Seq::<LogEvent>::empty());
    assert(head.last() == events[i - 1]);
    let fh = head.filter(pred);
    let ft = tail.filter(pred);
    if pred(events[i - 1]) {
        assert(fh == seq![events[i - 1]]);
        assert((fh + ft).reverse() =~= ft.reverse().push(events[i - 1]));
    } else {
        assert(fh == Seq::<LogEvent>::empty());
        assert(fh + ft =~= ft);
    }
}

/// Whether no event of the sequence is about process `pid`.
pub open spec fn none_about(events: Seq<LogEvent>, pid: u32) -> bool {
    forall|i: int| 0 <= i < events.len() ==> (#[trigger] events[i]).subject() != Some(pid)
}

/// The audit log in memory.
pub struct Logger {
    config: LoggingConfig,
    in_memory_logs: VecDeque<LogEvent>,
    last_timestamp: u64,
    logged_total: u64,
}

impl Logger {
    /// The events in memory, the oldest first.
    pub closed spec fn events(self) -> Seq<LogEvent> {
        self.in_memory_logs@
    }

    /// The latest instant that an event was logged at, the events that have left the
    /// ring included.
    pub closed spec fn last_timestamp(self) -> u64 {
        self.last_timestamp
    }

    pub closed spec fn config(self) -> LoggingConfig {
        self.config
    }

    /// How many events were logged over the life of the log, those that have left the
    /// ring included; the count stops at the largest number it can hold.
    pub closed spec fn logged_total(self) -> u64 {
        self.logged_total
    }

    /// The events in memory as the contracts speak of them.
    pub open spec fn model(self) -> Seq<EventModel> {
        models(self.events())
    }

    /// The ring holds 10,000 events at most, no event is earlier than the one before
    /// it, and none is later than the latest instant on record.
    pub open spec fn wf(self) -> bool {
        &&& self.events().len() <= MAX_MEMORY_LOGS
        &&& non_decreasing(self.events())
        &&& forall|i: int|
            0 <= i < self.events().len() ==> (#[trigger] self.events()[i]).timestamp()
                <= self.last_timestamp()
    }

    /// An empty log.
    pub fn new(config: &LoggingConfig) -> (l: Logger)
        ensures
            l.wf(),
            l.events().len() == 0,
            l.last_timestamp() == 0,
            l.logged_total() == 0,
            l.config() == *config,
    {
        Logger {
            config: config.clone(),
            in_memory_logs: VecDeque::new(),
            last_timestamp: 0,
            logged_total: 0,
        }
    }

    /// The instant that an event handed in with `timestamp` is logged at: no earlier
    /// than the latest one on record.
    pub open spec fn stamp(self, timestamp: u64) -> u64 {
        if timestamp < self.last_timestamp() {
            self.last_timestamp()
        } else {
            timestamp
        }
    }

    /// Appends an event and hands back a copy of it as it was logged. An event that
    /// carries an earlier instant than the latest on record is logged at that latest
    /// instant. Where the ring is full the oldest event leaves.
    pub fn log_event(&mut self, event: LogEvent) -> (logged: LogEvent)
        requires
            old(self).wf(),
        ensures
            final(self).wf(),
            final(self).config() == old(self).config(),
            logged == event.at(old(self).stamp(event.timestamp())),
            final(self).last_timestamp() == logged.timestamp(),
            final(self).events() == newest(old(self).events().push(logged), MAX_MEMORY_LOGS as nat),
            final(self).model() == ring_after(old(self).model(), old(self).last_timestamp(), event@),
            final(self).logged_total() == if old(self).logged_total() < u64::MAX {
                (old(self).logged_total() + 1) as u64
            } else {
                old(self).logged_total()
            },
            final(self).last_timestamp() == stamp_after(
                old(self).last_timestamp(),
                event.timestamp(),
            ),
            forall|pid: u32|
                none_about(old(self).events(), pid) && event.subject() != Some(pid) ==> none_about(
                    #[trigger] final(self).events(),
                    pid,
                ),
    {
        let given = event.get_event_timestamp();
        let instant = if given < self.last_timestamp {
            self.last_timestamp
        } else {
            given
        };
        let stored = event.with_timestamp(instant);
        let copy = stored.clone();
        let ghost before = self.in_memory_logs@;
        self.in_memory_logs.push_back(stored);
        self.last_timestamp = instant;
        if self.logged_total < u64::MAX {
            self.logged_total = self.logged_total + 1;
        }
        assert(non_decreasing(before.push(copy))) by {
            assert forall|i: int, j: int| 0 <= i <= j < before.len() + 1 implies (
            #[trigger] before.push(copy)[i]).timestamp() <= (#[trigger] before.push(
                copy,
            )[j]).timestamp() by {
                if j < before.len() {
                    assert(before[i].timestamp() <= before[j].timestamp());
                } else if i < before.len() {
                    assert(before[i].timestamp() <= old(self).last_timestamp());
                }
            }
        }
        if self.in_memory_logs.len() > MAX_MEMORY_LOGS {
            self.in_memory_logs.pop_front();
            assert(self.in_memory_logs@ == before.push(copy).skip(1));
        }
        assert(self.model() =~= ring_after(old(self).model(), old(self).last_timestamp(), event@));
        assert forall|pid: u32|
            none_about(before, pid) && event.subject() != Some(pid) implies none_about(
            #[trigger] self.in_memory_logs@,
            pid,
        ) by {
            let now = self.in_memory_logs@;
            let all = before.push(copy);
            assert forall|i: int| 0 <= i < now.len() implies (#[trigger] now[i]).subject() != Some(
                pid,
            ) by {
                let k = if now.len() == all.len() {
                    i
                } else {
                    i + 1
                };
                assert(now[i] == all[k]);
                if k < before.len() {
                    assert(all[k] == before[k]);
                }
            }
        }
        copy
    }

    /// How many events were logged over the life of the log.
    pub fn total_logged(&self) -> (n: u64)
        ensures
            n == self.logged_total(),
    {
        self.logged_total
    }

    /// The configuration that the log was made with.
    pub fn settings(&self) -> (c: &LoggingConfig)
        ensures
            *c == self.config(),
    {
        &self.config
    }

    /// How many events are in memory.
    pub fn len(&self) -> (n: usize)
        ensures
            n == self.events().len(),
    {
        self.in_memory_logs.len()
    }

    /// The last `limit` events, the oldest of them first.
    pub fn get_recent_logs(&self, limit: u32) -> (out: Vec<LogEvent>)
        ensures
            out@ == newest(self.events(), limit as nat),
    {
        let n = self.in_memory_logs.len();
        let start: usize = if n > limit as usize {
            n - limit as usize
        } else {
            0
        };
        let mut out: Vec<LogEvent> = Vec::new();
        let mut i: usize = start;
        while i < n
            invariant
                start <= i <= n,
                n == self.in_memory_logs@.len(),
                out@ == self.in_memory_logs@.subrange(start as int, i as int),
            decreases n - i,
        {
            out.push(self.in_memory_logs[i].clone());
            assert(self.in_memory_logs@.subrange(start as int, i + 1)
                == self.in_memory_logs@.subrange(start as int, i as int).push(
                self.in_memory_logs@[i as int],
            ));
            i += 1;
        }
        assert(self.in_memory_logs@.subrange(start as int, n as int) == self.in_memory_logs@.skip(
            start as int,
        ));
        assert(self.in_memory_logs@.skip(0) == self.in_memory_logs@);
        out
    }

    /// The events of the kind that `event_type` names, the newest first, `limit` of them
    /// at most; none where the name stands for no kind.
    pub fn get_logs_by_type(&self, event_type: &str, limit: u32) -> (out: Vec<LogEvent>)
        ensures
            out@ == match kind_named(event_type@) {
                Some(kind) => newest_of_kind(self.events(), kind, limit as nat),
                None => Seq::empty(),
            },
    {
        match parse_kind(event_type) {
            Some(kind) => self.logs_of_kind(kind, limit),
            None => Vec::new(),
        }
    }

    /// The events of one kind, the newest first, `limit` of them at most.
    pub fn logs_of_kind(&self, kind: EventKind, limit: u32) -> (out: Vec<LogEvent>)
        ensures
            out@ == newest_of_kind(self.events(), kind, limit as nat),
    {
        let ghost events = self.in_memory_logs@;
        let ghost pred = |e: LogEvent| e.kind() == kind;
        let mut out: Vec<LogEvent> = Vec::new();
        let mut i: usize = self.in_memory_logs.len();
        assert(events.skip(i as int).filter(pred) == Seq::<LogEvent>::empty()) by {
            reveal(Seq::filter);
            assert(events.skip(i as int).len() == 0);
        }
        while i > 0 && out.len() < limit as usize
            invariant
                i <= events.len(),
                events == self.in_memory_logs@,
                pred == |e: LogEvent| e.kind() == kind,
                out@ == events.skip(i as int).filter(pred).reverse(),
                out@.len() <= limit,
            decreases i,
        {
            proof {
                lemma_filter_front(events, i as int, pred);
            }
            i -= 1;
            let event = &self.in_memory_logs[i];
            if event.event_kind() == kind {
                out.push(event.clone());
            }
        }
        proof {
            let rest = events.take(i as int);
            let seen = events.skip(i as int);
            assert(events == rest + seen);
            Seq::filter_distributes_over_add(rest, seen, pred);
            let all = events.filter(pred).reverse();
            assert(all =~= seen.filter(pred).reverse() + rest.filter(pred).reverse());
            if i == 0 {
                assert(rest.filter(pred) == Seq::<LogEvent>::empty()) by {
                    reveal(Seq::filter);
                }
                assert(all =~= out@);
            } else {
                assert(out@.len() == limit);
                assert(all.take(limit as int) =~= out@);
            }
        }
        out
    }

    /// The events logged from `start_time` to `end_time`, both included, the oldest
    /// first.
    pub fn get_logs_by_timerange(&self, start_time: u64, end_time: u64) -> (out: Vec<LogEvent>)
        ensures
            out@ == within(self.events(), start_time, end_time),
    {
        let ghost events = self.in_memory_logs@;
        let ghost pred = |e: LogEvent| start_time <= e.timestamp() <= end_time;
        let mut out: Vec<LogEvent> = Vec::new();
        let mut i: usize = 0;
        assert(events.take(0).filter(pred) == Seq::<LogEvent>::empty()) by {
            reveal(Seq::filter);
        }
        while i < self.in_memory_logs.len()
            invariant
                i <= events.len(),
                events == self.in_memory_logs@,
                pred == |e: LogEvent| start_time <= e.timestamp() <= end_time,
                out@ == events.take(i as int).filter(pred),
            decreases events.len() - i,
        {
            proof {
                lemma_filter_step(events, i as int, pred);
            }
            let event = &self.in_memory_logs[i];
            let t = event.get_event_timestamp();
            if start_time <= t && t <= end_time {
                out.push(event.clone());
            }
            i += 1;
        }
        assert(events.take(events.len() as int) == events);
        out
    }

    /// Empties the ring. The latest instant on record stays, so that later events are
    /// logged no earlier than those dropped.
    pub fn clear_logs(&mut self)
        requires
            old(self).wf(),
        ensures
            final(self).wf(),
            final(self).events().len() == 0,
            final(self).last_timestamp() == old(self).last_timestamp(),
            final(self).logged_total() == old(self).logged_total(),
            final(self).config() == old(self).config(),
    {
        self.in_memory_logs.clear();
    }

    /// The counts over the events in memory.
    pub fn get_log_stats(&self) -> (stats: LogStats)
        requires
            self.wf(),
        ensures
            stats == stats_of(self.events()),
    {
        let ghost events = self.in_memory_logs@;
        let ghost p_kill = |e: LogEvent| is_kill(e);
        let ghost p_ok = |e: LogEvent| is_successful_kill(e);
        let ghost p_threat = |e: LogEvent| e is ThreatDetected;
        let ghost p_scan = |e: LogEvent| e is ScanCompleted;
        let ghost p_config = |e: LogEvent| e is ConfigurationChanged;
        let mut stats = LogStats::default();
        let mut i: usize = 0;
        proof {
            reveal(Seq::filter);
            assert(events.take(0).len() == 0);
        }
        while i < self.in_memory_logs.len()
            invariant
                i <= events.len() <= MAX_MEMORY_LOGS,
                events == self.in_memory_logs@,
                p_kill == |e: LogEvent| is_kill(e),
                p_ok == |e: LogEvent| is_successful_kill(e),
                p_threat == |e: LogEvent| e is ThreatDetected,
                p_scan == |e: LogEvent| e is ScanCompleted,
                p_config == |e: LogEvent| e is ConfigurationChanged,
                stats.processes_killed == count_of(events.take(i as int), p_kill) <= i,
                stats.successful_kills == count_of(events.take(i as int), p_ok) <= i,
                stats.threats_detected == count_of(events.take(i as int), p_threat) <= i,
                stats.scans_performed == count_of(events.take(i as int), p_scan) <= i,
                stats.config_changes == count_of(events.take(i as int), p_config) <= i,
            decreases events.len() - i,
        {
            proof {
                lemma_filter_step(events, i as int, p_kill);
                lemma_filter_step(events, i as int, p_ok);
                lemma_filter_step(events, i as int, p_threat);
                lemma_filter_step(events, i as int, p_scan);
                lemma_filter_step(events, i as int, p_config);
            }
            match &self.in_memory_logs[i] {
                LogEvent::ProcessKilled { success, .. } => {
                    stats.processes_killed += 1;
                    if *success {
                        stats.successful_kills += 1;
                    }
                },
                LogEvent::ThreatDetected { .. } => {
                    stats.threats_detected += 1;
                },
                LogEvent::ScanCompleted { .. } => {
                    stats.scans_performed += 1;
                },
                LogEvent::ConfigurationChanged { .. } => {
                    stats.config_changes += 1;
                },
                _ => {},
            }
            i += 1;
        }
        assert(events.take(events.len() as int) == events);
        stats
    }

    /// The lines of an export of the events in memory, the oldest first, in the text
    /// or the compact form; `None` for JSON, which is not written here.
    pub fn export_logs(&self, format: LogFormat) -> (lines: Option<Vec<String>>)
        ensures
            match lines {
                None => format == LogFormat::Json,
                Some(l) => {
                    &&& format != LogFormat::Json
                    &&& l@.len() == self.events().len()
                    &&& forall|i: int|
                        0 <= i < l@.len() ==> Some((#[trigger] l@[i])@) == formatted(
                            format,
                            self.events()[i],
                        )
                },
            },
    {
        if let LogFormat::Json = format {
            return None;
        }
        let mut lines: Vec<String> = Vec::new();
        let mut i: usize = 0;
        while i < self.in_memory_logs.len()
            invariant
                i <= self.in_memory_logs@.len(),
                format != LogFormat::Json,
                lines@.len() == i,
                forall|k: int|
                    0 <= k < i ==> Some((#[trigger] lines@[k])@) == formatted(
                        format,
                        self.in_memory_logs@[k],
                    ),
            decreases self.in_memory_logs@.len() - i,
        {
            let line = match format {
                LogFormat::Compact => format_compact_log(&self.in_memory_logs[i]),
                _ => format_text_log(&self.in_memory_logs[i]),
            };
            lines.push(line);
            i += 1;
        }
        Some(lines)
    }
}

/// Event monotonicity: of two events in the log, the later one carries no earlier
/// instant than the one before it.
pub proof fn law_event_monotonicity(log: Logger, i: int, j: int)
    requires
        log.wf(),
        0 <= i <= j < log.events().len(),
    ensures
        log.events()[i].timestamp() <= log.events()[j].timestamp(),
        log.events()[j].timestamp() <= log.last_timestamp(),
{
}

/// Ring-buffer bound: the log holds 10,000 events in memory at most, and one more
/// event never makes it hold more.
pub proof fn law_ring_bound(log: Logger, e: EventModel)
    requires
        log.wf(),
    ensures
        log.events().len() <= 10_000,
        log.model().len() <= 10_000,
        ring_after(log.model(), log.last_timestamp(), e).len() <= 10_000,
{
}

} // verus!
