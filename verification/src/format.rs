//! The lines of the log file: the text form and the compact form of an event.
//!
//! The JSON form is the business of a serializer and is not made here.

use vstd::prelude::*;
use vstd::string::*;

use crate::config::LogFormat;
use crate::logger::LogEvent;
use crate::text::{decimal_text, digit_char, push_decimal};

verus! {

/// The last second that is written as a calendar date: the end of the year 9999.
pub const MAX_UTC_SECS: u64 = 253_402_300_799;

/// What `chrono` writes for the instant `secs` seconds after the Unix epoch, in UTC,
/// under the format `%Y-%m-%d %H:%M:%S UTC`.
pub uninterp spec fn utc_datetime_text(secs: u64) -> Seq<char>;

/// Calls `chrono::DateTime::from_timestamp` and formats the instant with
/// `DateTime::format`. Up to the end of the year 9999 the instant exists and the format
/// applies to it.
#[verifier::external_body]
fn format_utc(secs: u64) -> (s: String)
    requires
        secs <= MAX_UTC_SECS,
    ensures
        s@ == utc_datetime_text(secs),
{
    match chrono::DateTime::from_timestamp(secs as i64, 0) {
        Some(instant) => instant.format("%Y-%m-%d %H:%M:%S UTC").to_string(),
        None => String::new(),
    }
}

/// The whole seconds of an instant in milliseconds, held to the last second that is
/// written as a calendar date.
pub open spec fn utc_secs(timestamp: u64) -> u64 {
    if timestamp / 1000 > MAX_UTC_SECS {
        MAX_UTC_SECS
    } else {
        timestamp / 1000
    }
}

/// A number below 100 as two digits.
pub open spec fn two_digits(n: nat) -> Seq<char> {
    seq![digit_char(n / 10), digit_char(n % 10)]
}

/// The time of day of an instant in milliseconds, in UTC, as `HH:MM:SS`.
pub open spec fn clock_text(timestamp: u64) -> Seq<char> {
    let second_of_day = ((timestamp / 1000) % 86_400) as nat;
    two_digits(second_of_day / 3600) + seq![':'] + two_digits((second_of_day / 60) % 60) + seq![
        ':',
    ] + two_digits(second_of_day % 60)
}

pub open spec fn bool_text(b: bool) -> Seq<char> {
    if b {
        "true"@
    } else {
        "false"@
    }
}

/// `prefix` followed by what the text form says of an event after the instant: the
/// name of the kind, a dash, and the fields.
pub open spec fn with_text_body(prefix: Seq<char>, e: LogEvent) -> Seq<char> {
    match e {
        LogEvent::ProcessKilled { pid, process_name, success, reason, .. } => prefix
            + "PROCESS_KILLED - PID: "@ + decimal_text(pid as nat) + ", Process: "@
            + process_name@ + ", Success: "@ + bool_text(success) + ", Reason: "@ + reason@,
        LogEvent::ThreatDetected { pid, process_name, rule, action_taken, .. } => prefix
            + "THREAT_DETECTED - PID: "@ + decimal_text(pid as nat) + ", Process: "@
            + process_name@ + ", Rule: "@ + rule@ + ", Action: "@ + action_taken@,
        LogEvent::ScanStarted { scan_type, .. } => prefix + "SCAN_STARTED - Type: "@ + scan_type@,
        LogEvent::ScanCompleted {
            processes_scanned,
            threats_found,
            processes_killed,
            duration_ms,
            ..
        } => prefix + "SCAN_COMPLETED - Scanned: "@ + decimal_text(processes_scanned as nat)
            + ", Threats: "@ + decimal_text(threats_found as nat) + ", Killed: "@ + decimal_text(
            processes_killed as nat,
        ) + ", Duration: "@ + decimal_text(duration_ms as nat) + "ms"@,
        LogEvent::ConfigurationChanged { changed_by, changes, .. } => prefix
            + "CONFIG_CHANGED - By: "@ + changed_by@ + ", Changes: "@ + changes@,
        LogEvent::SystemEvent { event_type, message, severity, .. } => prefix
            + "SYSTEM_EVENT - Type: "@ + event_type@ + ", Severity: "@ + severity@
            + ", Message: "@ + message@,
        LogEvent::ApplicationStarted { version, is_admin, .. } => prefix
            + "APP_STARTED - Version: "@ + version@ + ", Admin: "@ + bool_text(is_admin),
        LogEvent::ApplicationStopped { reason, .. } => prefix + "APP_STOPPED - Reason: "@
            + reason@,
    }
}

/// The text form of an event: the instant as `[YYYY-MM-DD HH:MM:SS UTC]`, then the kind
/// and the fields.
pub open spec fn text_line(e: LogEvent) -> Seq<char> {
    with_text_body("["@ + utc_datetime_text(utc_secs(e.timestamp())) + "] "@, e)
}

/// The compact form of an event: the time of day, a short name of the kind, and the
/// fields that matter most.
pub open spec fn compact_line(e: LogEvent) -> Seq<char> {
    let clock = clock_text(e.timestamp());
    match e {
        LogEvent::ProcessKilled { pid, success, .. } => clock + " KILL "@ + decimal_text(
            pid as nat,
        ) + " "@ + (if success {
            "OK"@
        } else {
            "FAIL"@
        }),
        LogEvent::ThreatDetected { pid, rule, .. } => clock + " THREAT "@ + decimal_text(
            pid as nat,
        ) + " "@ + rule@,
        LogEvent::ScanStarted { scan_type, .. } => clock + " SCAN_START "@ + scan_type@,
        LogEvent::ScanCompleted { processes_scanned, threats_found, duration_ms, .. } => clock
            + " SCAN_END "@ + decimal_text(threats_found as nat) + "/"@ + decimal_text(
            processes_scanned as nat,
        ) + " "@ + decimal_text(duration_ms as nat) + "ms"@,
        LogEvent::ConfigurationChanged { changed_by, .. } => clock + " CONFIG "@ + changed_by@,
        LogEvent::SystemEvent { event_type, severity, .. } => clock + " SYS "@ + event_type@
            + " "@ + severity@,
        LogEvent::ApplicationStarted { version, is_admin, .. } => clock + " START "@ + version@
            + " "@ + (if is_admin {
            "ADMIN"@
        } else {
            "USER"@
        }),
        LogEvent::ApplicationStopped { .. } => clock + " STOP"@,
    }
}

/// The line of an event in a format; the JSON form is not made here.
pub open spec fn formatted(format: LogFormat, e: LogEvent) -> Option<Seq<char>> {
    match format {
        LogFormat::Json => None,
        LogFormat::Text => Some(text_line(e)),
        LogFormat::Compact => Some(compact_line(e)),
    }
}

fn push_bool(out: &mut String, b: bool)
    ensures
        final(out)@ == old(out)@ + bool_text(b),
{
    if b {
        out.append("true");
    } else {
        out.append("false");
    }
}

fn push_two_digits(out: &mut String, n: u64)
    requires
        n < 100,
    ensures
        final(out)@ == old(out)@ + two_digits(n as nat),
{
    let tens: char = (48u8 + (n / 10) as u8) as char;
    let ones: char = (48u8 + (n % 10) as u8) as char;
    out.push(tens);
    out.push(ones);
    assert(out@ =~= old(out)@ + two_digits(n as nat));
}

/// The time of day of an instant, as `HH:MM:SS`.
pub fn clock(timestamp: u64) -> (out: String)
    ensures
        out@ == clock_text(timestamp),
{
    let second_of_day: u64 = (timestamp / 1000) % 86_400;
    let mut out = String::new();
    push_two_digits(&mut out, second_of_day / 3600);
    out.push(':');
    push_two_digits(&mut out, (second_of_day / 60) % 60);
    out.push(':');
    push_two_digits(&mut out, second_of_day % 60);
    assert(out@ =~= clock_text(timestamp));
    out
}

/// Appends what the text form says of an event after the instant.
pub fn push_text_body(out: &mut String, event: &LogEvent)
    ensures
        final(out)@ == with_text_body(old(out)@, *event),
{
    match event {
        LogEvent::ProcessKilled { pid, process_name, timestamp: _, success, reason } => {
            out.append("PROCESS_KILLED - PID: ");
            push_decimal(out, *pid as u64);
            out.append(", Process: ");
            out.append(process_name.as_str());
            out.append(", Success: ");
            push_bool(out, *success);
            out.append(", Reason: ");
            out.append(reason.as_str());
        },
        LogEvent::ThreatDetected { pid, process_name, rule, timestamp: _, action_taken } => {
            out.append("THREAT_DETECTED - PID: ");
            push_decimal(out, *pid as u64);
            out.append(", Process: ");
            out.append(process_name.as_str());
            out.append(", Rule: ");
            out.append(rule.as_str());
            out.append(", Action: ");
            out.append(action_taken.as_str());
        },
        LogEvent::ScanStarted { timestamp: _, scan_type } => {
            out.append("SCAN_STARTED - Type: ");
            out.append(scan_type.as_str());
        },
        LogEvent::ScanCompleted {
            timestamp: _,
            processes_scanned,
            threats_found,
            processes_killed,
            duration_ms,
        } => {
            out.append("SCAN_COMPLETED - Scanned: ");
            push_decimal(out, *processes_scanned as u64);
            out.append(", Threats: ");
            push_decimal(out, *threats_found as u64);
            out.append(", Killed: ");
            push_decimal(out, *processes_killed as u64);
            out.append(", Duration: ");
            push_decimal(out, *duration_ms);
            out.append("ms");
        },
        LogEvent::ConfigurationChanged { timestamp: _, changed_by, changes } => {
            out.append("CONFIG_CHANGED - By: ");
            out.append(changed_by.as_str());
            out.append(", Changes: ");
            out.append(changes.as_str());
        },
        LogEvent::SystemEvent { timestamp: _, event_type, message, severity } => {
            out.append("SYSTEM_EVENT - Type: ");
            out.append(event_type.as_str());
            out.append(", Severity: ");
            out.append(severity.as_str());
            out.append(", Message: ");
            out.append(message.as_str());
        },
        LogEvent::ApplicationStarted { timestamp: _, version, is_admin } => {
            out.append("APP_STARTED - Version: ");
            out.append(version.as_str());
            out.append(", Admin: ");
            push_bool(out, *is_admin);
        },
        LogEvent::ApplicationStopped { timestamp: _, reason } => {
            out.append("APP_STOPPED - Reason: ");
            out.append(reason.as_str());
        },
    }
}

/// The text form of an event.
pub fn format_text_log(event: &LogEvent) -> (line: String)
    ensures
        line@ == text_line(*event),
{
    let timestamp = event.get_event_timestamp();
    let secs: u64 = if timestamp / 1000 > MAX_UTC_SECS {
        MAX_UTC_SECS
    } else {
        timestamp / 1000
    };
    let mut line = String::from_str("[");
    let stamp = format_utc(secs);
    line.append(stamp.as_str());
    line.append("] ");
    push_text_body(&mut line, event);
    line
}

/// The compact form of an event.
pub fn format_compact_log(event: &LogEvent) -> (line: String)
    ensures
        line@ == compact_line(*event),
{
    let mut line = clock(event.get_event_timestamp());
    match event {
        LogEvent::ProcessKilled { pid, success, .. } => {
            line.append(" KILL ");
            push_decimal(&mut line, *pid as u64);
            line.append(" ");
            if *success {
                line.append("OK");
            } else {
                line.append("FAIL");
            }
        },
        LogEvent::ThreatDetected { pid, rule, .. } => {
            line.append(" THREAT ");
            push_decimal(&mut line, *pid as u64);
            line.append(" ");
            line.append(rule.as_str());
        },
        LogEvent::ScanStarted { scan_type, .. } => {
            line.append(" SCAN_START ");
            line.append(scan_type.as_str());
        },
        LogEvent::ScanCompleted { processes_scanned, threats_found, duration_ms, .. } => {
            line.append(" SCAN_END ");
            push_decimal(&mut line, *threats_found as u64);
            line.append("/");
            push_decimal(&mut line, *processes_scanned as u64);
            line.append(" ");
            push_decimal(&mut line, *duration_ms);
            line.append("ms");
        },
        LogEvent::ConfigurationChanged { changed_by, .. } => {
            line.append(" CONFIG ");
            line.append(changed_by.as_str());
        },
        LogEvent::SystemEvent { event_type, severity, .. } => {
            line.append(" SYS ");
            line.append(event_type.as_str());
            line.append(" ");
            line.append(severity.as_str());
        },
        LogEvent::ApplicationStarted { version, is_admin, .. } => {
            line.append(" START ");
            line.append(version.as_str());
            line.append(" ");
            if *is_admin {
                line.append("ADMIN");
            } else {
                line.append("USER");
            }
        },
        LogEvent::ApplicationStopped { .. } => {
            line.append(" STOP");
        },
    }
    line
}

/// The line of an event in a format, or `None` for JSON.
pub fn format_log_event(format: LogFormat, event: &LogEvent) -> (line: Option<String>)
    ensures
        match formatted(format, *event) {
            Some(text) => line matches Some(l) && l@ == text,
            None => line is None,
        },
{
    match format {
        LogFormat::Json => None,
        LogFormat::Text => Some(format_text_log(event)),
        LogFormat::Compact => Some(format_compact_log(event)),
    }
}

} // verus!
