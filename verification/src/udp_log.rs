//! Syslog (RFC 5424) framing for log records sent over UDP.
//!
//! Installing the logger and owning the socket is the caller's business;
//! this module decides the priority of a record and the text of the
//! datagram.

use vstd::prelude::*;
use crate::text::{append_decimal, decimal};

verus! {

/// Severity of a log record.
#[derive(Debug, Clone, Copy, PartialEq, Eq)]
pub enum LogLevel {
    Error,
    Warn,
    Info,
    Debug,
    Trace,
}

/// The syslog severity of a level: error 3, warning 4, info 6, and 7 for
/// debug and trace.
pub open spec fn severity(level: LogLevel) -> u8 {
    match level {
        LogLevel::Error => 3u8,
        LogLevel::Warn => 4u8,
        LogLevel::Info => 6u8,
        LogLevel::Debug => 7u8,
        LogLevel::Trace => 7u8,
    }
}

/// The more serious a level, the lower its syslog severity: error below
/// warning below info below debug, and trace shares debug's severity; every
/// priority is that of the user-level facility (8 to 15).
pub proof fn severity_order(level: LogLevel)
    ensures
        severity(LogLevel::Error) < severity(LogLevel::Warn) < severity(LogLevel::Info) < severity(
            LogLevel::Debug,
        ),
        severity(LogLevel::Trace) == severity(LogLevel::Debug),
        (8 + severity(level)) / 8 == 1,
{
}

/// The syslog priority of a record: facility 1 (user-level) times 8 plus
/// the severity.
pub fn syslog_priority(level: LogLevel) -> (r: u8)
    ensures
        r == 8 + severity(level),
{
    let severity: u8 = match level {
        LogLevel::Error => 3,
        LogLevel::Warn => 4,
        LogLevel::Info => 6,
        LogLevel::Debug => 7,
        LogLevel::Trace => 7,
    };
    8 + severity
}

/// The datagram text of a record:
/// `<PRI>1 - HOSTNAME APP-NAME - - - MSG`, with no timestamp, process id
/// or message id.
pub fn syslog_message(level: LogLevel, hostname: &str, module: &str, message: &str) -> (r: String)
    ensures
        r@ == "<"@ + decimal((8 + severity(level)) as nat) + ">1 - "@ + hostname@ + " "@ + module@
            + " - - - "@ + message@,
{
    let pri = syslog_priority(level);
    let mut r = String::from_str("<");
    append_decimal(&mut r, pri as u64);
    r.append(">1 - ");
    r.append(hostname);
    r.append(" ");
    r.append(module);
    r.append(" - - - ");
    r.append(message);
    r
}

} // verus!
