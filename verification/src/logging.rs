//! Log levels, logging failures, and the rendering of log lines.
//!
//! Writing the lines to their destination is the caller's concern; only
//! the text of a line is computed here.

use vstd::prelude::*;
use vstd::string::StringExecFns;

verus! {

/// The different log levels.
#[derive(Debug, PartialEq, Eq, Structural)]
pub enum LogLevel {
    /// Routine information.
    Info,
    /// Something surprising but survivable.
    Warning,
    /// A failure.
    Error,
}

/// A failure while logging.
#[derive(Debug)]
pub enum LoggingError {
    /// The log destination could not be written; the description says why.
    FileError(String),
}

/// The textual tag of a log level.
pub open spec fn level_tag_spec(level: LogLevel) -> Seq<char> {
    match level {
        LogLevel::Info => "INFO"@,
        LogLevel::Warning => "WARNING"@,
        LogLevel::Error => "ERROR"@,
    }
}

/// The tag a level is rendered with.
pub fn level_tag(level: &LogLevel) -> (r: &'static str)
    ensures
        r@ == level_tag_spec(*level),
{
    match level {
        LogLevel::Info => "INFO",
        LogLevel::Warning => "WARNING",
        LogLevel::Error => "ERROR",
    }
}

/// The structured audit events emitted after a decision is made; the
/// decision itself never depends on whether an event is recorded.
#[derive(Clone, Copy, Debug, PartialEq, Eq, Structural)]
pub enum AuditEvent {
    /// A username/password pair authenticated.
    AuthSuccess,
    /// An authentication attempt was rejected.
    AuthFailure,
    /// A bearer token was minted.
    TokenIssued,
    /// A bearer token was revoked.
    TokenRevoked,
    /// A new key generation became Active.
    KeyRotated,
    /// A ciphertext was refused.
    DecryptFailed,
}

/// The textual tag of an audit event.
pub open spec fn audit_tag_spec(event: AuditEvent) -> Seq<char> {
    match event {
        AuditEvent::AuthSuccess => "AuthSuccess"@,
        AuditEvent::AuthFailure => "AuthFailure"@,
        AuditEvent::TokenIssued => "TokenIssued"@,
        AuditEvent::TokenRevoked => "TokenRevoked"@,
        AuditEvent::KeyRotated => "KeyRotated"@,
        AuditEvent::DecryptFailed => "DecryptFailed"@,
    }
}

/// The tag an audit event is rendered with.
pub fn audit_tag(event: &AuditEvent) -> (r: &'static str)
    ensures
        r@ == audit_tag_spec(*event),
{
    match event {
        AuditEvent::AuthSuccess => "AuthSuccess",
        AuditEvent::AuthFailure => "AuthFailure",
        AuditEvent::TokenIssued => "TokenIssued",
        AuditEvent::TokenRevoked => "TokenRevoked",
        AuditEvent::KeyRotated => "KeyRotated",
        AuditEvent::DecryptFailed => "DecryptFailed",
    }
}

/// Renders one log line: the level's tag, a separating colon and space,
/// then the message.
pub fn format_log_line(level: &LogLevel, message: &str) -> (r: String)
    ensures
        r@ == level_tag_spec(*level) + ": "@ + message@,
{
    let mut line = String::from_str(level_tag(level));
    line.append(": ");
    line.append(message);
    line
}

} // verus!
