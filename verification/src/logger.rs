//! Log lines and the once-only choice of the log file.
use vstd::prelude::*;
use vstd::string::*;

use crate::lcu::opt_view;
use crate::text::{decimal, push_decimal};

verus! {

/// The severity of a log line.
#[derive(Debug, PartialEq, Eq)]
pub enum LogLevel {
    Info,
    Warn,
    Error,
}

/// The name of a level as written in a log line.
pub open spec fn level_name(level: LogLevel) -> Seq<char> {
    match level {
        LogLevel::Info => "INFO"@,
        LogLevel::Warn => "WARN"@,
        LogLevel::Error => "ERROR"@,
    }
}

/// `[{ts_ms}] {LEVEL} {message}` and a line feed.
pub open spec fn log_line(ts_ms: u128, level: LogLevel, message: Seq<char>) -> Seq<char> {
    "["@ + decimal(ts_ms as nat) + "] "@ + level_name(level) + " "@ + message + "\n"@
}

/// The line written for `message` at level `level`, `ts_ms` milliseconds
/// after the Unix epoch.
pub fn write_line(level: LogLevel, ts_ms: u128, message: &str) -> (r: String)
    ensures
        r@ == log_line(ts_ms, level, message@),
{
    let mut r = "[".to_owned();
    push_decimal(&mut r, ts_ms);
    r.append("] ");
    match level {
        LogLevel::Info => r.append("INFO"),
        LogLevel::Warn => r.append("WARN"),
        LogLevel::Error => r.append("ERROR"),
    }
    r.append(" ");
    r.append(message);
    r.append("\n");
    r
}

/// The line for an informational message.
pub fn info(ts_ms: u128, message: &str) -> (r: String)
    ensures
        r@ == log_line(ts_ms, LogLevel::Info, message@),
{
    write_line(LogLevel::Info, ts_ms, message)
}

/// The line for a warning.
pub fn warn(ts_ms: u128, message: &str) -> (r: String)
    ensures
        r@ == log_line(ts_ms, LogLevel::Warn, message@),
{
    write_line(LogLevel::Warn, ts_ms, message)
}

/// The line for an error.
pub fn error(ts_ms: u128, message: &str) -> (r: String)
    ensures
        r@ == log_line(ts_ms, LogLevel::Error, message@),
{
    write_line(LogLevel::Error, ts_ms, message)
}

/// Whether a console copy of the line goes to standard error (errors) or
/// standard output (the rest).
pub fn goes_to_stderr(level: &LogLevel) -> (r: bool)
    ensures
        r == (*level is Error),
{
    match level {
        LogLevel::Error => true,
        _ => false,
    }
}

/// The log file chosen for the process, set once.
pub struct LogSlot {
    path: Option<String>,
}

impl View for LogSlot {
    type V = Option<Seq<char>>;

    closed spec fn view(&self) -> Option<Seq<char>> {
        opt_view(self.path)
    }
}

impl LogSlot {
    /// No log file yet.
    pub fn new() -> (r: LogSlot)
        ensures
            r@ is None,
    {
        LogSlot { path: None }
    }
}

/// The slot after `init` with `path`: the first path given stays.
pub open spec fn after_init(slot: Option<Seq<char>>, path: Seq<char>) -> Option<Seq<char>> {
    match slot {
        Some(p) => Some(p),
        None => Some(path),
    }
}

/// Records the log file `path` unless one was already recorded (logging
/// is initialised once; later calls change nothing).
pub fn init(slot: &mut LogSlot, path: String)
    ensures
        final(slot)@ == after_init(old(slot)@, path@),
{
    if slot.path.is_none() {
        slot.path = Some(path);
    }
}

/// The path of the log file, once logging is initialised.
pub fn log_path(slot: &LogSlot) -> (r: Option<String>)
    ensures
        opt_view(r) == slot@,
{
    match &slot.path {
        Some(p) => Some(p.clone()),
        None => None,
    }
}

/// Initialisation happens once: whatever later calls pass, the log file is
/// the first one recorded, and it is the one reported.
pub proof fn law_init_once(slot: Option<Seq<char>>, p1: Seq<char>, p2: Seq<char>)
    ensures
        after_init(after_init(slot, p1), p2) == after_init(slot, p1),
        slot is None ==> after_init(after_init(slot, p1), p2) == Some(p1),
{
}

} // verus!
