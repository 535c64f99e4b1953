//! Terminal colours for log levels.
//!
//! The log formatter itself lives outside this crate; it asks here which
//! ANSI colour code each severity gets.

use vstd::prelude::*;

verus! {

/// A log severity, from most to least severe.
#[derive(Clone, Copy, PartialEq, Eq, Structural, Debug)]
pub enum LogLevel {
    Error,
    Warn,
    Info,
    Debug,
    Trace,
}

/// The ANSI colour escape for a severity: red, yellow, green, cyan and
/// magenta, in order of decreasing severity.
pub fn get_level_color(level: LogLevel) -> (c: &'static str)
    ensures
        level is Error ==> c@ == "\x1B[31m"@,
        level is Warn ==> c@ == "\x1B[33m"@,
        level is Info ==> c@ == "\x1B[32m"@,
        level is Debug ==> c@ == "\x1B[36m"@,
        level is Trace ==> c@ == "\x1B[35m"@,
{
    match level {
        LogLevel::Error => "\x1B[31m",
        LogLevel::Warn => "\x1B[33m",
        LogLevel::Info => "\x1B[32m",
        LogLevel::Debug => "\x1B[36m",
        LogLevel::Trace => "\x1B[35m",
    }
}

} // verus!
