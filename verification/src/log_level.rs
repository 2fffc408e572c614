//! The most verbose log level recorded: debug output only in debug builds.

use vstd::prelude::*;

verus! {

/// A log level, most verbose first.
#[derive(Clone, Copy, Debug, PartialEq, Eq, Structural)]
pub enum LogLevel {
    Trace,
    Debug,
    Info,
    Warn,
    Error,
}

/// The most verbose level recorded: `Debug` in a debug build, `Info` in a
/// release build (so verbose per-row tracing costs nothing in production).
pub fn max_level(debug_build: bool) -> (l: LogLevel)
    ensures
        l == (if debug_build {
            LogLevel::Debug
        } else {
            LogLevel::Info
        }),
{
    if debug_build {
        LogLevel::Debug
    } else {
        LogLevel::Info
    }
}

} // verus!
