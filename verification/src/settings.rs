//! Plain configuration values consumed by the surrounding process.

use vstd::prelude::*;

verus! {

/// How the process formats its log output.
#[derive(Clone, Copy, Debug, PartialEq, Eq, Structural)]
pub enum LogFormat {
    /// Pretty logs for debugging.
    Console,
    /// JSON logs.
    Json,
}

impl Default for LogFormat {
    fn default() -> (r: LogFormat)
        ensures
            r == LogFormat::Console,
    {
        LogFormat::Console
    }
}

/// How verbose the process logs.
#[derive(Clone, Copy, Debug, PartialEq, Eq, Structural)]
pub enum LogLevel {
    Off,
    Trace,
    Debug,
    Info,
    Warn,
    Error,
}

impl Default for LogLevel {
    fn default() -> (r: LogLevel)
        ensures
            r == LogLevel::Debug,
    {
        LogLevel::Debug
    }
}

} // verus!
