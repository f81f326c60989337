//! Logging policy as an explicit configuration value: the level ladder, the
//! level derived from verbosity flags, and the rendering of one log line.
//! The caller owns the configuration and does the printing.

use vstd::prelude::*;

use crate::chars::u64_text;

verus! {

/// Severity ladder, most severe first.
#[derive(Debug, Clone, Copy, PartialEq, Eq, Structural)]
pub enum LogLevel {
    Error,
    Info,
    Debug,
    Trace,
}

/// The rank of a level: lower ranks are more severe and always emitted.
pub open spec fn level_rank(l: LogLevel) -> int {
    match l {
        LogLevel::Error => 0,
        LogLevel::Info => 1,
        LogLevel::Debug => 2,
        LogLevel::Trace => 3,
    }
}

impl LogLevel {
    /// The level's display tag.
    pub fn as_str(&self) -> (r: &'static str)
        ensures
            (*self == LogLevel::Error) ==> r@ == "ERROR"@,
            (*self == LogLevel::Info) ==> r@ == "INFO"@,
            (*self == LogLevel::Debug) ==> r@ == "DEBUG"@,
            (*self == LogLevel::Trace) ==> r@ == "TRACE"@,
    {
        match self {
            LogLevel::Error => "ERROR",
            LogLevel::Info => "INFO",
            LogLevel::Debug => "DEBUG",
            LogLevel::Trace => "TRACE",
        }
    }

    fn rank(&self) -> (r: u8)
        ensures
            r as int == level_rank(*self),
    {
        match self {
            LogLevel::Error => 0,
            LogLevel::Info => 1,
            LogLevel::Debug => 2,
            LogLevel::Trace => 3,
        }
    }
}

/// The level derived from the CLI verbosity flags: quiet forces `Error`;
/// otherwise each `-v` steps `Info` towards `Trace`.
pub open spec fn spec_derive_level(verbose: u8, quiet: bool) -> LogLevel {
    if quiet {
        LogLevel::Error
    } else if verbose == 0 {
        LogLevel::Info
    } else if verbose == 1 {
        LogLevel::Debug
    } else {
        LogLevel::Trace
    }
}

/// Derive the logging level from the verbosity flags.
pub fn derive_level(verbose: u8, quiet: bool) -> (r: LogLevel)
    ensures
        r == spec_derive_level(verbose, quiet),
{
    if quiet {
        return LogLevel::Error;
    }
    match verbose {
        0 => LogLevel::Info,
        1 => LogLevel::Debug,
        _ => LogLevel::Trace,
    }
}

/// Logging configuration, passed explicitly to whatever reports.
#[derive(Debug, Clone, Copy, PartialEq, Eq, Structural)]
pub struct LogConfig {
    pub level: LogLevel,
}

/// A fresh configuration at the given level.
pub fn init_logging(level: LogLevel) -> (r: LogConfig)
    ensures
        r.level == level,
{
    LogConfig { level }
}

/// Replace the configured level.
pub fn set_log_level(config: &mut LogConfig, level: LogLevel)
    ensures
        final(config).level == level,
{
    config.level = level;
}

/// The currently configured level.
pub fn current_log_level(config: &LogConfig) -> (r: LogLevel)
    ensures
        r == config.level,
{
    config.level
}

/// Whether a message at `level` is emitted under the configuration.
pub open spec fn spec_should_emit(config: LogConfig, level: LogLevel) -> bool {
    level_rank(level) <= level_rank(config.level)
}

/// One rendered log line: `[TAG][timestamp] message`.
pub open spec fn spec_log_line(level: LogLevel, timestamp_ms: int, msg: Seq<char>) -> Seq<char> {
    seq!['['] + match level {
        LogLevel::Error => seq!['E', 'R', 'R', 'O', 'R'],
        LogLevel::Info => seq!['I', 'N', 'F', 'O'],
        LogLevel::Debug => seq!['D', 'E', 'B', 'U', 'G'],
        LogLevel::Trace => seq!['T', 'R', 'A', 'C', 'E'],
    } + seq![']', '['] + u64_text(timestamp_ms) + seq![']', ' '] + msg
}

/// Render one log line if its level passes the configuration: the line
/// reads `[TAG][timestamp] message`, and nothing is rendered for a level
/// below the configured one.
pub fn log(config: &LogConfig, level: LogLevel, timestamp_ms: u64, msg: &str) -> (r: Option<
    String,
>)
    ensures
        match r {
            Some(line) => spec_should_emit(*config, level) && line@ == spec_log_line(
                level,
                timestamp_ms as int,
                msg@,
            ),
            None => !spec_should_emit(*config, level),
        },
{
    if level.rank() > config.level.rank() {
        return None;
    }
    let mut line = String::new();
    line.append("[");
    line.append(level.as_str());
    line.append("][");
    let ts = crate::chars::u64_to_string(timestamp_ms);
    line.append(ts.as_str());
    line.append("] ");
    line.append(msg);
    proof {
        reveal_strlit("[");
        reveal_strlit("][");
        reveal_strlit("] ");
        reveal_strlit("ERROR");
        reveal_strlit("INFO");
        reveal_strlit("DEBUG");
        reveal_strlit("TRACE");
        assert("["@ =~= seq!['[']);
        assert("]["@ =~= seq![']', '[']);
        assert("] "@ =~= seq![']', ' ']);
        assert("ERROR"@ =~= seq!['E', 'R', 'R', 'O', 'R']);
        assert("INFO"@ =~= seq!['I', 'N', 'F', 'O']);
        assert("DEBUG"@ =~= seq!['D', 'E', 'B', 'U', 'G']);
        assert("TRACE"@ =~= seq!['T', 'R', 'A', 'C', 'E']);
        assert(line@ =~= spec_log_line(level, timestamp_ms as int, msg@));
    }
    Some(line)
}

/// Render an error-level line if it passes the configuration.
pub fn error(config: &LogConfig, timestamp_ms: u64, msg: &str) -> (r: Option<String>)
    ensures
        match r {
            Some(line) => spec_should_emit(*config, LogLevel::Error) && line@ == spec_log_line(
                LogLevel::Error,
                timestamp_ms as int,
                msg@,
            ),
            None => !spec_should_emit(*config, LogLevel::Error),
        },
{
    log(config, LogLevel::Error, timestamp_ms, msg)
}

/// Render an info-level line if it passes the configuration.
pub fn info(config: &LogConfig, timestamp_ms: u64, msg: &str) -> (r: Option<String>)
    ensures
        match r {
            Some(line) => spec_should_emit(*config, LogLevel::Info) && line@ == spec_log_line(
                LogLevel::Info,
                timestamp_ms as int,
                msg@,
            ),
            None => !spec_should_emit(*config, LogLevel::Info),
        },
{
    log(config, LogLevel::Info, timestamp_ms, msg)
}

/// Render a debug-level line if it passes the configuration.
pub fn debug(config: &LogConfig, timestamp_ms: u64, msg: &str) -> (r: Option<String>)
    ensures
        match r {
            Some(line) => spec_should_emit(*config, LogLevel::Debug) && line@ == spec_log_line(
                LogLevel::Debug,
                timestamp_ms as int,
                msg@,
            ),
            None => !spec_should_emit(*config, LogLevel::Debug),
        },
{
    log(config, LogLevel::Debug, timestamp_ms, msg)
}

/// Render a trace-level line if it passes the configuration.
pub fn trace(config: &LogConfig, timestamp_ms: u64, msg: &str) -> (r: Option<String>)
    ensures
        match r {
            Some(line) => spec_should_emit(*config, LogLevel::Trace) && line@ == spec_log_line(
                LogLevel::Trace,
                timestamp_ms as int,
                msg@,
            ),
            None => !spec_should_emit(*config, LogLevel::Trace),
        },
{
    log(config, LogLevel::Trace, timestamp_ms, msg)
}

/// Progress through a run of known or unknown total size.
#[derive(Debug, Clone, Copy, PartialEq, Eq, Structural)]
pub struct Progress {
    pub total: Option<u64>,
    pub current: u64,
}

/// A point-in-time view of progress; the elapsed time is supplied by the
/// caller, who owns the clock.
#[derive(Debug, Clone, Copy, PartialEq, Eq, Structural)]
pub struct ProgressSnapshot {
    pub current: u64,
    pub total: Option<u64>,
    pub elapsed_ms: u64,
}

impl Progress {
    /// Fresh progress at zero.
    pub fn new(total: Option<u64>) -> (r: Progress)
        ensures
            r.total == total,
            r.current == 0,
    {
        Progress { total, current: 0 }
    }

    /// Advance by `delta`, saturating at the maximum count.
    pub fn inc(&mut self, delta: u64)
        ensures
            final(self).total == old(self).total,
            final(self).current == if old(self).current + delta <= u64::MAX {
                old(self).current + delta
            } else {
                u64::MAX as int
            },
    {
        if delta <= u64::MAX - self.current {
            self.current = self.current + delta;
        } else {
            self.current = u64::MAX;
        }
    }

    /// A snapshot with the caller's elapsed time attached.
    pub fn snapshot(&self, elapsed_ms: u64) -> (r: ProgressSnapshot)
        ensures
            r.current == self.current,
            r.total == self.total,
            r.elapsed_ms == elapsed_ms,
    {
        ProgressSnapshot { current: self.current, total: self.total, elapsed_ms }
    }
}

} // verus!
