//! The application log: levels, the lines written to the log files, the
//! messages kept for the terminal on exit, and which old log files are
//! collected. Writing files and reading the clock is the application's
//! part; every decision is taken here.
use vstd::prelude::*;

use crate::text::{chars_of, ends_with, ends_with_chars, starts_with, starts_with_chars};

verus! {

/// The severity of a log message: `Info` < `Warning` < `Error`.
#[derive(Debug, Clone, Copy, PartialEq, Eq, Structural)]
pub enum LogLevel {
    Info,
    Warning,
    Error,
}

pub open spec fn level_rank(l: LogLevel) -> int {
    match l {
        LogLevel::Info => 0,
        LogLevel::Warning => 1,
        LogLevel::Error => 2,
    }
}

pub open spec fn level_name(l: LogLevel) -> Seq<char> {
    match l {
        LogLevel::Info => "INFO"@,
        LogLevel::Warning => "WARN"@,
        LogLevel::Error => "ERROR"@,
    }
}

impl Default for LogLevel {
    fn default() -> (r: Self)
        ensures
            r == LogLevel::Info,
    {
        LogLevel::Info
    }
}

impl LogLevel {
    /// The level's name in log lines.
    pub fn name(&self) -> (r: &'static str)
        ensures
            r@ == level_name(*self),
    {
        match self {
            LogLevel::Info => "INFO",
            LogLevel::Warning => "WARN",
            LogLevel::Error => "ERROR",
        }
    }

    /// Whether `self` is at most as severe as `other`.
    pub fn at_most(&self, other: LogLevel) -> (r: bool)
        ensures
            r == (level_rank(*self) <= level_rank(other)),
    {
        let a: u8 = match self {
            LogLevel::Info => 0,
            LogLevel::Warning => 1,
            LogLevel::Error => 2,
        };
        let b: u8 = match other {
            LogLevel::Info => 0,
            LogLevel::Warning => 1,
            LogLevel::Error => 2,
        };
        a <= b
    }
}

/// A logged message with its level.
#[derive(Debug, PartialEq, Eq)]
pub struct LogMessage {
    level: LogLevel,
    message: String,
}

impl LogMessage {
    /// A message stamped with the time it was logged: `[<time>] <text>`.
    pub fn new(level: LogLevel, timestamp: &str, text: &str) -> (r: Self)
        ensures
            r.spec_level() == level,
            r.spec_message() == "["@ + timestamp@ + "] "@ + text@,
    {
        let mut message = String::from_str("[");
        message.append(timestamp);
        message.append("] ");
        message.append(text);
        LogMessage { level, message }
    }

    pub closed spec fn spec_level(&self) -> LogLevel {
        self.level
    }

    pub closed spec fn spec_message(&self) -> Seq<char> {
        self.message@
    }

    pub fn level(&self) -> (r: LogLevel)
        ensures
            r == self.spec_level(),
    {
        self.level
    }

    /// The line written for the message: `[<LEVEL>] <message>`.
    pub fn line(&self) -> (r: String)
        ensures
            r@ == "["@ + level_name(self.spec_level()) + "] "@ + self.spec_message(),
    {
        let mut s = String::from_str("[");
        s.append(self.level.name());
        s.append("] ");
        s.append(self.message.as_str());
        s
    }
}

/// What the logger keeps for the terminal: the messages at or above the
/// print level, in order.
pub struct LogBuffer {
    logs_to_print: Vec<LogMessage>,
    print_level: LogLevel,
}

impl LogBuffer {
    pub fn new(print_level: LogLevel) -> (r: Self)
        ensures
            r.kept().len() == 0,
            r.level() == print_level,
    {
        LogBuffer { logs_to_print: Vec::new(), print_level }
    }

    pub closed spec fn kept(&self) -> Seq<(LogLevel, Seq<char>)> {
        self.logs_to_print@.map_values(|m: LogMessage| (m.spec_level(), m.spec_message()))
    }

    pub closed spec fn level(&self) -> LogLevel {
        self.print_level
    }

    /// Keeps a message for the terminal if it is at least as severe as the
    /// print level. Returns whether it was kept.
    pub fn record(&mut self, log: LogMessage) -> (r: bool)
        ensures
            r == (level_rank(old(self).level()) <= level_rank(log.spec_level())),
            final(self).level() == old(self).level(),
            r ==> final(self).kept() == old(self).kept().push(
                (log.spec_level(), log.spec_message()),
            ),
            !r ==> final(self).kept() == old(self).kept(),
    {
        if self.print_level.at_most(log.level) {
            let ghost before = self.logs_to_print@;
            let ghost entry = (log.spec_level(), log.spec_message());
            self.logs_to_print.push(log);
            assert(self.logs_to_print@.map_values(|m: LogMessage| (m.spec_level(), m.spec_message()))
                =~= before.map_values(|m: LogMessage| (m.spec_level(), m.spec_message())).push(
                entry,
            ));
            true
        } else {
            false
        }
    }

    /// The lines printed on exit: every kept message, then where the full
    /// logs are.
    pub fn flush_lines(&self, log_filepath: &str, latest_log_filepath: &str) -> (r: Vec<String>)
        ensures
            r@.len() == self.kept().len() + 1,
            forall|i: int|
                0 <= i < self.kept().len() ==> (#[trigger] r@[i])@ == "["@ + level_name(
                    self.kept()[i].0,
                ) + "] "@ + self.kept()[i].1,
            r@[self.kept().len() as int]@ == "Check the full log file: "@ + log_filepath@
                + " or "@ + latest_log_filepath@,
    {
        let mut out: Vec<String> = Vec::new();
        let mut i: usize = 0;
        while i < self.logs_to_print.len()
            invariant
                i <= self.logs_to_print@.len(),
                out@.len() == i,
                self.kept() == self.logs_to_print@.map_values(
                    |m: LogMessage| (m.spec_level(), m.spec_message()),
                ),
                forall|k: int|
                    0 <= k < i ==> (#[trigger] out@[k])@ == "["@ + level_name(self.kept()[k].0)
                        + "] "@ + self.kept()[k].1,
            decreases self.logs_to_print.len() - i,
        {
            out.push(self.logs_to_print[i].line());
            i += 1;
        }
        let mut last = String::from_str("Check the full log file: ");
        last.append(log_filepath);
        last.append(" or ");
        last.append(latest_log_filepath);
        out.push(last);
        out
    }
}

/// The name of the log file of a session started at `timestamp`.
pub open spec fn session_log_name(timestamp: Seq<char>) -> Seq<char> {
    "patch-hub_"@ + timestamp + ".log"@
}

pub fn session_log_file_name(timestamp: &str) -> (r: String)
    ensures
        r@ == session_log_name(timestamp@),
{
    let mut s = String::from_str("patch-hub_");
    s.append(timestamp);
    s.append(".log");
    s
}

/// A file in the logs directory is collected when it is a session log
/// (`patch-hub_*.log`) whose age, in whole days, exceeds `max_age`. A
/// `max_age` of zero collects nothing; a file whose age is unknown stays.
pub open spec fn collectable(name: Seq<char>, age_secs: Option<u64>, max_age: nat) -> bool {
    max_age > 0 && ends_with(name, ".log"@) && starts_with(name, "patch-hub_"@) && match age_secs {
        Some(a) => a / 86400 > max_age,
        None => false,
    }
}

pub fn is_collectable(name: &str, age_secs: Option<u64>, max_age: usize) -> (r: bool)
    ensures
        r == collectable(name@, age_secs, max_age as nat),
{
    if max_age == 0 {
        return false;
    }
    let n = chars_of(name);
    let suffix = chars_of(".log");
    let prefix = chars_of("patch-hub_");
    if !ends_with_chars(n.as_slice(), suffix.as_slice()) || !starts_with_chars(
        n.as_slice(),
        prefix.as_slice(),
    ) {
        return false;
    }
    match age_secs {
        Some(a) => {
            let days = a / 60 / 60 / 24;
            assert(a / 60 / 60 / 24 == a / 86400) by (nonlinear_arith);
            days as u128 > max_age as u128
        },
        None => false,
    }
}

/// The indexes of the files to remove among the logs directory's entries
/// (name and age in seconds), in order.
pub fn collect_garbage(entries: &Vec<(String, Option<u64>)>, max_age: usize) -> (r: Vec<usize>)
    ensures
        forall|k: int| 0 <= k < r@.len() ==> (#[trigger] r@[k]) < entries@.len(),
        forall|k: int|
            0 <= k < r@.len() ==> collectable(
                entries@[r@[k] as int].0@,
                entries@[r@[k] as int].1,
                max_age as nat,
            ),
        forall|i: int|
            0 <= i < entries@.len() && collectable(entries@[i].0@, entries@[i].1, max_age as nat)
                ==> r@.contains(i as usize),
        forall|a: int, b: int| 0 <= a < b < r@.len() ==> r@[a] < r@[b],
{
    let mut out: Vec<usize> = Vec::new();
    if max_age == 0 {
        return out;
    }
    let mut i: usize = 0;
    while i < entries.len()
        invariant
            i <= entries@.len(),
            forall|k: int| 0 <= k < out@.len() ==> (#[trigger] out@[k]) < i,
            forall|k: int|
                0 <= k < out@.len() ==> collectable(
                    entries@[out@[k] as int].0@,
                    entries@[out@[k] as int].1,
                    max_age as nat,
                ),
            forall|j: int|
                0 <= j < i && collectable(entries@[j].0@, entries@[j].1, max_age as nat)
                    ==> out@.contains(j as usize),
            forall|a: int, b: int| 0 <= a < b < out@.len() ==> out@[a] < out@[b],
        decreases entries.len() - i,
    {
        let (ref name, age) = entries[i];
        if is_collectable(name.as_str(), age, max_age) {
            let ghost before = out@;
            out.push(i);
            proof {
                assert forall|j: int|
                    0 <= j < i + 1 && collectable(
                        entries@[j].0@,
                        entries@[j].1,
                        max_age as nat,
                    ) implies out@.contains(j as usize) by {
                    if j < i {
                        let k = choose|k: int| 0 <= k < before.len() && before[k] == j as usize;
                        assert(out@[k] == j as usize);
                    } else {
                        assert(out@[before.len() as int] == i);
                    }
                }
            }
        }
        i += 1;
    }
    out
}

/// Why the logger could not start.
#[derive(Debug, Clone, PartialEq, Eq)]
pub enum LoggerInitError {
    PathErr(String),
    IOErr(String),
}

impl LoggerInitError {
    /// The underlying error's message.
    pub fn message(&self) -> (r: &str)
        ensures
            match self {
                LoggerInitError::PathErr(e) => r@ == e@,
                LoggerInitError::IOErr(e) => r@ == e@,
            },
    {
        match self {
            LoggerInitError::PathErr(e) => e.as_str(),
            LoggerInitError::IOErr(e) => e.as_str(),
        }
    }
}

/// Logs the value's debug text.
#[derive(Debug, Clone, Default, PartialEq, Eq)]
pub struct Dbg<D>(pub D);

/// Logs an info message; shown on exit only at the `Info` print level.
#[derive(Debug, Clone, Default, PartialEq, Eq)]
pub struct Info<M>(pub M);

/// Logs a warning; shown on exit at the `Warning` print level or lower.
#[derive(Debug, Clone, Default, PartialEq, Eq)]
pub struct Warn<M>(pub M);

/// Logs an error; always shown on exit.
#[derive(Debug, Clone, Default, PartialEq, Eq)]
pub struct Error<M>(pub M);

/// Logs the error of a result as an info message, and hands the result on.
#[derive(Debug, PartialEq, Eq)]
pub struct InfoOnError<T, E>(pub Result<T, E>);

/// Logs the error of a result as a warning, and hands the result on.
#[derive(Debug, PartialEq, Eq)]
pub struct WarnOnError<T, E>(pub Result<T, E>);

/// Logs the error of a result as an error, and hands the result on.
#[derive(Debug, PartialEq, Eq)]
pub struct ErrorOnError<T, E>(pub Result<T, E>);

/// Finishes the logger: the kept messages are printed.
#[derive(Debug, Clone, Copy, Default, PartialEq, Eq)]
pub struct Flush;

/// Deletes session logs older than the given number of days.
#[derive(Debug, Clone, Copy, Default, PartialEq, Eq)]
pub struct CollectGarbage(pub usize);

} // verus!
