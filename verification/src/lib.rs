//! A minimal, allocation-free logging abstraction.
//!
//! The heart of the library is the [`ULog`] capability: anything that can
//! record one leveled logging statement through the `log_begin` /
//! `log_str` / `log_format` / `log_end` protocol.  Recorders compose
//! statically: [`common::ChainLogger`] fans every call out to two inner
//! recorders, [`common::MinLevelLogger`] suppresses calls below a severity
//! threshold, and [`common::StubLogger`] ignores everything.
//!
//! Every recorder carries a mathematical model (its [`View`]): the trait
//! contract pins each of the four operations to a per-type `step` transition
//! on that model, and the laws in [`common`] are proved from those
//! transitions alone.

use vstd::prelude::*;

pub mod common;

verus! {

/// The severity of one logging statement, ascending:
/// `Debug < Info < Warning < Error < Critical`.
#[derive(Clone, Copy, Debug, PartialEq, Eq, Structural, PartialOrd, Ord, Hash)]
pub enum ULogLevel {
    Debug,
    Info,
    Warning,
    Error,
    Critical,
}

impl ULogLevel {
    /// The position of this level in the ascending severity order.
    pub open spec fn rank(self) -> nat {
        match self {
            ULogLevel::Debug => 0,
            ULogLevel::Info => 1,
            ULogLevel::Warning => 2,
            ULogLevel::Error => 3,
            ULogLevel::Critical => 4,
        }
    }

    /// The long uppercase rendering of this level.
    pub open spec fn spec_name(self) -> Seq<char> {
        match self {
            ULogLevel::Debug => "DEBUG"@,
            ULogLevel::Info => "INFO"@,
            ULogLevel::Warning => "WARN"@,
            ULogLevel::Error => "ERROR"@,
            ULogLevel::Critical => "CRITICAL"@,
        }
    }

    /// The 3-character uppercase rendering of this level.
    pub open spec fn spec_short_name(self) -> Seq<char> {
        match self {
            ULogLevel::Debug => "DBG"@,
            ULogLevel::Info => "INF"@,
            ULogLevel::Warning => "WRN"@,
            ULogLevel::Error => "ERR"@,
            ULogLevel::Critical => "CRT"@,
        }
    }

    /// The rank as a machine integer, for severity comparisons.
    pub fn rank_val(&self) -> (r: u8)
        ensures
            r as nat == self.rank(),
    {
        match self {
            ULogLevel::Debug => 0,
            ULogLevel::Info => 1,
            ULogLevel::Warning => 2,
            ULogLevel::Error => 3,
            ULogLevel::Critical => 4,
        }
    }

    /// True exactly when `self` is at or above `other` in the severity order.
    pub fn at_least(&self, other: &ULogLevel) -> (r: bool)
        ensures
            r == (self.rank() >= other.rank()),
    {
        self.rank_val() >= other.rank_val()
    }

    /// Converts the level name to an uppercase string.
    pub fn as_str(&self) -> (r: &'static str)
        ensures
            r@ == self.spec_name(),
    {
        match self {
            ULogLevel::Debug => "DEBUG",
            ULogLevel::Info => "INFO",
            ULogLevel::Warning => "WARN",
            ULogLevel::Error => "ERROR",
            ULogLevel::Critical => "CRITICAL",
        }
    }

    /// Converts the level name to a short, 3-character uppercase string.
    pub fn as_short_str(&self) -> (r: &'static str)
        ensures
            r@ == self.spec_short_name(),
            r@.len() == 3,
    {
        proof {
            reveal_strlit("DBG");
            reveal_strlit("INF");
            reveal_strlit("WRN");
            reveal_strlit("ERR");
            reveal_strlit("CRT");
        }
        match self {
            ULogLevel::Debug => "DBG",
            ULogLevel::Info => "INF",
            ULogLevel::Warning => "WRN",
            ULogLevel::Error => "ERR",
            ULogLevel::Critical => "CRT",
        }
    }

    /// A list of all possible log levels, in ascending order; useful for testing.
    ///
    /// Severity ordering law: the levels come back in the canonical order, so
    /// any earlier entry ranks strictly below any later one.
    pub fn all_levels() -> (r: [ULogLevel; 5])
        ensures
            r@ =~= seq![
                ULogLevel::Debug,
                ULogLevel::Info,
                ULogLevel::Warning,
                ULogLevel::Error,
                ULogLevel::Critical,
            ],
            forall|i: int, j: int| 0 <= i < j < 5 ==> r@[i].rank() < r@[j].rank(),
    {
        [
            ULogLevel::Debug,
            ULogLevel::Info,
            ULogLevel::Warning,
            ULogLevel::Error,
            ULogLevel::Critical,
        ]
    }
}

/// Contains data to be used when logging: the severity of the statement and
/// the source location it was issued from.  Constructed once per statement
/// and passed by reference through `log_begin` / `log_str` / `log_format` /
/// `log_end`, never mutated.
#[non_exhaustive]
#[derive(Clone, Debug)]
pub struct ULogData {
    pub level: ULogLevel,
    pub line: u32,
    pub file: &'static str,
}

impl ULogData {
    pub fn new(level: ULogLevel, line: u32, file: &'static str) -> (r: Self)
        ensures
            r.level == level,
            r.line == line,
            r.file == file,
    {
        ULogData { level, line, file }
    }
}

/// One recorder operation, as seen by the model: which of the four protocol
/// calls was made, with the statement's metadata and the call's payload.
pub enum LogEvent {
    Begin { data: ULogData },
    Str { data: ULogData, text: Seq<char> },
    KeyValue { data: ULogData, key: Seq<char>, value: Seq<char> },
    End { data: ULogData },
}

impl LogEvent {
    /// The severity of the statement this operation belongs to.
    pub open spec fn level(self) -> ULogLevel {
        match self {
            LogEvent::Begin { data } => data.level,
            LogEvent::Str { data, .. } => data.level,
            LogEvent::KeyValue { data, .. } => data.level,
            LogEvent::End { data, .. } => data.level,
        }
    }
}

/// A trait that all loggers should implement.
///
/// A logging statement is framed as `log_begin`, then zero or more `log_str`
/// / `log_format` calls in call-site order, then `log_end`, all against one
/// recorder value and all carrying the same [`ULogData`].
///
/// Each implementor abstracts its observable state to a model (its [`View`])
/// and says how one observed operation transforms that model ([`ULog::step`]);
/// the four operations are then pinned to exactly that transition.  No
/// operation can fail: a recorder that cannot record must resolve the
/// problem internally.
pub trait ULog: View + Sized {
    /// The model after this recorder observes the operation `ev`, given the
    /// model `m` before.
    spec fn step(m: Self::V, ev: LogEvent) -> Self::V;

    /// Logs a string of characters, alongside the level in `log_data`.
    fn log_str(&mut self, log_data: &ULogData, string: &str)
        ensures
            final(self)@ == Self::step(
                old(self)@,
                LogEvent::Str { data: *log_data, text: string@ },
            ),
    ;

    /// Logs a key-value pair; `value` carries the textual rendering of the
    /// value being reported.  Implementations are free to ignore it.
    fn log_format(&mut self, log_data: &ULogData, key: &str, value: &str)
        ensures
            final(self)@ == Self::step(
                old(self)@,
                LogEvent::KeyValue { data: *log_data, key: key@, value: value@ },
            ),
    ;

    /// Begins a logging statement, called once before a chain of `log_str`
    /// and `log_format`.
    fn log_begin(&mut self, log_data: &ULogData)
        ensures
            final(self)@ == Self::step(old(self)@, LogEvent::Begin { data: *log_data }),
    ;

    /// Ends a logging statement, called once after a chain of `log_str` and
    /// `log_format`.
    fn log_end(&mut self, log_data: &ULogData)
        ensures
            final(self)@ == Self::step(old(self)@, LogEvent::End { data: *log_data }),
    ;
}

/// The model an observer of type `L` reaches after observing the whole
/// operation sequence `evs`, starting from the model `m`.
pub open spec fn run_events<L: ULog>(m: L::V, evs: Seq<LogEvent>) -> L::V
    decreases evs.len(),
{
    if evs.len() == 0 {
        m
    } else {
        run_events::<L>(L::step(m, evs[0]), evs.drop_first())
    }
}

} // verus!
