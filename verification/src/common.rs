//! The common recorders: the no-op stub, the fan-out chain, the severity
//! filter, and an in-memory capturing recorder.

use crate::{run_events, LogEvent, ULog, ULogData, ULogLevel};
use vstd::prelude::*;
use vstd::string::StringExecFns;

verus! {

/// A logger that does not log anything, useful for conditionally turning off logging.
pub struct StubLogger;

impl View for StubLogger {
    type V = ();

    open spec fn view(&self) -> () {
        ()
    }
}

impl ULog for StubLogger {
    /// Observing an operation changes nothing: the stub has no state.
    open spec fn step(m: (), ev: LogEvent) -> () {
        ()
    }

    fn log_str(&mut self, _log_data: &ULogData, _string: &str) {
    }

    fn log_format(&mut self, _log_data: &ULogData, _key: &str, _value: &str) {
    }

    fn log_begin(&mut self, _log_data: &ULogData) {
    }

    fn log_end(&mut self, _log_data: &ULogData) {
    }
}

/// Null recorder law: whatever sequence of operations the stub observes, its
/// observable state does not change (and, being verified, none of its
/// operations can panic).
pub proof fn lemma_stub_observes_nothing(m: (), evs: Seq<LogEvent>)
    ensures
        run_events::<StubLogger>(m, evs) == m,
    decreases evs.len(),
{
    if evs.len() != 0 {
        lemma_stub_observes_nothing(StubLogger::step(m, evs[0]), evs.drop_first());
    }
}

/// Chains or composes two loggers together, forwarding any logging statement
/// to both: first to `parent`, then to `current`.
#[derive(Debug, Clone)]
pub struct ChainLogger<Parent, Current> {
    parent: Parent,
    current: Current,
}

impl<Parent: ULog, Current: ULog> ChainLogger<Parent, Current> {
    /// The first of the two composed recorders.
    pub closed spec fn spec_parent(self) -> Parent {
        self.parent
    }

    /// The second of the two composed recorders.
    pub closed spec fn spec_current(self) -> Current {
        self.current
    }

    pub fn new(parent: Parent, current: Current) -> (r: Self)
        ensures
            r.spec_parent() == parent,
            r.spec_current() == current,
    {
        ChainLogger { parent, current }
    }

    /// Consumes the composition and returns the exact two recorders it was
    /// built from, in construction order.
    pub fn into_inner(self) -> (r: (Parent, Current))
        ensures
            r.0 == self.spec_parent(),
            r.1 == self.spec_current(),
    {
        (self.parent, self.current)
    }
}

impl<Parent: ULog, Current: ULog> View for ChainLogger<Parent, Current> {
    type V = (Parent::V, Current::V);

    open spec fn view(&self) -> (Parent::V, Current::V) {
        (self.spec_parent()@, self.spec_current()@)
    }
}

impl<Parent: ULog, Current: ULog> ULog for ChainLogger<Parent, Current> {
    /// Both inner recorders observe the very same operation.
    open spec fn step(m: (Parent::V, Current::V), ev: LogEvent) -> (Parent::V, Current::V) {
        (Parent::step(m.0, ev), Current::step(m.1, ev))
    }

    fn log_str(&mut self, log_data: &ULogData, string: &str) {
        self.parent.log_str(log_data, string);
        self.current.log_str(log_data, string);
    }

    fn log_format(&mut self, log_data: &ULogData, key: &str, value: &str) {
        self.parent.log_format(log_data, key, value);
        self.current.log_format(log_data, key, value);
    }

    fn log_begin(&mut self, log_data: &ULogData) {
        self.parent.log_begin(log_data);
        self.current.log_begin(log_data);
    }

    fn log_end(&mut self, log_data: &ULogData) {
        self.parent.log_end(log_data);
        self.current.log_end(log_data);
    }
}

/// Fan-out law: a chain built over the models `m.0` and `m.1`, observing any
/// operation sequence `evs`, leaves each side exactly where observing `evs`
/// on its own would have left it — both sides see the identical sequence.
pub proof fn lemma_chain_fans_out<Parent: ULog, Current: ULog>(
    m: (Parent::V, Current::V),
    evs: Seq<LogEvent>,
)
    ensures
        run_events::<ChainLogger<Parent, Current>>(m, evs) == (
            run_events::<Parent>(m.0, evs),
            run_events::<Current>(m.1, evs),
        ),
    decreases evs.len(),
{
    if evs.len() != 0 {
        lemma_chain_fans_out::<Parent, Current>(
            ChainLogger::<Parent, Current>::step(m, evs[0]),
            evs.drop_first(),
        );
    }
}

/// Restricts the logs going to the wrapped logger to those at or above a
/// minimum level threshold.  The check is made anew on every one of the four
/// operations, against the level carried in that call's [`ULogData`].
#[derive(Debug, Clone)]
pub struct MinLevelLogger<Logger> {
    logger: Logger,
    min_level: ULogLevel,
}

impl<Logger: ULog> MinLevelLogger<Logger> {
    /// The wrapped recorder.
    pub closed spec fn spec_logger(self) -> Logger {
        self.logger
    }

    /// The configured threshold.
    pub closed spec fn spec_min_level(self) -> ULogLevel {
        self.min_level
    }

    pub fn new(logger: Logger, min_level: ULogLevel) -> (r: Self)
        ensures
            r.spec_logger() == logger,
            r.spec_min_level() == min_level,
    {
        MinLevelLogger { logger, min_level }
    }

    /// The minimum severity this filter lets through.
    pub fn min_level(&self) -> (r: ULogLevel)
        ensures
            r == self.spec_min_level(),
    {
        self.min_level
    }

    /// Consumes the filter and returns the exact recorder it was built
    /// around.
    pub fn into_inner(self) -> (r: Logger)
        ensures
            r == self.spec_logger(),
    {
        self.logger
    }
}

impl<Logger: ULog> View for MinLevelLogger<Logger> {
    type V = (Logger::V, ULogLevel);

    open spec fn view(&self) -> (Logger::V, ULogLevel) {
        (self.spec_logger()@, self.spec_min_level())
    }
}

impl<Logger: ULog> ULog for MinLevelLogger<Logger> {
    /// The inner recorder observes exactly the operations whose severity is
    /// at or above the threshold; the threshold itself never changes.
    open spec fn step(m: (Logger::V, ULogLevel), ev: LogEvent) -> (Logger::V, ULogLevel) {
        if ev.level().rank() >= m.1.rank() {
            (Logger::step(m.0, ev), m.1)
        } else {
            m
        }
    }

    fn log_str(&mut self, log_data: &ULogData, string: &str) {
        if log_data.level.at_least(&self.min_level) {
            self.logger.log_str(log_data, string);
        }
    }

    fn log_format(&mut self, log_data: &ULogData, key: &str, value: &str) {
        if log_data.level.at_least(&self.min_level) {
            self.logger.log_format(log_data, key, value);
        }
    }

    fn log_begin(&mut self, log_data: &ULogData) {
        if log_data.level.at_least(&self.min_level) {
            self.logger.log_begin(log_data);
        }
    }

    fn log_end(&mut self, log_data: &ULogData) {
        if log_data.level.at_least(&self.min_level) {
            self.logger.log_end(log_data);
        }
    }
}

/// The subsequence of `evs` whose severity is at or above `min`, in order.
pub open spec fn events_at_or_above(evs: Seq<LogEvent>, min: ULogLevel) -> Seq<LogEvent>
    decreases evs.len(),
{
    if evs.len() == 0 {
        Seq::empty()
    } else if evs[0].level().rank() >= min.rank() {
        seq![evs[0]] + events_at_or_above(evs.drop_first(), min)
    } else {
        events_at_or_above(evs.drop_first(), min)
    }
}

/// Filter law: a filter with threshold `m.1` over the inner model `m.0`,
/// observing any operation sequence `evs`, leaves the inner recorder exactly
/// where observing the at-or-above-threshold subsequence on its own would
/// have left it — operations below the threshold reach it not at all, the
/// rest reach it unaltered and in order — and keeps its threshold.
pub proof fn lemma_min_level_filters<Logger: ULog>(m: (Logger::V, ULogLevel), evs: Seq<LogEvent>)
    ensures
        run_events::<MinLevelLogger<Logger>>(m, evs) == (
            run_events::<Logger>(m.0, events_at_or_above(evs, m.1)),
            m.1,
        ),
    decreases evs.len(),
{
    if evs.len() != 0 {
        let rest = evs.drop_first();
        if evs[0].level().rank() >= m.1.rank() {
            lemma_min_level_filters::<Logger>((Logger::step(m.0, evs[0]), m.1), rest);
            let kept = events_at_or_above(evs, m.1);
            assert(kept[0] == evs[0]);
            assert(kept.drop_first() =~= events_at_or_above(rest, m.1));
        } else {
            lemma_min_level_filters::<Logger>(m, rest);
        }
    }
}

/// The line a capturing recorder keeps for one observed operation: the
/// statement's severity, and the operation rendered as text — `__BEGIN__`
/// for `log_begin`, the string itself for `log_str`, `key => value` for
/// `log_format`, and `__END__` for `log_end`.
pub open spec fn captured_entry(ev: LogEvent) -> (ULogLevel, Seq<char>) {
    match ev {
        LogEvent::Begin { data } => (data.level, "__BEGIN__"@),
        LogEvent::Str { data, text } => (data.level, text),
        LogEvent::KeyValue { data, key, value } => (data.level, key + " => "@ + value),
        LogEvent::End { data } => (data.level, "__END__"@),
    }
}

/// A recorder that keeps every operation it observes in memory, as a
/// `(severity, rendered text)` pair per operation, in observation order.
/// Useful for tests and introspection.
pub struct CaptureLogger {
    /// Everything observed so far, oldest first.
    pub records: Vec<(ULogLevel, String)>,
}

impl CaptureLogger {
    /// A capturing recorder that has observed nothing yet.
    pub fn new() -> (r: Self)
        ensures
            r@ =~= Seq::<(ULogLevel, Seq<char>)>::empty(),
    {
        CaptureLogger { records: Vec::new() }
    }
}

impl Default for CaptureLogger {
    fn default() -> (r: Self)
        ensures
            r@ =~= Seq::<(ULogLevel, Seq<char>)>::empty(),
    {
        CaptureLogger::new()
    }
}

impl View for CaptureLogger {
    type V = Seq<(ULogLevel, Seq<char>)>;

    open spec fn view(&self) -> Seq<(ULogLevel, Seq<char>)> {
        self.records@.map(|i: int, p: (ULogLevel, String)| (p.0, p.1@))
    }
}

impl ULog for CaptureLogger {
    /// Every observed operation is appended, rendered, to the log.
    open spec fn step(
        m: Seq<(ULogLevel, Seq<char>)>,
        ev: LogEvent,
    ) -> Seq<(ULogLevel, Seq<char>)> {
        m.push(captured_entry(ev))
    }

    fn log_str(&mut self, log_data: &ULogData, string: &str) {
        let entry = String::from_str(string);
        self.records.push((log_data.level, entry));
        proof {
            assert(self@ =~= Self::step(
                old(self)@,
                LogEvent::Str { data: *log_data, text: string@ },
            ));
        }
    }

    fn log_format(&mut self, log_data: &ULogData, key: &str, value: &str) {
        let mut entry = String::from_str(key);
        entry.append(" => ");
        entry.append(value);
        self.records.push((log_data.level, entry));
        proof {
            assert(self@ =~= Self::step(
                old(self)@,
                LogEvent::KeyValue { data: *log_data, key: key@, value: value@ },
            ));
        }
    }

    fn log_begin(&mut self, log_data: &ULogData) {
        let entry = String::from_str("__BEGIN__");
        self.records.push((log_data.level, entry));
        proof {
            assert(self@ =~= Self::step(old(self)@, LogEvent::Begin { data: *log_data }));
        }
    }

    fn log_end(&mut self, log_data: &ULogData) {
        let entry = String::from_str("__END__");
        self.records.push((log_data.level, entry));
        proof {
            assert(self@ =~= Self::step(old(self)@, LogEvent::End { data: *log_data }));
        }
    }
}

} // verus!
