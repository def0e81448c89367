//! The in-memory buffer of recent log lines shown by the admin UI: the
//! newest `MAX_LOG_ENTRIES` entries, oldest first.
use vstd::prelude::*;

verus! {

/// How many entries the buffer keeps.
pub const MAX_LOG_ENTRIES: usize = 500;

/// Severity of a log line.
#[derive(Debug, Clone, Copy, PartialEq, Eq, Structural)]
pub enum LogLevel {
    Error,
    Warn,
    Info,
    Debug,
    Trace,
}

/// The upper-case name of a level.
pub open spec fn spec_level_name(level: LogLevel) -> Seq<char> {
    match level {
        LogLevel::Error => "ERROR"@,
        LogLevel::Warn => "WARN"@,
        LogLevel::Info => "INFO"@,
        LogLevel::Debug => "DEBUG"@,
        LogLevel::Trace => "TRACE"@,
    }
}

/// The upper-case name of a level.
pub fn level_to_str(level: LogLevel) -> (s: &'static str)
    ensures
        s@ == spec_level_name(level),
{
    match level {
        LogLevel::Error => "ERROR",
        LogLevel::Warn => "WARN",
        LogLevel::Info => "INFO",
        LogLevel::Debug => "DEBUG",
        LogLevel::Trace => "TRACE",
    }
}

/// One captured log line.
#[derive(Debug)]
pub struct LogEntry {
    /// Local wall-clock time, `HH:MM:SS.mmm`.
    pub timestamp: String,
    pub level: String,
    pub message: String,
}

/// Abstract value of a log line.
pub struct LogEntryView {
    pub timestamp: Seq<char>,
    pub level: Seq<char>,
    pub message: Seq<char>,
}

impl View for LogEntry {
    type V = LogEntryView;

    open spec fn view(&self) -> LogEntryView {
        LogEntryView { timestamp: self.timestamp@, level: self.level@, message: self.message@ }
    }
}

impl LogEntry {
    /// A copy of the entry.
    pub fn duplicate(&self) -> (e: LogEntry)
        ensures
            e@ == self@,
    {
        LogEntry { timestamp: self.timestamp.clone(), level: self.level.clone(), message: self.message.clone() }
    }
}

/// Whether `t` has the shape `HH:MM:SS.mmm`: twelve characters, ASCII
/// digits but for the two colons and the dot.
pub open spec fn spec_is_time_of_day(t: Seq<char>) -> bool {
    &&& t.len() == 12
    &&& t[2] == ':'
    &&& t[5] == ':'
    &&& t[8] == '.'
    &&& forall|i: int|
        0 <= i < 12 && i != 2 && i != 5 && i != 8 ==> '0' <= #[trigger] t[i] && t[i] <= '9'
}

/// The local wall-clock time as `HH:MM:SS.mmm`, from
/// `chrono::Local::now().format("%H:%M:%S%.3f")`: hours, minutes and
/// seconds are written as two zero-padded digits and the milliseconds as a
/// dot and three digits. Which time is read is not promised: it depends on
/// the clock and the machine's time zone.
#[verifier::external_body]
fn local_time_of_day() -> (t: String)
    ensures
        spec_is_time_of_day(t@),
{
    chrono::Local::now().format("%H:%M:%S%.3f").to_string()
}

/// The buffer: at most `MAX_LOG_ENTRIES` entries, oldest first.
pub struct LogBuffer {
    entries: Vec<LogEntry>,
}

/// Appending to a full buffer drops the oldest entry.
pub open spec fn spec_append(s: Seq<LogEntryView>, e: LogEntryView) -> Seq<LogEntryView> {
    if s.len() >= MAX_LOG_ENTRIES {
        s.drop_first().push(e)
    } else {
        s.push(e)
    }
}

impl View for LogBuffer {
    type V = Seq<LogEntryView>;

    closed spec fn view(&self) -> Seq<LogEntryView> {
        self.entries@.map_values(|e: LogEntry| e@)
    }
}

impl LogBuffer {
    /// At most `MAX_LOG_ENTRIES` entries.
    pub open spec fn wf(&self) -> bool {
        self@.len() <= MAX_LOG_ENTRIES
    }

    /// An empty buffer.
    pub fn new() -> (b: Self)
        ensures
            b.wf(),
            b@ == Seq::<LogEntryView>::empty(),
    {
        let b = LogBuffer { entries: Vec::new() };
        assert(b@ =~= Seq::<LogEntryView>::empty());
        b
    }

    /// Append a line stamped `timestamp`; a full buffer drops its oldest line.
    pub fn push_at(&mut self, timestamp: String, level: LogLevel, message: &str)
        requires
            old(self).wf(),
        ensures
            final(self).wf(),
            final(self)@ == spec_append(
                old(self)@,
                LogEntryView { timestamp: timestamp@, level: spec_level_name(level), message: message@ },
            ),
    {
        let ghost before = self.entries@;
        let entry = LogEntry { timestamp, level: level_to_str(level).to_owned(), message: message.to_owned() };
        if self.entries.len() >= MAX_LOG_ENTRIES {
            let _ = self.entries.remove(0);
            assert(self.entries@ =~= before.drop_first());
            assert(before.drop_first().map_values(|e: LogEntry| e@) =~= before.map_values(|e: LogEntry| e@).drop_first());
        }
        let ghost mid = self.entries@;
        self.entries.push(entry);
        assert(self.entries@.map_values(|e: LogEntry| e@) =~= mid.map_values(|e: LogEntry| e@).push(entry@));
    }

    /// Append a line stamped with the local time of day.
    pub fn push(&mut self, level: LogLevel, message: &str)
        requires
            old(self).wf(),
        ensures
            final(self).wf(),
            exists|t: Seq<char>|
                spec_is_time_of_day(t) && final(self)@ == spec_append(
                    old(self)@,
                    LogEntryView { timestamp: t, level: spec_level_name(level), message: message@ },
                ),
    {
        let t = local_time_of_day();
        self.push_at(t, level, message);
    }

    /// A copy of the buffered lines, oldest first.
    pub fn entries(&self) -> (v: Vec<LogEntry>)
        ensures
            v@.map_values(|e: LogEntry| e@) == self@,
    {
        let mut out: Vec<LogEntry> = Vec::new();
        let mut i: usize = 0;
        while i < self.entries.len()
            invariant
                i <= self.entries@.len(),
                out@.map_values(|e: LogEntry| e@) == self.entries@.take(i as int).map_values(|e: LogEntry| e@),
            decreases self.entries@.len() - i,
        {
            let e = self.entries[i].duplicate();
            let ghost prev = out@;
            out.push(e);
            assert(out@.map_values(|e: LogEntry| e@) =~= prev.map_values(|e: LogEntry| e@).push(self.entries@[i as int]@));
            assert(self.entries@.take(i + 1).map_values(|e: LogEntry| e@) =~= self.entries@.take(i as int).map_values(
                |e: LogEntry| e@,
            ).push(self.entries@[i as int]@));
            i = i + 1;
        }
        assert(self.entries@.take(self.entries@.len() as int) == self.entries@);
        out
    }
}

/// The buffer never holds more than `MAX_LOG_ENTRIES` lines, the line
/// just appended is the newest, and only a full buffer loses its oldest
/// line.
pub proof fn lemma_append_keeps_newest(s: Seq<LogEntryView>, e: LogEntryView)
    requires
        s.len() <= MAX_LOG_ENTRIES,
    ensures
        spec_append(s, e).len() <= MAX_LOG_ENTRIES,
        spec_append(s, e).last() == e,
        s.len() < MAX_LOG_ENTRIES ==> spec_append(s, e).drop_last() == s,
        s.len() == MAX_LOG_ENTRIES ==> spec_append(s, e).drop_last() == s.drop_first(),
{
    if s.len() >= MAX_LOG_ENTRIES {
        assert(spec_append(s, e).drop_last() =~= s.drop_first());
    } else {
        assert(spec_append(s, e).drop_last() =~= s);
    }
}

} // verus!
