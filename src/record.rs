use vstd::prelude::*;

verus! {

/// Severity of a record, from the most verbose to the most severe.
#[derive(Clone, Copy, Debug, PartialEq, Eq, Structural)]
pub enum Level {
    Trace,
    Debug,
    Info,
    Warn,
    Error,
}

/// A UTC instant as calendar fields, down to the microsecond.
#[derive(Clone, Copy, Debug, PartialEq, Eq, Structural)]
pub struct Timestamp {
    pub year: u32,
    pub month: u8,
    pub day: u8,
    pub hour: u8,
    pub minute: u8,
    pub second: u8,
    pub micros: u32,
}

/// The hour-aligned rotation window that contains an instant.
#[derive(Clone, Copy, Debug, PartialEq, Eq, Structural)]
pub struct Window {
    pub year: u32,
    pub month: u8,
    pub day: u8,
    pub hour: u8,
}

pub open spec fn is_leap_year(y: int) -> bool {
    (y % 4 == 0 && y % 100 != 0) || y % 400 == 0
}

pub open spec fn days_in_month(y: int, m: int) -> int {
    if m == 2 {
        if is_leap_year(y) { 29 } else { 28 }
    } else if m == 4 || m == 6 || m == 9 || m == 11 {
        30
    } else {
        31
    }
}

/// Lexicographic order of windows: year, then month, day and hour.
pub open spec fn window_lt(a: Window, b: Window) -> bool {
    a.year < b.year
    || (a.year == b.year && a.month < b.month)
    || (a.year == b.year && a.month == b.month && a.day < b.day)
    || (a.year == b.year && a.month == b.month && a.day == b.day && a.hour < b.hour)
}

pub open spec fn window_le(a: Window, b: Window) -> bool {
    a == b || window_lt(a, b)
}

impl Timestamp {
    /// A calendar instant that can be written with a four-digit year.
    pub open spec fn wf(self) -> bool {
        &&& 1 <= self.year <= 9999
        &&& 1 <= self.month <= 12
        &&& 1 <= self.day <= days_in_month(self.year as int, self.month as int)
        &&& self.hour < 24
        &&& self.minute < 60
        &&& self.second < 60
        &&& self.micros < 1_000_000
    }

    pub open spec fn window_of(self) -> Window {
        Window { year: self.year, month: self.month, day: self.day, hour: self.hour }
    }

    /// Builds an instant from calendar fields; `None` unless they name a real
    /// instant with a four-digit year.
    pub fn from_parts(
        year: u32,
        month: u8,
        day: u8,
        hour: u8,
        minute: u8,
        second: u8,
        micros: u32,
    ) -> (t: Option<Timestamp>)
        ensures
            t.is_some() <==> (Timestamp { year, month, day, hour, minute, second, micros }).wf(),
            t.is_some() ==> t.unwrap() == (Timestamp {
                year,
                month,
                day,
                hour,
                minute,
                second,
                micros,
            }),
    {
        if year < 1 || year > 9999 || month < 1 || month > 12 || day < 1 {
            return None;
        }
        let leap = (year % 4 == 0 && year % 100 != 0) || year % 400 == 0;
        let last: u8 = if month == 2 {
            if leap { 29 } else { 28 }
        } else if month == 4 || month == 6 || month == 9 || month == 11 {
            30
        } else {
            31
        };
        if day > last || hour >= 24 || minute >= 60 || second >= 60 || micros >= 1_000_000 {
            return None;
        }
        Some(Timestamp { year, month, day, hour, minute, second, micros })
    }

    /// The rotation window that contains this instant.
    pub fn window(&self) -> (w: Window)
        ensures
            w == self.window_of(),
    {
        Window { year: self.year, month: self.month, day: self.day, hour: self.hour }
    }
}

/// One log event, immutable once captured.
#[derive(Clone, Debug)]
pub struct LogRecord {
    pub level: Level,
    pub message: String,
    pub timestamp: Timestamp,
    pub thread_id: u64,
    pub thread_name: Option<String>,
    pub target: String,
    pub source_file: String,
    pub source_line: u32,
}

impl LogRecord {
    pub open spec fn window_of(self) -> Window {
        self.timestamp.window_of()
    }

    /// Captures a record from a level, a message, the capture instant and the
    /// call site's thread, target, file and line. Construction always succeeds.
    pub fn new(
        level: Level,
        message: String,
        timestamp: Timestamp,
        thread_id: u64,
        thread_name: Option<String>,
        target: String,
        source_file: String,
        source_line: u32,
    ) -> (r: LogRecord)
        ensures
            r.level == level,
            r.message == message,
            r.timestamp == timestamp,
            r.thread_id == thread_id,
            r.thread_name == thread_name,
            r.target == target,
            r.source_file == source_file,
            r.source_line == source_line,
    {
        LogRecord {
            level,
            message,
            timestamp,
            thread_id,
            thread_name,
            target,
            source_file,
            source_line,
        }
    }
}

} // verus!
