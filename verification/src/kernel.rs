//! Severity levels, typed parse failures, and the parsed line record.

use vstd::prelude::*;

use crate::timestamp::CalendarTimestamp;
use crate::utils::LineFailure;
use crate::utils::LineValue;
use crate::utils::boot_error_matches;
use crate::utils::boot_parse_spec;
use crate::utils::get_boot_log_line_matches;
use crate::utils::get_log_line_regex_matches;
use crate::utils::line_error_matches;
use crate::utils::line_parse_spec;
use crate::utils::wall_error_matches;
use crate::utils::wall_parse_spec;

verus! {

/// Kernel/syslog priority level, 0 (Emergency) through 7 (Debug),
/// ordered by increasing verbosity.
#[derive(Debug, Clone, Copy, PartialEq, Eq, Structural)]
pub enum KernelLogLevel {
    Emergency,
    Alert,
    Critical,
    Error,
    Warning,
    Notice,
    Info,
    Debug,
}

impl KernelLogLevel {
    /// Numeric wire code of the level.
    pub open spec fn code_spec(self) -> int {
        match self {
            KernelLogLevel::Emergency => 0,
            KernelLogLevel::Alert => 1,
            KernelLogLevel::Critical => 2,
            KernelLogLevel::Error => 3,
            KernelLogLevel::Warning => 4,
            KernelLogLevel::Notice => 5,
            KernelLogLevel::Info => 6,
            KernelLogLevel::Debug => 7,
        }
    }

    /// The level a given wire code stands for (meaningful for codes 0 through 7).
    pub open spec fn of_code_spec(d: int) -> KernelLogLevel {
        if d == 0 {
            KernelLogLevel::Emergency
        } else if d == 1 {
            KernelLogLevel::Alert
        } else if d == 2 {
            KernelLogLevel::Critical
        } else if d == 3 {
            KernelLogLevel::Error
        } else if d == 4 {
            KernelLogLevel::Warning
        } else if d == 5 {
            KernelLogLevel::Notice
        } else if d == 6 {
            KernelLogLevel::Info
        } else {
            KernelLogLevel::Debug
        }
    }

    /// Numeric wire code of the level.
    pub fn code(&self) -> (c: u8)
        ensures
            c as int == self.code_spec(),
    {
        match *self {
            KernelLogLevel::Emergency => 0,
            KernelLogLevel::Alert => 1,
            KernelLogLevel::Critical => 2,
            KernelLogLevel::Error => 3,
            KernelLogLevel::Warning => 4,
            KernelLogLevel::Notice => 5,
            KernelLogLevel::Info => 6,
            KernelLogLevel::Debug => 7,
        }
    }

    /// The level with the given wire code; `None` exactly when the code is
    /// outside 0 through 7.
    pub fn from_code(d: u8) -> (r: Option<KernelLogLevel>)
        ensures
            r is Some <==> d <= 7,
            d <= 7 ==> r == Some(KernelLogLevel::of_code_spec(d as int)),
    {
        match d {
            0 => Some(KernelLogLevel::Emergency),
            1 => Some(KernelLogLevel::Alert),
            2 => Some(KernelLogLevel::Critical),
            3 => Some(KernelLogLevel::Error),
            4 => Some(KernelLogLevel::Warning),
            5 => Some(KernelLogLevel::Notice),
            6 => Some(KernelLogLevel::Info),
            7 => Some(KernelLogLevel::Debug),
            _ => None,
        }
    }

    /// Round trip: each level's wire code maps back to the level itself.
    pub proof fn lemma_code_round_trip(self)
        ensures
            KernelLogLevel::of_code_spec(self.code_spec()) == self,
    {
    }

    /// Display text of the level. Emergency's text is the historical
    /// literal `"DebugEmergency"`, kept for output compatibility.
    pub fn display_text(&self) -> (r: &'static str)
        ensures
            r@ == self.display_text_spec(),
    {
        match *self {
            KernelLogLevel::Emergency => "DebugEmergency",
            KernelLogLevel::Alert => "Alert",
            KernelLogLevel::Critical => "Critical",
            KernelLogLevel::Error => "Error",
            KernelLogLevel::Warning => "Warning",
            KernelLogLevel::Notice => "Notice",
            KernelLogLevel::Info => "Info",
            KernelLogLevel::Debug => "Debug",
        }
    }

    /// Display text of the level.
    pub open spec fn display_text_spec(self) -> Seq<char> {
        match self {
            KernelLogLevel::Emergency => "DebugEmergency"@,
            KernelLogLevel::Alert => "Alert"@,
            KernelLogLevel::Critical => "Critical"@,
            KernelLogLevel::Error => "Error"@,
            KernelLogLevel::Warning => "Warning"@,
            KernelLogLevel::Notice => "Notice"@,
            KernelLogLevel::Info => "Info"@,
            KernelLogLevel::Debug => "Debug"@,
        }
    }
}

/// A typed parse failure of the line classifier. Every failure carries the
/// offending input text; no failure is ever reported by panicking.
#[derive(Debug, PartialEq, Eq)]
pub enum KernelLineError {
    /// The line has no match against the expected template.
    StructuralMismatch { input: String, pattern: String },
    /// The template matched but a required component is absent
    /// (defensive: representable, though the scanners never leave one out).
    MissingField { input: String, pattern: String, field: String },
    /// A severity digit is present but outside 0 through 7.
    UnexpectedSeverity { input: String },
    /// Structurally present timestamp text is not a valid calendar instant.
    TimestampParseFailure { input: String, detail: String },
}

/// A line's timestamp: either boot-relative seconds kept as text, or a
/// parsed wall-clock calendar timestamp, depending on the matched template.
#[derive(Debug, PartialEq, Eq)]
pub enum Timestamp {
    /// Seconds since boot, as the digits-dot-digits text of the line.
    BootRelative(String),
    /// A wall-clock calendar timestamp.
    Calendar(CalendarTimestamp),
}

/// Mathematical value of a `Timestamp`.
pub enum TimestampValue {
    BootRelative(Seq<char>),
    Calendar(CalendarTimestamp),
}

impl View for Timestamp {
    type V = TimestampValue;

    open spec fn view(&self) -> TimestampValue {
        match self {
            Timestamp::BootRelative(s) => TimestampValue::BootRelative(s@),
            Timestamp::Calendar(c) => TimestampValue::Calendar(*c),
        }
    }
}

impl Clone for Timestamp {
    fn clone(&self) -> (r: Self)
        ensures
            r == *self,
    {
        match self {
            Timestamp::BootRelative(s) => Timestamp::BootRelative(s.clone()),
            Timestamp::Calendar(c) => Timestamp::Calendar(*c),
        }
    }
}

/// Which structural template the classifier expects: an explicit
/// configuration choice between the two log-source dialects.
#[derive(Debug, Clone, Copy, PartialEq, Eq, Structural)]
pub enum LineFormat {
    /// Template A: wall-clock calendar timestamps.
    WallClock,
    /// Template B: boot-relative seconds in brackets.
    BootSeconds,
}

/// One parsed log line: severity, timestamp, and the message text that
/// follows the timestamp's separating space.
#[derive(Debug, PartialEq, Eq)]
pub struct KernelLine {
    pub log_level: KernelLogLevel,
    pub timestamp: Timestamp,
    pub message: String,
}

impl KernelLine {
    /// Mathematical value of the record.
    pub open spec fn line_value(self) -> LineValue {
        LineValue { level: self.log_level, stamp: self.timestamp@, message: self.message@ }
    }

    /// Parses one wall-clock (Template A) line into a record.
    pub fn new(line: &str) -> (r: Result<KernelLine, KernelLineError>)
        ensures
            match r {
                Result::Ok(k) => wall_parse_spec(line@) == Result::<LineValue, LineFailure>::Ok(
                    k.line_value(),
                ),
                Result::Err(e) => wall_parse_spec(line@) is Err && wall_error_matches(
                    e,
                    line@,
                    wall_parse_spec(line@)->Err_0,
                ),
            },
    {
        match get_log_line_regex_matches(line) {
            Ok((log_level, timestamp, message)) => Ok(
                KernelLine { log_level, timestamp, message },
            ),
            Err(e) => Err(e),
        }
    }

    /// Parses one boot-relative (Template B) line into a record.
    pub fn new_boot(line: &str) -> (r: Result<KernelLine, KernelLineError>)
        ensures
            match r {
                Result::Ok(k) => boot_parse_spec(line@) == Result::<LineValue, LineFailure>::Ok(
                    k.line_value(),
                ),
                Result::Err(e) => boot_parse_spec(line@) is Err && boot_error_matches(
                    e,
                    line@,
                    boot_parse_spec(line@)->Err_0,
                ),
            },
    {
        match get_boot_log_line_matches(line) {
            Ok((log_level, timestamp, message)) => Ok(
                KernelLine { log_level, timestamp, message },
            ),
            Err(e) => Err(e),
        }
    }

    /// Parses one line against the template that `format` selects.
    pub fn parse(format: LineFormat, line: &str) -> (r: Result<KernelLine, KernelLineError>)
        ensures
            match r {
                Result::Ok(k) => line_parse_spec(format, line@) == Result::<
                    LineValue,
                    LineFailure,
                >::Ok(k.line_value()),
                Result::Err(e) => line_parse_spec(format, line@) is Err && line_error_matches(
                    format,
                    e,
                    line@,
                    line_parse_spec(format, line@)->Err_0,
                ),
            },
    {
        match format {
            LineFormat::WallClock => Self::new(line),
            LineFormat::BootSeconds => Self::new_boot(line),
        }
    }
}

} // verus!
