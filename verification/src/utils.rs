//! The line classifiers: one named pattern per structural template, each a
//! pure function from the raw line to a typed record or a typed failure.
//!
//! Template A (wall-clock form): an optional `<N>` severity prefix, a
//! calendar timestamp `YYYY-MM-DDTHH:MM:SS,ffffff+HHMM` (the offset
//! optionally with a colon), one literal space, then the message.
//!
//! Template B (boot-relative form): a mandatory `<N>` severity prefix, then
//! `[`, optional leading spaces, seconds with a fractional part, `]`, one
//! literal space, then the message.

use vstd::prelude::*;

use crate::kernel::KernelLineError;
use crate::kernel::KernelLogLevel;
use crate::kernel::LineFormat;
use crate::kernel::Timestamp;
use crate::kernel::TimestampValue;
use crate::scan::digit_val;
use crate::scan::digits_end;
use crate::scan::is_digit_char;
use crate::scan::is_digit_exec;
use crate::scan::scan_digits_end;
use crate::scan::scan_space_end;
use crate::scan::space_end;
use crate::timestamp::CalendarTimestamp;
use crate::timestamp::build_calendar_ts;
use crate::timestamp::calendar_ok_at;
use crate::timestamp::ct_at;
use crate::timestamp::scan_wall_ts;
use crate::timestamp::ts_end_at;
use crate::timestamp::ts_exact;
use crate::timestamp::ts_shape_at;

verus! {

/// Mathematical value of a successfully classified line.
pub struct LineValue {
    pub level: KernelLogLevel,
    pub stamp: TimestampValue,
    pub message: Seq<char>,
}

/// The kind of classification failure, in the order the classifier decides:
/// first the line's structure, then timestamp arithmetic, then the severity
/// digit's range.
pub enum LineFailure {
    BadShape,
    BadTimestamp,
    BadSeverity,
}

/// The line starts with a `<N>` severity prefix, `N` a single digit.
pub open spec fn has_level_prefix(s: Seq<char>) -> bool {
    s.len() >= 3 && s[0] == '<' && is_digit_char(s[1]) && s[2] == '>'
}

/// Where Template A's timestamp starts: after the prefix if one is present.
pub open spec fn wall_ts_start(s: Seq<char>) -> int {
    if has_level_prefix(s) {
        3
    } else {
        0
    }
}

/// The line matches Template A structurally: optional prefix, wall-clock
/// timestamp, one literal space, then the (possibly empty) message.
pub open spec fn wall_line_shape(s: Seq<char>) -> bool {
    let t = wall_ts_start(s);
    &&& ts_shape_at(s, t)
    &&& ts_end_at(s, t) < s.len()
    &&& s[ts_end_at(s, t)] == ' '
}

/// The message of a Template A line: everything past the separating space.
pub open spec fn wall_message(s: Seq<char>) -> Seq<char> {
    s.subrange(ts_end_at(s, wall_ts_start(s)) + 1, s.len() as int)
}

/// The severity of a Template A line: the prefix digit, or the documented
/// default Info when the optional prefix is absent.
pub open spec fn wall_level(s: Seq<char>) -> KernelLogLevel {
    if has_level_prefix(s) {
        KernelLogLevel::of_code_spec(digit_val(s[1]))
    } else {
        KernelLogLevel::Info
    }
}

/// Template A classification: structure first, then calendar validity,
/// then the severity digit's range.
pub open spec fn wall_parse_spec(s: Seq<char>) -> Result<LineValue, LineFailure> {
    if !wall_line_shape(s) {
        Result::Err(LineFailure::BadShape)
    } else if !calendar_ok_at(s, wall_ts_start(s)) {
        Result::Err(LineFailure::BadTimestamp)
    } else if has_level_prefix(s) && digit_val(s[1]) > 7 {
        Result::Err(LineFailure::BadSeverity)
    } else {
        Result::Ok(
            LineValue {
                level: wall_level(s),
                stamp: TimestampValue::Calendar(ct_at(s, wall_ts_start(s))),
                message: wall_message(s),
            },
        )
    }
}

/// Human-readable description of Template A, carried by structural failures.
pub open spec fn wall_pattern_text() -> Seq<char> {
    "(<N>)?YYYY-MM-DDTHH:MM:SS,ffffff(+|-)HH(:)?MM <message>"@
}

/// Human-readable description of Template B, carried by structural failures.
pub open spec fn boot_pattern_text() -> Seq<char> {
    "<N>[seconds.fraction] <message>"@
}

/// The failure value a Template A classification reports: its variant and
/// its fields, determined by the failure kind and the input.
pub open spec fn wall_error_matches(e: KernelLineError, s: Seq<char>, k: LineFailure) -> bool {
    match k {
        LineFailure::BadShape => e matches KernelLineError::StructuralMismatch { input, pattern }
            && input@ == s && pattern@ == wall_pattern_text(),
        LineFailure::BadTimestamp => e matches KernelLineError::TimestampParseFailure {
            input,
            detail,
        } && input@ == s,
        LineFailure::BadSeverity => e matches KernelLineError::UnexpectedSeverity { input }
            && input@ == s.subrange(1, 2),
    }
}

/// Where Template B's seconds digits start: after `<N>[` and any spaces.
pub open spec fn boot_num_start(s: Seq<char>) -> int {
    space_end(s, 4)
}

/// Index of Template B's decimal dot.
pub open spec fn boot_dot(s: Seq<char>) -> int {
    digits_end(s, boot_num_start(s))
}

/// Index just past Template B's fractional digits.
pub open spec fn boot_num_end(s: Seq<char>) -> int {
    digits_end(s, boot_dot(s) + 1)
}

/// The line matches Template B structurally: mandatory prefix, `[`,
/// optional spaces, digits, a dot, digits, `]`, one literal space, then
/// the (possibly empty) message.
pub open spec fn boot_line_shape(s: Seq<char>) -> bool {
    &&& has_level_prefix(s)
    &&& s.len() > 3 && s[3] == '['
    &&& boot_dot(s) > boot_num_start(s)
    &&& boot_dot(s) < s.len() && s[boot_dot(s)] == '.'
    &&& boot_num_end(s) > boot_dot(s) + 1
    &&& boot_num_end(s) < s.len() && s[boot_num_end(s)] == ']'
    &&& boot_num_end(s) + 1 < s.len() && s[boot_num_end(s) + 1] == ' '
}

/// Template B's timestamp text: the seconds digits, dot and fraction,
/// without the leading spaces.
pub open spec fn boot_ts_text(s: Seq<char>) -> Seq<char> {
    s.subrange(boot_num_start(s), boot_num_end(s))
}

/// The message of a Template B line: everything past the separating space.
pub open spec fn boot_message(s: Seq<char>) -> Seq<char> {
    s.subrange(boot_num_end(s) + 2, s.len() as int)
}

/// Template B classification: structure first, then the severity digit's
/// range. The severity prefix has no default here.
pub open spec fn boot_parse_spec(s: Seq<char>) -> Result<LineValue, LineFailure> {
    if !boot_line_shape(s) {
        Result::Err(LineFailure::BadShape)
    } else if digit_val(s[1]) > 7 {
        Result::Err(LineFailure::BadSeverity)
    } else {
        Result::Ok(
            LineValue {
                level: KernelLogLevel::of_code_spec(digit_val(s[1])),
                stamp: TimestampValue::BootRelative(boot_ts_text(s)),
                message: boot_message(s),
            },
        )
    }
}

/// The failure value a Template B classification reports.
pub open spec fn boot_error_matches(e: KernelLineError, s: Seq<char>, k: LineFailure) -> bool {
    match k {
        LineFailure::BadShape => e matches KernelLineError::StructuralMismatch { input, pattern }
            && input@ == s && pattern@ == boot_pattern_text(),
        LineFailure::BadTimestamp => false,
        LineFailure::BadSeverity => e matches KernelLineError::UnexpectedSeverity { input }
            && input@ == s.subrange(1, 2),
    }
}

/// Classification against the template that `format` selects.
pub open spec fn line_parse_spec(format: LineFormat, s: Seq<char>) -> Result<
    LineValue,
    LineFailure,
> {
    match format {
        LineFormat::WallClock => wall_parse_spec(s),
        LineFormat::BootSeconds => boot_parse_spec(s),
    }
}

/// The failure value a classification against `format` reports.
pub open spec fn line_error_matches(
    format: LineFormat,
    e: KernelLineError,
    s: Seq<char>,
    k: LineFailure,
) -> bool {
    match format {
        LineFormat::WallClock => wall_error_matches(e, s, k),
        LineFormat::BootSeconds => boot_error_matches(e, s, k),
    }
}

/// Builds the structural-mismatch failure for Template A.
fn structural_wall(line: &str) -> (e: KernelLineError)
    ensures
        wall_error_matches(e, line@, LineFailure::BadShape),
{
    KernelLineError::StructuralMismatch {
        input: line.to_owned(),
        pattern: "(<N>)?YYYY-MM-DDTHH:MM:SS,ffffff(+|-)HH(:)?MM <message>".to_owned(),
    }
}

/// Builds the structural-mismatch failure for Template B.
fn structural_boot(line: &str) -> (e: KernelLineError)
    ensures
        boot_error_matches(e, line@, LineFailure::BadShape),
{
    KernelLineError::StructuralMismatch {
        input: line.to_owned(),
        pattern: "<N>[seconds.fraction] <message>".to_owned(),
    }
}

/// Builds the out-of-range severity failure, carrying the digit's text.
fn severity_error(line: &str) -> (e: KernelLineError)
    requires
        2 <= line@.len(),
    ensures
        e matches KernelLineError::UnexpectedSeverity { input } && input@ == line@.subrange(1, 2),
{
    KernelLineError::UnexpectedSeverity { input: line.substring_char(1, 2).to_owned() }
}

/// Tests for the `<N>` severity prefix.
fn check_level_prefix(input_line: &str) -> (r: bool)
    ensures
        r == has_level_prefix(input_line@),
{
    let n = input_line.unicode_len();
    n >= 3 && input_line.get_char(0) == '<' && is_digit_exec(input_line.get_char(1))
        && input_line.get_char(2) == '>'
}

/// Classifies one line against Template A (the wall-clock form).
///
/// Structure is decided first: a line that does not match the template
/// shape fails with a structural mismatch carrying the line and the
/// pattern description. On a structural match, a timestamp whose fields
/// break calendar arithmetic is a distinct timestamp failure, and a
/// severity digit above 7 is a distinct severity failure; an absent
/// severity prefix defaults to Info.
pub fn get_log_line_regex_matches(input_line: &str) -> (r: Result<
    (KernelLogLevel, Timestamp, String),
    KernelLineError,
>)
    ensures
        match r {
            Result::Ok(rec) => wall_parse_spec(input_line@) == Result::<
                LineValue,
                LineFailure,
            >::Ok(LineValue { level: rec.0, stamp: rec.1@, message: rec.2@ }),
            Result::Err(e) => wall_parse_spec(input_line@) is Err && wall_error_matches(
                e,
                input_line@,
                wall_parse_spec(input_line@)->Err_0,
            ),
        },
{
    let ghost s = input_line@;
    let n = input_line.unicode_len();
    let has_pfx = check_level_prefix(input_line);
    let t: usize = if has_pfx {
        3
    } else {
        0
    };
    let w = match scan_wall_ts(input_line, t) {
        Some(w) => w,
        None => { return Err(structural_wall(input_line)); },
    };
    if w.end >= n || input_line.get_char(w.end) != ' ' {
        return Err(structural_wall(input_line));
    }
    assert(wall_line_shape(s));
    let ct = match build_calendar_ts(&w) {
        Some(ct) => ct,
        None => {
            assert(!calendar_ok_at(s, t as int));
            return Err(
                KernelLineError::TimestampParseFailure {
                    input: input_line.to_owned(),
                    detail: "timestamp field outside the valid calendar range".to_owned(),
                },
            );
        },
    };
    assert(calendar_ok_at(s, t as int));
    assert(ct == ct_at(s, t as int));
    let level = if has_pfx {
        let d = (input_line.get_char(1) as u32) - 48;
        assert(d == digit_val(s[1]));
        match KernelLogLevel::from_code(d as u8) {
            Some(l) => l,
            None => { return Err(severity_error(input_line)); },
        }
    } else {
        KernelLogLevel::Info
    };
    let msg = input_line.substring_char(w.end + 1, n).to_owned();
    Ok((level, Timestamp::Calendar(ct), msg))
}

/// Classifies one line against Template B (the boot-relative form).
///
/// The `<N>` severity prefix is mandatory here: a missing prefix, like a
/// missing bracketed timestamp, is a structural mismatch. A present digit
/// above 7 is the distinct severity failure.
pub fn get_boot_log_line_matches(input_line: &str) -> (r: Result<
    (KernelLogLevel, Timestamp, String),
    KernelLineError,
>)
    ensures
        match r {
            Result::Ok(rec) => boot_parse_spec(input_line@) == Result::<
                LineValue,
                LineFailure,
            >::Ok(LineValue { level: rec.0, stamp: rec.1@, message: rec.2@ }),
            Result::Err(e) => boot_parse_spec(input_line@) is Err && boot_error_matches(
                e,
                input_line@,
                boot_parse_spec(input_line@)->Err_0,
            ),
        },
{
    let ghost s = input_line@;
    let n = input_line.unicode_len();
    let has_pfx = check_level_prefix(input_line);
    if !has_pfx {
        return Err(structural_boot(input_line));
    }
    if n <= 3 || input_line.get_char(3) != '[' {
        return Err(structural_boot(input_line));
    }
    let w0 = scan_space_end(input_line, 4);
    let d1 = scan_digits_end(input_line, w0);
    if d1 == w0 {
        return Err(structural_boot(input_line));
    }
    if d1 >= n || input_line.get_char(d1) != '.' {
        return Err(structural_boot(input_line));
    }
    let d2 = scan_digits_end(input_line, d1 + 1);
    if d2 == d1 + 1 {
        return Err(structural_boot(input_line));
    }
    if d2 >= n || input_line.get_char(d2) != ']' {
        return Err(structural_boot(input_line));
    }
    if d2 + 1 >= n || input_line.get_char(d2 + 1) != ' ' {
        return Err(structural_boot(input_line));
    }
    assert(boot_line_shape(s));
    let d = (input_line.get_char(1) as u32) - 48;
    assert(d == digit_val(s[1]));
    let level = match KernelLogLevel::from_code(d as u8) {
        Some(l) => l,
        None => { return Err(severity_error(input_line)); },
    };
    let ts_text = input_line.substring_char(w0, d2).to_owned();
    let msg = input_line.substring_char(d2 + 2, n).to_owned();
    Ok((level, Timestamp::BootRelative(ts_text), msg))
}

/// Parses `input_string` as exactly one wall-clock timestamp of the
/// restricted ISO-8601-like form, offset spelled with or without a colon.
pub fn parse_dmesg_iso_timestamp(input_string: &str) -> (r: Result<
    CalendarTimestamp,
    KernelLineError,
>)
    ensures
        r is Ok <==> ts_exact(input_string@) && calendar_ok_at(input_string@, 0),
        r is Ok ==> r->Ok_0 == ct_at(input_string@, 0),
        r is Err ==> (r->Err_0 matches KernelLineError::TimestampParseFailure { input, detail }
            && input@ == input_string@),
{
    let n = input_string.unicode_len();
    let w = match scan_wall_ts(input_string, 0) {
        Some(w) => w,
        None => {
            return Err(
                KernelLineError::TimestampParseFailure {
                    input: input_string.to_owned(),
                    detail: "not a wall-clock timestamp".to_owned(),
                },
            );
        },
    };
    if w.end != n {
        return Err(
            KernelLineError::TimestampParseFailure {
                input: input_string.to_owned(),
                detail: "trailing text after the timestamp".to_owned(),
            },
        );
    }
    match build_calendar_ts(&w) {
        Some(ct) => {
            assert(ct == ct_at(input_string@, 0));
            Ok(ct)
        },
        None => Err(
            KernelLineError::TimestampParseFailure {
                input: input_string.to_owned(),
                detail: "timestamp field outside the valid calendar range".to_owned(),
            },
        ),
    }
}

} // verus!
