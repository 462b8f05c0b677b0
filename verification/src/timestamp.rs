//! Calendar timestamps in the restricted ISO-8601-like form
//! `YYYY-MM-DDTHH:MM:SS,ffffff+HHMM` (the offset optionally written with a
//! colon, `+HH:MM`), and boot-relative timestamp text.

use vstd::prelude::*;

use crate::scan::all_digits;
use crate::scan::digits_end;
use crate::scan::digits_val;
use crate::scan::lemma_digits_end;
use crate::scan::lemma_digits_val_bound;
use crate::scan::pow10;
use crate::scan::read_digits_val;
use crate::scan::scan_digits_end;

verus! {

/// A parsed wall-clock timestamp. The timezone offset is kept as signed
/// minutes east of UTC, so the `+HHMM` and `+HH:MM` spellings of one offset
/// yield the very same value.
#[derive(Debug, Clone, Copy, PartialEq, Eq, Structural)]
pub struct CalendarTimestamp {
    pub year: u16,
    pub month: u8,
    pub day: u8,
    pub hour: u8,
    pub minute: u8,
    pub second: u8,
    /// Fractional seconds in microseconds, below one million.
    pub micros: u32,
    /// Timezone offset in signed minutes east of UTC.
    pub offset_minutes: i16,
}

/// Proleptic Gregorian leap-year rule.
pub open spec fn is_leap_year(y: int) -> bool {
    y % 4 == 0 && (y % 100 != 0 || y % 400 == 0)
}

/// Number of days of month `m` in year `y`.
pub open spec fn days_in_month_of(y: int, m: int) -> int {
    if m == 2 {
        if is_leap_year(y) {
            29
        } else {
            28
        }
    } else if m == 4 || m == 6 || m == 9 || m == 11 {
        30
    } else {
        31
    }
}

/// The calendar-arithmetic domain of each timestamp field: a real month and
/// day, a time of day, and a timezone offset within a day's bounds.
pub open spec fn fields_valid(
    y: int,
    m: int,
    d: int,
    h: int,
    mi: int,
    se: int,
    ohh: int,
    omm: int,
) -> bool {
    &&& 1 <= m <= 12
    &&& 1 <= d <= days_in_month_of(y, m)
    &&& 0 <= h <= 23
    &&& 0 <= mi <= 59
    &&& 0 <= se <= 59
    &&& 0 <= ohh <= 23
    &&& 0 <= omm <= 59
}

/// Days of year `y` in the proleptic Gregorian calendar.
pub open spec fn days_in_year_of(y: int) -> int {
    if is_leap_year(y) {
        366
    } else {
        365
    }
}

/// Days of the years between year 1970 and year `y`: the day count from
/// 1970-01-01 to `y`-01-01, negative for years before 1970.
pub open spec fn days_before_year(y: int) -> int
    decreases (if y >= 1970 {
        y - 1970
    } else {
        1970 - y
    }),
{
    if y > 1970 {
        days_before_year(y - 1) + days_in_year_of(y - 1)
    } else if y < 1970 {
        days_before_year(y + 1) - days_in_year_of(y)
    } else {
        0
    }
}

/// Days of the months of year `y` before month `m`.
pub open spec fn days_before_month(y: int, m: int) -> int
    decreases m,
{
    if m <= 1 {
        0
    } else {
        days_before_month(y, m - 1) + days_in_month_of(y, m - 1)
    }
}

/// Days from 1970-01-01 to the given date, negative for earlier dates.
pub open spec fn days_from_epoch(y: int, m: int, d: int) -> int {
    days_before_year(y) + days_before_month(y, m) + (d - 1)
}

/// Microseconds from the Unix epoch to the instant the timestamp denotes,
/// with the timezone offset applied; negative before the epoch.
pub open spec fn instant_micros_of(ct: CalendarTimestamp) -> int {
    ((days_from_epoch(ct.year as int, ct.month as int, ct.day as int) * 86400 + (
    ct.hour as int) * 3600 + (ct.minute as int) * 60 + (ct.second as int)) - (
    ct.offset_minutes as int) * 60) * 1000000 + ct.micros as int
}

impl CalendarTimestamp {
    /// The fields describe a real calendar instant.
    pub open spec fn well_formed(self) -> bool {
        &&& fields_valid(
            self.year as int,
            self.month as int,
            self.day as int,
            self.hour as int,
            self.minute as int,
            self.second as int,
            0,
            0,
        )
        &&& self.micros < 1000000
        &&& -1439 <= self.offset_minutes <= 1439
    }

    /// Tests the calendar invariant at run time.
    pub fn is_well_formed(&self) -> (r: bool)
        ensures
            r == self.well_formed(),
    {
        1 <= self.month && self.month <= 12 && 1 <= self.day && self.day <= days_in_month(
            self.year as u32,
            if 1 <= self.month && self.month <= 12 {
                self.month
            } else {
                1
            },
        ) && self.hour <= 23 && self.minute <= 59 && self.second <= 59 && self.micros < 1000000
            && -1439 <= self.offset_minutes && self.offset_minutes <= 1439
    }

    /// Microseconds from the Unix epoch to this instant, the timezone
    /// offset applied. Two timestamps with equal fields agree here, so
    /// the two offset spellings of one instant do too.
    pub fn epoch_micros(&self) -> (r: i64)
        requires
            self.well_formed(),
        ensures
            r as int == instant_micros_of(*self),
    {
        let mut days: i64 = 0;
        if self.year >= 1970 {
            let mut y: u16 = 1970;
            while y < self.year
                invariant
                    1970 <= y,
                    self.year >= 1970 ==> y <= self.year,
                    days == days_before_year(y as int),
                    0 <= days <= 366 * ((y - 1970) as int),
                decreases self.year - y,
            {
                days = days + days_in_year(y) as i64;
                y = y + 1;
            }
        } else {
            let mut y: u16 = 1970;
            while y > self.year
                invariant
                    self.year <= y <= 1970,
                    days == days_before_year(y as int),
                    -366 * ((1970 - y) as int) <= days <= 0,
                decreases y,
            {
                y = y - 1;
                days = days - days_in_year(y) as i64;
            }
        }
        let mut md: u32 = 0;
        let mut m: u8 = 1;
        while m < self.month
            invariant
                1 <= m <= self.month,
                self.month <= 12,
                md == days_before_month(self.year as int, m as int),
                md <= 31 * ((m - 1) as int),
            decreases self.month - m,
        {
            md = md + days_in_month(self.year as u32, m) as u32;
            m = m + 1;
        }
        let total_days: i64 = days + md as i64 + (self.day as i64 - 1);
        let secs: i64 = total_days * 86400 + self.hour as i64 * 3600 + self.minute as i64 * 60
            + self.second as i64 - self.offset_minutes as i64 * 60;
        secs * 1000000 + self.micros as i64
    }
}

/// Days of year `year` in the proleptic Gregorian calendar.
pub fn days_in_year(year: u16) -> (r: u16)
    ensures
        r as int == days_in_year_of(year as int),
{
    if (year % 4 == 0 && year % 100 != 0) || year % 400 == 0 {
        366
    } else {
        365
    }
}

/// The fixed-width date-and-time part `YYYY-MM-DDTHH:MM:SS,` stands at
/// index `t` of `s`.
pub open spec fn date_time_shape_at(s: Seq<char>, t: int) -> bool {
    &&& 0 <= t
    &&& t + 20 <= s.len()
    &&& all_digits(s, t, t + 4)
    &&& s[t + 4] == '-'
    &&& all_digits(s, t + 5, t + 7)
    &&& s[t + 7] == '-'
    &&& all_digits(s, t + 8, t + 10)
    &&& s[t + 10] == 'T'
    &&& all_digits(s, t + 11, t + 13)
    &&& s[t + 13] == ':'
    &&& all_digits(s, t + 14, t + 16)
    &&& s[t + 16] == ':'
    &&& all_digits(s, t + 17, t + 19)
    &&& s[t + 19] == ','
}

/// End of the fractional-second digit run that starts after the comma.
pub open spec fn frac_end_at(s: Seq<char>, t: int) -> int {
    digits_end(s, t + 20)
}

/// The offset at `o` is written with a colon between hours and minutes.
pub open spec fn offset_uses_colon(s: Seq<char>, o: int) -> bool {
    o + 3 < s.len() && s[o + 3] == ':'
}

/// A numeric timezone offset (`+HHMM`, `-HHMM`, `+HH:MM` or `-HH:MM`)
/// stands at index `o` of `s`.
pub open spec fn offset_shape(s: Seq<char>, o: int) -> bool {
    &&& 0 <= o < s.len()
    &&& (s[o] == '+' || s[o] == '-')
    &&& if offset_uses_colon(s, o) {
        o + 6 <= s.len() && all_digits(s, o + 1, o + 3) && all_digits(s, o + 4, o + 6)
    } else {
        o + 5 <= s.len() && all_digits(s, o + 1, o + 3) && all_digits(s, o + 3, o + 5)
    }
}

/// Index just past the offset at `o`.
pub open spec fn offset_end(s: Seq<char>, o: int) -> int {
    if offset_uses_colon(s, o) {
        o + 6
    } else {
        o + 5
    }
}

/// A full wall-clock timestamp stands at index `t` of `s`: date and time,
/// a comma, at least one fractional digit, and a numeric timezone offset.
pub open spec fn ts_shape_at(s: Seq<char>, t: int) -> bool {
    &&& date_time_shape_at(s, t)
    &&& frac_end_at(s, t) > t + 20
    &&& offset_shape(s, frac_end_at(s, t))
}

/// Index just past the timestamp that stands at index `t`.
pub open spec fn ts_end_at(s: Seq<char>, t: int) -> int {
    offset_end(s, frac_end_at(s, t))
}

/// `s` is exactly one wall-clock timestamp, nothing before or after it.
pub open spec fn ts_exact(s: Seq<char>) -> bool {
    ts_shape_at(s, 0) && ts_end_at(s, 0) == s.len()
}

pub open spec fn year_at(s: Seq<char>, t: int) -> int {
    digits_val(s, t, t + 4)
}

pub open spec fn month_at(s: Seq<char>, t: int) -> int {
    digits_val(s, t + 5, t + 7)
}

pub open spec fn day_at(s: Seq<char>, t: int) -> int {
    digits_val(s, t + 8, t + 10)
}

pub open spec fn hour_at(s: Seq<char>, t: int) -> int {
    digits_val(s, t + 11, t + 13)
}

pub open spec fn minute_at(s: Seq<char>, t: int) -> int {
    digits_val(s, t + 14, t + 16)
}

pub open spec fn second_at(s: Seq<char>, t: int) -> int {
    digits_val(s, t + 17, t + 19)
}

/// The fractional digits read as microseconds: the first six digits,
/// scaled up if fewer than six were written. Digits beyond the sixth
/// only refine past microsecond precision and are dropped.
pub open spec fn frac_micros_at(s: Seq<char>, t: int) -> int {
    let f = t + 20;
    let o = frac_end_at(s, t);
    let k = if o - f >= 6 {
        6
    } else {
        o - f
    };
    digits_val(s, f, f + k) * pow10((6 - k) as nat)
}

pub open spec fn offset_hh_at(s: Seq<char>, t: int) -> int {
    let o = frac_end_at(s, t);
    digits_val(s, o + 1, o + 3)
}

pub open spec fn offset_mm_at(s: Seq<char>, t: int) -> int {
    let o = frac_end_at(s, t);
    if offset_uses_colon(s, o) {
        digits_val(s, o + 4, o + 6)
    } else {
        digits_val(s, o + 3, o + 5)
    }
}

/// The offset in signed minutes east of UTC, identical for the spelled
/// forms with and without a colon.
pub open spec fn offset_minutes_at(s: Seq<char>, t: int) -> int {
    let o = frac_end_at(s, t);
    let m = 60 * offset_hh_at(s, t) + offset_mm_at(s, t);
    if s[o] == '-' {
        -m
    } else {
        m
    }
}

/// The timestamp fields at `t` lie in the valid calendar domain.
pub open spec fn calendar_ok_at(s: Seq<char>, t: int) -> bool {
    fields_valid(
        year_at(s, t),
        month_at(s, t),
        day_at(s, t),
        hour_at(s, t),
        minute_at(s, t),
        second_at(s, t),
        offset_hh_at(s, t),
        offset_mm_at(s, t),
    )
}

/// The timestamp value written at index `t` of `s`.
pub open spec fn ct_at(s: Seq<char>, t: int) -> CalendarTimestamp {
    CalendarTimestamp {
        year: year_at(s, t) as u16,
        month: month_at(s, t) as u8,
        day: day_at(s, t) as u8,
        hour: hour_at(s, t) as u8,
        minute: minute_at(s, t) as u8,
        second: second_at(s, t) as u8,
        micros: frac_micros_at(s, t) as u32,
        offset_minutes: offset_minutes_at(s, t) as i16,
    }
}

/// A full timestamp embedded unchanged at offset `off` of a longer text
/// keeps its shape, its extent, its field values and its calendar
/// validity.
pub proof fn lemma_ts_embed(ts: Seq<char>, c: Seq<char>, off: int)
    requires
        ts_exact(ts),
        0 <= off,
        off + ts.len() <= c.len(),
        forall|k: int| 0 <= k < ts.len() ==> c[k + off] == #[trigger] ts[k],
    ensures
        ts_shape_at(c, off),
        ts_end_at(c, off) == off + ts.len(),
        frac_end_at(c, off) == frac_end_at(ts, 0) + off,
        ct_at(c, off) == ct_at(ts, 0),
        calendar_ok_at(c, off) <==> calendar_ok_at(ts, 0),
{
    let o = frac_end_at(ts, 0);
    crate::scan::lemma_digits_end(ts, 20);
    assert(20 < o < ts.len());
    assert(ts.len() == offset_end(ts, o));
    assert(o + 3 < ts.len());
    crate::scan::lemma_digits_end_agree(ts, c, 20, off);
    assert(frac_end_at(c, off) == o + off);
    crate::scan::lemma_all_digits_agree(ts, c, 0, 4, off);
    crate::scan::lemma_all_digits_agree(ts, c, 5, 7, off);
    crate::scan::lemma_all_digits_agree(ts, c, 8, 10, off);
    crate::scan::lemma_all_digits_agree(ts, c, 11, 13, off);
    crate::scan::lemma_all_digits_agree(ts, c, 14, 16, off);
    crate::scan::lemma_all_digits_agree(ts, c, 17, 19, off);
    assert(c[4 + off] == ts[4] && c[7 + off] == ts[7] && c[10 + off] == ts[10] && c[13 + off]
        == ts[13] && c[16 + off] == ts[16] && c[19 + off] == ts[19]);
    assert(date_time_shape_at(c, off));
    assert(c[o + off] == ts[o]);
    assert(c[o + 3 + off] == ts[o + 3]);
    assert(offset_uses_colon(c, o + off) == offset_uses_colon(ts, o));
    crate::scan::lemma_all_digits_agree(ts, c, o + 1, o + 3, off);
    if offset_uses_colon(ts, o) {
        crate::scan::lemma_all_digits_agree(ts, c, o + 4, o + 6, off);
    } else {
        crate::scan::lemma_all_digits_agree(ts, c, o + 3, o + 5, off);
    }
    assert(offset_shape(c, o + off));
    assert(ts_shape_at(c, off));
    assert(ts_end_at(c, off) == off + ts.len());
    crate::scan::lemma_digits_val_agree(ts, c, 0, 4, off);
    crate::scan::lemma_digits_val_agree(ts, c, 5, 7, off);
    crate::scan::lemma_digits_val_agree(ts, c, 8, 10, off);
    crate::scan::lemma_digits_val_agree(ts, c, 11, 13, off);
    crate::scan::lemma_digits_val_agree(ts, c, 14, 16, off);
    crate::scan::lemma_digits_val_agree(ts, c, 17, 19, off);
    assert(year_at(c, off) == year_at(ts, 0));
    assert(month_at(c, off) == month_at(ts, 0));
    assert(day_at(c, off) == day_at(ts, 0));
    assert(hour_at(c, off) == hour_at(ts, 0));
    assert(minute_at(c, off) == minute_at(ts, 0));
    assert(second_at(c, off) == second_at(ts, 0));
    let k = if o - 20 >= 6 {
        6int
    } else {
        o - 20
    };
    crate::scan::lemma_digits_val_agree(ts, c, 20, 20 + k, off);
    assert(frac_micros_at(c, off) == frac_micros_at(ts, 0));
    crate::scan::lemma_digits_val_agree(ts, c, o + 1, o + 3, off);
    if offset_uses_colon(ts, o) {
        crate::scan::lemma_digits_val_agree(ts, c, o + 4, o + 6, off);
    } else {
        crate::scan::lemma_digits_val_agree(ts, c, o + 3, o + 5, off);
    }
    assert(offset_hh_at(c, off) == offset_hh_at(ts, 0));
    assert(offset_mm_at(c, off) == offset_mm_at(ts, 0));
    assert(offset_minutes_at(c, off) == offset_minutes_at(ts, 0));
    assert(ct_at(c, off) == ct_at(ts, 0));
}

/// Raw numeric fields of a structurally matched timestamp, before
/// calendar validation.
pub(crate) struct WallTsRaw {
    pub(crate) year: u32,
    pub(crate) month: u32,
    pub(crate) day: u32,
    pub(crate) hour: u32,
    pub(crate) minute: u32,
    pub(crate) second: u32,
    pub(crate) micros: u32,
    pub(crate) neg: bool,
    pub(crate) ohh: u32,
    pub(crate) omm: u32,
    pub(crate) end: usize,
}

/// Scales the value of the first `k` fractional digits to microseconds.
fn scale_to_micros(head: u32, k: usize) -> (r: u32)
    requires
        1 <= k <= 6,
        head < pow10(k as nat),
    ensures
        r == head * pow10((6 - k) as nat),
        r < 1000000,
{
    proof {
        reveal_with_fuel(pow10, 7);
    }
    if k == 1 {
        head * 100000
    } else if k == 2 {
        head * 10000
    } else if k == 3 {
        head * 1000
    } else if k == 4 {
        head * 100
    } else if k == 5 {
        head * 10
    } else {
        head
    }
}

/// Scans for a wall-clock timestamp at index `t` of `s` and reads its raw
/// numeric fields; `None` exactly when no timestamp stands there.
#[verifier::rlimit(50)]
pub(crate) fn scan_wall_ts(s: &str, t: usize) -> (r: Option<WallTsRaw>)
    requires
        t <= s@.len(),
    ensures
        r is Some <==> ts_shape_at(s@, t as int),
        r is Some ==> {
            let w = r->Some_0;
            &&& w.year == year_at(s@, t as int) && w.year < 10000
            &&& w.month == month_at(s@, t as int) && w.month < 100
            &&& w.day == day_at(s@, t as int) && w.day < 100
            &&& w.hour == hour_at(s@, t as int) && w.hour < 100
            &&& w.minute == minute_at(s@, t as int) && w.minute < 100
            &&& w.second == second_at(s@, t as int) && w.second < 100
            &&& w.micros == frac_micros_at(s@, t as int) && w.micros < 1000000
            &&& w.neg == (s@[frac_end_at(s@, t as int)] == '-')
            &&& w.ohh == offset_hh_at(s@, t as int) && w.ohh < 100
            &&& w.omm == offset_mm_at(s@, t as int) && w.omm < 100
            &&& w.end == ts_end_at(s@, t as int) && w.end <= s@.len()
        },
{
    proof {
        reveal_with_fuel(pow10, 7);
    }
    let n = s.unicode_len();
    if n - t < 20 {
        return None;
    }
    let year = match read_digits_val(s, t, t + 4) {
        Some(v) => v,
        None => { return None; },
    };
    if s.get_char(t + 4) != '-' {
        return None;
    }
    let month = match read_digits_val(s, t + 5, t + 7) {
        Some(v) => v,
        None => { return None; },
    };
    if s.get_char(t + 7) != '-' {
        return None;
    }
    let day = match read_digits_val(s, t + 8, t + 10) {
        Some(v) => v,
        None => { return None; },
    };
    if s.get_char(t + 10) != 'T' {
        return None;
    }
    let hour = match read_digits_val(s, t + 11, t + 13) {
        Some(v) => v,
        None => { return None; },
    };
    if s.get_char(t + 13) != ':' {
        return None;
    }
    let minute = match read_digits_val(s, t + 14, t + 16) {
        Some(v) => v,
        None => { return None; },
    };
    if s.get_char(t + 16) != ':' {
        return None;
    }
    let second = match read_digits_val(s, t + 17, t + 19) {
        Some(v) => v,
        None => { return None; },
    };
    if s.get_char(t + 19) != ',' {
        return None;
    }
    proof {
        lemma_digits_val_bound(s@, t as int, t + 4);
        lemma_digits_val_bound(s@, t + 5, t + 7);
        lemma_digits_val_bound(s@, t + 8, t + 10);
        lemma_digits_val_bound(s@, t + 11, t + 13);
        lemma_digits_val_bound(s@, t + 14, t + 16);
        lemma_digits_val_bound(s@, t + 17, t + 19);
    }
    let f = t + 20;
    let o = scan_digits_end(s, f);
    if o == f {
        return None;
    }
    proof {
        lemma_digits_end(s@, f as int);
    }
    // Fractional seconds: the first six digits, scaled to microseconds.
    let k = if o - f >= 6 {
        6
    } else {
        o - f
    };
    let head = match read_digits_val(s, f, f + k) {
        Some(v) => v,
        None => {
            proof {
                assert(all_digits(s@, f as int, f + k as int));
            }
            return None;
        },
    };
    proof {
        reveal_with_fuel(pow10, 7);
        lemma_digits_val_bound(s@, f as int, f + k as int);
        assert(1 <= k <= 6);
        assert(frac_micros_at(s@, t as int) == digits_val(s@, f as int, f + k) * pow10(
            (6 - k) as nat,
        ));
    }
    let micros: u32 = scale_to_micros(head, k);
    assert(micros == frac_micros_at(s@, t as int));
    // Timezone offset.
    if o >= n {
        return None;
    }
    let sign = s.get_char(o);
    if sign != '+' && sign != '-' {
        return None;
    }
    let colon = n - o >= 4 && s.get_char(o + 3) == ':';
    assert(colon == offset_uses_colon(s@, o as int));
    let (omm, end) = if colon {
        if n - o < 6 {
            return None;
        }
        let v = match read_digits_val(s, o + 4, o + 6) {
            Some(v) => v,
            None => { return None; },
        };
        (v, o + 6)
    } else {
        if n - o < 5 {
            return None;
        }
        let v = match read_digits_val(s, o + 3, o + 5) {
            Some(v) => v,
            None => { return None; },
        };
        (v, o + 5)
    };
    let ohh = match read_digits_val(s, o + 1, o + 3) {
        Some(v) => v,
        None => { return None; },
    };
    proof {
        lemma_digits_val_bound(s@, o + 1, o + 3);
        if offset_uses_colon(s@, o as int) {
            lemma_digits_val_bound(s@, o + 4, o + 6);
        } else {
            lemma_digits_val_bound(s@, o + 3, o + 5);
        }
    }
    Some(
        WallTsRaw {
            year,
            month,
            day,
            hour,
            minute,
            second,
            micros,
            neg: sign == '-',
            ohh,
            omm,
            end,
        },
    )
}

/// Validates the raw fields against calendar arithmetic and builds the
/// timestamp value; `None` exactly when a field is out of its domain.
pub(crate) fn build_calendar_ts(w: &WallTsRaw) -> (r: Option<CalendarTimestamp>)
    requires
        w.year < 10000,
        w.month < 100,
        w.day < 100,
        w.hour < 100,
        w.minute < 100,
        w.second < 100,
        w.micros < 1000000,
        w.ohh < 100,
        w.omm < 100,
    ensures
        r is Some <==> fields_valid(
            w.year as int,
            w.month as int,
            w.day as int,
            w.hour as int,
            w.minute as int,
            w.second as int,
            w.ohh as int,
            w.omm as int,
        ),
        r is Some ==> {
            let ct = r->Some_0;
            &&& ct.year == w.year as u16
            &&& ct.month == w.month as u8
            &&& ct.day == w.day as u8
            &&& ct.hour == w.hour as u8
            &&& ct.minute == w.minute as u8
            &&& ct.second == w.second as u8
            &&& ct.micros == w.micros
            &&& ct.offset_minutes as int == (if w.neg {
                -(60 * (w.ohh as int) + (w.omm as int))
            } else {
                60 * (w.ohh as int) + (w.omm as int)
            })
            &&& ct.well_formed()
        },
{
    if w.month < 1 || w.month > 12 {
        return None;
    }
    let dim = days_in_month(w.year, w.month as u8);
    if w.day < 1 || w.day > dim as u32 {
        return None;
    }
    if w.hour > 23 || w.minute > 59 || w.second > 59 {
        return None;
    }
    if w.ohh > 23 || w.omm > 59 {
        return None;
    }
    let mins: u32 = 60 * w.ohh + w.omm;
    let m16: i16 = mins as i16;
    let offset_minutes: i16 = if w.neg {
        -m16
    } else {
        m16
    };
    Some(
        CalendarTimestamp {
            year: w.year as u16,
            month: w.month as u8,
            day: w.day as u8,
            hour: w.hour as u8,
            minute: w.minute as u8,
            second: w.second as u8,
            micros: w.micros,
            offset_minutes,
        },
    )
}

/// Number of days of month `month` in year `year`.
pub fn days_in_month(year: u32, month: u8) -> (r: u8)
    requires
        1 <= month <= 12,
    ensures
        r as int == days_in_month_of(year as int, month as int),
{
    if month == 2 {
        if (year % 4 == 0 && year % 100 != 0) || year % 400 == 0 {
            29
        } else {
            28
        }
    } else if month == 4 || month == 6 || month == 9 || month == 11 {
        30
    } else {
        31
    }
}

} // verus!
