//! The library's general guarantees, each stated and proved over the
//! classifiers' and the extractor's own specifications.

use vstd::prelude::*;

use crate::scan::lemma_digits_end;
use crate::scan::lemma_digits_end_agree;
use crate::scan::lemma_digits_val_agree;
use crate::timestamp::ct_at;
use crate::timestamp::date_time_shape_at;
use crate::timestamp::frac_end_at;
use crate::timestamp::lemma_ts_embed;
use crate::timestamp::offset_hh_at;
use crate::timestamp::offset_minutes_at;
use crate::timestamp::offset_mm_at;
use crate::timestamp::offset_shape;
use crate::timestamp::offset_uses_colon;
use crate::timestamp::ts_end_at;
use crate::timestamp::ts_shape_at;
use crate::timestamp::year_at;
use crate::timestamp::month_at;
use crate::timestamp::day_at;
use crate::timestamp::hour_at;
use crate::timestamp::minute_at;
use crate::timestamp::second_at;
use crate::timestamp::frac_micros_at;
use crate::utils::wall_message;

use crate::iptables::IptablesLineError;
use crate::iptables::all_tokens_ok;
use crate::iptables::extract_err_matches;
use crate::iptables::ipv4_shape;
use crate::iptables::last_key_at;
use crate::iptables::lemma_last_key_unique;
use crate::iptables::token_value;
use crate::scan::sep_pos;
use crate::iptables::body_of;
use crate::iptables::dst_key;
use crate::iptables::extract_ok;
use crate::iptables::has_key;
use crate::kernel::KernelLogLevel;
use crate::kernel::LineFormat;
use crate::scan::digit_val;
use crate::scan::is_digit_char;
use crate::timestamp::calendar_ok_at;
use crate::timestamp::ts_exact;
use crate::utils::LineFailure;
use crate::utils::LineValue;
use crate::utils::boot_line_shape;
use crate::utils::boot_parse_spec;
use crate::utils::has_level_prefix;
use crate::utils::line_parse_spec;
use crate::utils::wall_line_shape;
use crate::utils::wall_parse_spec;
use crate::utils::wall_ts_start;
use crate::iptables::src_key;

verus! {

/// A wall-clock line whose optional severity prefix is absent classifies,
/// when it classifies at all, with the documented default severity Info.
pub proof fn lemma_absent_severity_defaults_to_info(s: Seq<char>)
    requires
        !has_level_prefix(s),
        wall_parse_spec(s) is Ok,
    ensures
        wall_parse_spec(s)->Ok_0.level == KernelLogLevel::Info,
{
}

/// A structurally valid line whose severity digit lies outside 0 through 7
/// is rejected with the severity-range failure under either template:
/// never defaulted, never accepted.
pub proof fn lemma_out_of_range_severity_rejected(format: LineFormat, s: Seq<char>)
    requires
        match format {
            LineFormat::WallClock => wall_line_shape(s) && calendar_ok_at(s, wall_ts_start(s))
                && has_level_prefix(s),
            LineFormat::BootSeconds => boot_line_shape(s),
        },
        digit_val(s[1]) > 7,
    ensures
        line_parse_spec(format, s) == Result::<LineValue, LineFailure>::Err(
            LineFailure::BadSeverity,
        ),
{
}

/// A line that matches neither template's structure fails classification
/// with the structural-mismatch kind under both templates.
pub proof fn lemma_unrecognized_line_rejected_by_both(s: Seq<char>)
    requires
        !wall_line_shape(s),
        !boot_line_shape(s),
    ensures
        wall_parse_spec(s) == Result::<LineValue, LineFailure>::Err(LineFailure::BadShape),
        boot_parse_spec(s) == Result::<LineValue, LineFailure>::Err(LineFailure::BadShape),
{
}

/// Classification is a pure function of the line's text: equal lines give
/// equal outcomes, whatever else happened before, so parsing one line
/// twice yields value-equal records.
pub proof fn lemma_parse_deterministic(format: LineFormat, s1: Seq<char>, s2: Seq<char>)
    requires
        s1 == s2,
    ensures
        line_parse_spec(format, s1) == line_parse_spec(format, s2),
{
}

/// Extraction never succeeds while `SRC` or `DST` is absent from the
/// body's well-formed tokens, however many other keys are present.
pub proof fn lemma_missing_key_never_succeeds(s: Seq<char>)
    requires
        !has_key(body_of(s), src_key()) || !has_key(body_of(s), dst_key()),
    ensures
        !extract_ok(s),
{
}

/// When the body's tokens are in order but `SRC` is absent, whatever
/// failure extraction reports is the missing-key failure naming `SRC`.
pub proof fn lemma_missing_src_reported(e: IptablesLineError, s: Seq<char>)
    requires
        sep_pos(s, 0) >= 0,
        all_tokens_ok(body_of(s)),
        !has_key(body_of(s), src_key()),
        extract_err_matches(e, s),
    ensures
        e matches IptablesLineError::MissingKey { key } && key@ == src_key(),
{
}

/// When `SRC` resolved to a valid address but `DST` is absent, whatever
/// failure extraction reports is the missing-key failure naming `DST`.
pub proof fn lemma_missing_dst_reported(e: IptablesLineError, s: Seq<char>)
    requires
        sep_pos(s, 0) >= 0,
        all_tokens_ok(body_of(s)),
        exists|j: int|
            last_key_at(body_of(s), src_key(), j) && ipv4_shape(token_value(body_of(s), j)),
        !has_key(body_of(s), dst_key()),
        extract_err_matches(e, s),
    ensures
        e matches IptablesLineError::MissingKey { key } && key@ == dst_key(),
{
    let b = body_of(s);
    let j = choose|j: int| last_key_at(b, src_key(), j) && ipv4_shape(token_value(b, j));
    if exists|j2: int| last_key_at(b, src_key(), j2) && !ipv4_shape(token_value(b, j2)) {
        let j2 = choose|j2: int| last_key_at(b, src_key(), j2) && !ipv4_shape(token_value(b, j2));
        lemma_last_key_unique(b, src_key(), j, j2);
    }
}

/// Round trip: a line built from any severity digit 0 through 7, any
/// valid wall-clock timestamp and any message classifies successfully and
/// recovers that same digit, and that same message.
pub proof fn lemma_severity_round_trip(dc: char, ts: Seq<char>, msg: Seq<char>)
    requires
        is_digit_char(dc),
        digit_val(dc) <= 7,
        ts_exact(ts),
        calendar_ok_at(ts, 0),
    ensures
        ({
            let line = seq!['<', dc, '>'] + ts + seq![' '] + msg;
            &&& wall_parse_spec(line) is Ok
            &&& wall_parse_spec(line)->Ok_0.level.code_spec() == digit_val(dc)
            &&& wall_parse_spec(line)->Ok_0.message == msg
        }),
{
    let line = seq!['<', dc, '>'] + ts + seq![' '] + msg;
    assert(line.len() == 3 + ts.len() + 1 + msg.len());
    assert(line[0] == '<' && line[1] == dc && line[2] == '>');
    assert(has_level_prefix(line));
    assert forall|k: int| 0 <= k < ts.len() implies line[k + 3] == ts[k] by {
        assert(line[k + 3] == (seq!['<', dc, '>'] + ts)[k + 3]);
    }
    lemma_ts_embed(ts, line, 3);
    assert(wall_ts_start(line) == 3);
    assert(line[3 + ts.len() as int] == ' ');
    assert(ts_end_at(line, 3) == 3 + ts.len());
    assert(wall_line_shape(line));
    assert(calendar_ok_at(line, 3));
    assert(digit_val(line[1]) == digit_val(dc));
    assert(wall_message(line) =~= msg);
    let lvl = KernelLogLevel::of_code_spec(digit_val(dc));
    assert(lvl.code_spec() == digit_val(dc));
}

/// The `+HHMM` and `+HH:MM` spellings of one timezone offset parse to the
/// identical instant: inserting the optional colon between offset hours
/// and minutes changes nothing of the parsed timestamp value.
pub proof fn lemma_offset_colon_same_instant(s1: Seq<char>, s2: Seq<char>)
    requires
        ts_exact(s1),
        !offset_uses_colon(s1, frac_end_at(s1, 0)),
        s2 == s1.subrange(0, frac_end_at(s1, 0) + 3) + seq![':'] + s1.subrange(
            frac_end_at(s1, 0) + 3,
            s1.len() as int,
        ),
    ensures
        ts_exact(s2),
        ct_at(s2, 0) == ct_at(s1, 0),
        calendar_ok_at(s2, 0) <==> calendar_ok_at(s1, 0),
        crate::timestamp::instant_micros_of(ct_at(s2, 0)) == crate::timestamp::instant_micros_of(
            ct_at(s1, 0),
        ),
{
    let o = frac_end_at(s1, 0);
    lemma_digits_end(s1, 20);
    assert(20 < o < s1.len());
    assert(s1.len() == o + 5);
    assert(s2.len() == o + 6);
    assert forall|k: int| 0 <= k < o + 3 implies s2[k] == s1[k] by {
        assert(s2[k] == s1.subrange(0, o + 3)[k]);
    }
    assert(s2[o + 3] == ':');
    assert(s2[o + 4] == s1.subrange(o + 3, s1.len() as int)[0]);
    assert(s2[o + 5] == s1.subrange(o + 3, s1.len() as int)[1]);
    assert(s2[o + 4] == s1[o + 3] && s2[o + 5] == s1[o + 4]);
    lemma_digits_end_agree(s1, s2, 20, 0);
    assert(frac_end_at(s2, 0) == o);
    crate::scan::lemma_all_digits_agree(s1, s2, 0, 4, 0);
    crate::scan::lemma_all_digits_agree(s1, s2, 5, 7, 0);
    crate::scan::lemma_all_digits_agree(s1, s2, 8, 10, 0);
    crate::scan::lemma_all_digits_agree(s1, s2, 11, 13, 0);
    crate::scan::lemma_all_digits_agree(s1, s2, 14, 16, 0);
    crate::scan::lemma_all_digits_agree(s1, s2, 17, 19, 0);
    assert(date_time_shape_at(s2, 0));
    assert(offset_uses_colon(s2, o));
    crate::scan::lemma_all_digits_agree(s1, s2, o + 1, o + 3, 0);
    crate::scan::lemma_all_digits_agree(s1, s2, o + 3, o + 5, 1);
    assert(offset_shape(s2, o));
    assert(ts_shape_at(s2, 0));
    assert(ts_end_at(s2, 0) == o + 6);
    assert(ts_exact(s2));
    lemma_digits_val_agree(s1, s2, 0, 4, 0);
    lemma_digits_val_agree(s1, s2, 5, 7, 0);
    lemma_digits_val_agree(s1, s2, 8, 10, 0);
    lemma_digits_val_agree(s1, s2, 11, 13, 0);
    lemma_digits_val_agree(s1, s2, 14, 16, 0);
    lemma_digits_val_agree(s1, s2, 17, 19, 0);
    assert(year_at(s2, 0) == year_at(s1, 0));
    assert(month_at(s2, 0) == month_at(s1, 0));
    assert(day_at(s2, 0) == day_at(s1, 0));
    assert(hour_at(s2, 0) == hour_at(s1, 0));
    assert(minute_at(s2, 0) == minute_at(s1, 0));
    assert(second_at(s2, 0) == second_at(s1, 0));
    let k = if o - 20 >= 6 {
        6int
    } else {
        o - 20
    };
    lemma_digits_val_agree(s1, s2, 20, 20 + k, 0);
    assert(frac_micros_at(s2, 0) == frac_micros_at(s1, 0));
    lemma_digits_val_agree(s1, s2, o + 1, o + 3, 0);
    lemma_digits_val_agree(s1, s2, o + 3, o + 5, 1);
    assert(offset_hh_at(s2, 0) == offset_hh_at(s1, 0));
    assert(offset_mm_at(s2, 0) == offset_mm_at(s1, 0));
    assert(offset_minutes_at(s2, 0) == offset_minutes_at(s1, 0));
    assert(ct_at(s2, 0) == ct_at(s1, 0));
}

} // verus!
