use kernellog::kernel::KernelLine;
use kernellog::kernel::KernelLineError;
use kernellog::kernel::KernelLogLevel;
use kernellog::kernel::LineFormat;
use kernellog::kernel::Timestamp;
use kernellog::timestamp::CalendarTimestamp;
use kernellog::utils::get_boot_log_line_matches;
use kernellog::utils::get_log_line_regex_matches;
use kernellog::utils::parse_dmesg_iso_timestamp;

#[test]
fn check_for_unexpected_kernel_loglevel() {
    let input = "8 2020-07-30T14:02:51,000000+00:00 blabla";
    match get_log_line_regex_matches(input) {
        Ok(_) => assert_eq!(true, false),
        Err(e) => assert_eq!(true, matches!(e, KernelLineError::StructuralMismatch { .. })),
    };
}

#[test]
fn absent_severity_defaults_to_info() {
    let (level, _, msg) =
        get_log_line_regex_matches("2020-07-30T14:02:51,000000+00:00 hello").unwrap();
    assert_eq!(level, KernelLogLevel::Info);
    assert_eq!(msg, "hello");
}

#[test]
fn severity_digit_round_trips() {
    let levels = [
        KernelLogLevel::Emergency,
        KernelLogLevel::Alert,
        KernelLogLevel::Critical,
        KernelLogLevel::Error,
        KernelLogLevel::Warning,
        KernelLogLevel::Notice,
        KernelLogLevel::Info,
        KernelLogLevel::Debug,
    ];
    for d in 0u8..8 {
        let line = format!("<{}>2020-07-30T14:02:51,123456+0200 msg", d);
        let (level, _, msg) = get_log_line_regex_matches(&line).unwrap();
        assert_eq!(level.code(), d);
        assert_eq!(level, levels[d as usize]);
        assert_eq!(msg, "msg");
    }
}

#[test]
fn severity_digit_eight_is_rejected() {
    let r = get_log_line_regex_matches("<8>2020-07-30T14:02:51,000000+00:00 blabla");
    match r {
        Err(KernelLineError::UnexpectedSeverity { input }) => assert_eq!(input, "8"),
        _ => panic!("expected the severity-range failure"),
    }
    let r = get_log_line_regex_matches("<9>2020-07-30T14:02:51,000000+00:00 blabla");
    assert!(matches!(r, Err(KernelLineError::UnexpectedSeverity { .. })));
}

#[test]
fn severity_digit_eight_is_rejected_boot_form() {
    let r = get_boot_log_line_matches("<8>[   12.345] oops");
    match r {
        Err(KernelLineError::UnexpectedSeverity { input }) => assert_eq!(input, "8"),
        _ => panic!("expected the severity-range failure"),
    }
}

#[test]
fn offset_spellings_give_the_identical_instant() {
    let a = parse_dmesg_iso_timestamp("2020-07-30T14:02:51,123456+0230").unwrap();
    let b = parse_dmesg_iso_timestamp("2020-07-30T14:02:51,123456+02:30").unwrap();
    assert_eq!(a, b);
    assert_eq!(a.epoch_micros(), b.epoch_micros());
    let c = parse_dmesg_iso_timestamp("2020-07-30T14:02:51,123456-0130").unwrap();
    let d = parse_dmesg_iso_timestamp("2020-07-30T14:02:51,123456-01:30").unwrap();
    assert_eq!(c, d);
    assert_eq!(c.offset_minutes, -90);
}

#[test]
fn parsed_timestamp_fields_are_exact() {
    let ts = parse_dmesg_iso_timestamp("2020-07-30T14:02:51,000000+00:00").unwrap();
    assert_eq!(
        ts,
        CalendarTimestamp {
            year: 2020,
            month: 7,
            day: 30,
            hour: 14,
            minute: 2,
            second: 51,
            micros: 0,
            offset_minutes: 0,
        }
    );
}

#[test]
fn epoch_micros_has_the_expected_value() {
    // 2020-07-30T14:02:51 UTC is 1596117771 seconds after the Unix epoch.
    let ts = parse_dmesg_iso_timestamp("2020-07-30T14:02:51,000000+0000").unwrap();
    assert_eq!(ts.epoch_micros(), 1_596_117_771_000_000);
    // One day after the epoch.
    let ts = parse_dmesg_iso_timestamp("1970-01-02T00:00:00,000000+0000").unwrap();
    assert_eq!(ts.epoch_micros(), 86_400_000_000);
    // A positive offset moves the instant backwards; 90 minutes here.
    let ts = parse_dmesg_iso_timestamp("1970-01-01T02:00:00,000000+0130").unwrap();
    assert_eq!(ts.epoch_micros(), 30 * 60 * 1_000_000);
    // Before the epoch the count is negative.
    let ts = parse_dmesg_iso_timestamp("1969-12-31T23:59:59,000000+0000").unwrap();
    assert_eq!(ts.epoch_micros(), -1_000_000);
}

#[test]
fn fraction_digits_scale_to_microseconds() {
    let ts = parse_dmesg_iso_timestamp("2020-07-30T14:02:51,5+0000").unwrap();
    assert_eq!(ts.micros, 500_000);
    let ts = parse_dmesg_iso_timestamp("2020-07-30T14:02:51,123+0000").unwrap();
    assert_eq!(ts.micros, 123_000);
    let ts = parse_dmesg_iso_timestamp("2020-07-30T14:02:51,1234567+0000").unwrap();
    assert_eq!(ts.micros, 123_456);
}

#[test]
fn calendar_arithmetic_is_validated() {
    assert!(matches!(
        parse_dmesg_iso_timestamp("2020-13-01T00:00:00,000000+0000"),
        Err(KernelLineError::TimestampParseFailure { .. })
    ));
    assert!(matches!(
        parse_dmesg_iso_timestamp("2020-02-30T00:00:00,000000+0000"),
        Err(KernelLineError::TimestampParseFailure { .. })
    ));
    // Leap years: 2020 and 2000 have a February 29th, 2019 and 1900 do not.
    assert!(parse_dmesg_iso_timestamp("2020-02-29T00:00:00,000000+0000").is_ok());
    assert!(parse_dmesg_iso_timestamp("2000-02-29T00:00:00,000000+0000").is_ok());
    assert!(parse_dmesg_iso_timestamp("2019-02-29T00:00:00,000000+0000").is_err());
    assert!(parse_dmesg_iso_timestamp("1900-02-29T00:00:00,000000+0000").is_err());
    assert!(matches!(
        parse_dmesg_iso_timestamp("2020-07-30T24:00:00,000000+0000"),
        Err(KernelLineError::TimestampParseFailure { .. })
    ));
}

#[test]
fn month_thirteen_in_a_line_is_a_timestamp_failure() {
    let r = get_log_line_regex_matches("<5>2020-13-01T00:00:00,000000+0000 x");
    assert!(matches!(r, Err(KernelLineError::TimestampParseFailure { .. })));
}

#[test]
fn trailing_text_after_timestamp_is_rejected() {
    assert!(parse_dmesg_iso_timestamp("2020-07-30T14:02:51,000000+0000Z").is_err());
    assert!(parse_dmesg_iso_timestamp("x2020-07-30T14:02:51,000000+0000").is_err());
}

#[test]
fn boot_relative_line_parses() {
    let (level, stamp, msg) = get_boot_log_line_matches("<4>[   123.456] something happened")
        .unwrap();
    assert_eq!(level, KernelLogLevel::Warning);
    match stamp {
        Timestamp::BootRelative(text) => assert_eq!(text, "123.456"),
        _ => panic!("expected boot-relative timestamp text"),
    }
    assert_eq!(msg, "something happened");
}

#[test]
fn boot_form_requires_the_severity_prefix() {
    let r = get_boot_log_line_matches("[   123.456] something happened");
    assert!(matches!(r, Err(KernelLineError::StructuralMismatch { .. })));
    let r = get_boot_log_line_matches("<4>[   123] no fraction");
    assert!(matches!(r, Err(KernelLineError::StructuralMismatch { .. })));
}

#[test]
fn unrecognizable_line_fails_both_templates() {
    let r = get_log_line_regex_matches("hello world");
    assert!(matches!(r, Err(KernelLineError::StructuralMismatch { .. })));
    let r = get_boot_log_line_matches("hello world");
    assert!(matches!(r, Err(KernelLineError::StructuralMismatch { .. })));
}

#[test]
fn parsing_twice_yields_value_equal_records() {
    let line = "<3>2020-07-30T14:02:51,123456+0100 disk on fire";
    let a = KernelLine::new(line).unwrap();
    let b = KernelLine::new(line).unwrap();
    assert_eq!(a, b);
    let line = "<4>[   123.456] something happened";
    let a = KernelLine::parse(LineFormat::BootSeconds, line).unwrap();
    let b = KernelLine::parse(LineFormat::BootSeconds, line).unwrap();
    assert_eq!(a, b);
}

#[test]
fn kernel_line_record_carries_all_fields() {
    let k = KernelLine::new("<1>2020-07-30T14:02:51,000001+0000 alert text").unwrap();
    assert_eq!(k.log_level, KernelLogLevel::Alert);
    assert_eq!(k.message, "alert text");
    match k.timestamp {
        Timestamp::Calendar(ct) => {
            assert_eq!(ct.year, 2020);
            assert_eq!(ct.micros, 1);
        },
        _ => panic!("expected a calendar timestamp"),
    }
}

#[test]
fn template_selection_is_explicit() {
    let wall = "<3>2020-07-30T14:02:51,123456+0100 msg";
    let boot = "<3>[  1.0] msg";
    assert!(KernelLine::parse(LineFormat::WallClock, wall).is_ok());
    assert!(KernelLine::parse(LineFormat::WallClock, boot).is_err());
    assert!(KernelLine::parse(LineFormat::BootSeconds, boot).is_ok());
    assert!(KernelLine::parse(LineFormat::BootSeconds, wall).is_err());
}

#[test]
fn empty_message_is_allowed() {
    let (_, _, msg) = get_log_line_regex_matches("2020-07-30T14:02:51,000000+0000 ").unwrap();
    assert_eq!(msg, "");
    let r = get_log_line_regex_matches("2020-07-30T14:02:51,000000+0000");
    assert!(matches!(r, Err(KernelLineError::StructuralMismatch { .. })));
}

#[test]
fn malformed_prefix_is_structural() {
    let r = get_log_line_regex_matches("<a>2020-07-30T14:02:51,000000+0000 msg");
    assert!(matches!(r, Err(KernelLineError::StructuralMismatch { .. })));
    let r = get_log_line_regex_matches("<33>2020-07-30T14:02:51,000000+0000 msg");
    assert!(matches!(r, Err(KernelLineError::StructuralMismatch { .. })));
}

#[test]
fn log_level_codes_round_trip() {
    for d in 0u8..8 {
        let level = KernelLogLevel::from_code(d).unwrap();
        assert_eq!(level.code(), d);
    }
    assert!(KernelLogLevel::from_code(8).is_none());
    assert!(KernelLogLevel::from_code(255).is_none());
}

#[test]
fn display_text_keeps_the_historical_emergency_literal() {
    assert_eq!(KernelLogLevel::Emergency.display_text(), "DebugEmergency");
    assert_eq!(KernelLogLevel::Warning.display_text(), "Warning");
    assert_eq!(KernelLogLevel::Debug.display_text(), "Debug");
}
