use sailing_calculator::clock::minute_of_day;
use sailing_calculator::{format_clock, needs_next_day, parse_time};

#[test]
fn format_clock_wraps_backward_and_forward() {
    assert_eq!(format_clock(-30), "23:30");
    assert_eq!(format_clock(1440), "00:00");
}

#[test]
fn format_clock_pads_with_zeros() {
    assert_eq!(format_clock(0), "00:00");
    assert_eq!(format_clock(61), "01:01");
    assert_eq!(format_clock(1439), "23:59");
    assert_eq!(format_clock(-1441), "23:59");
    assert_eq!(format_clock(-1440), "00:00");
    assert_eq!(format_clock(700), "11:40");
    assert_eq!(format_clock(i64::MAX), "18:07");
    assert_eq!(format_clock(i64::MIN), "05:52");
}

#[test]
fn minute_of_day_is_never_negative() {
    assert_eq!(minute_of_day(-1), 1439);
    assert_eq!(minute_of_day(2880), 0);
    assert_eq!(minute_of_day(1500), 60);
}

#[test]
fn parse_time_reads_hours_and_minutes() {
    assert_eq!(parse_time("08:00"), Some(480));
    assert_eq!(parse_time("00:00"), Some(0));
    assert_eq!(parse_time("23:59"), Some(1439));
    assert_eq!(parse_time("8:5"), Some(485));
    assert_eq!(parse_time("+8:+05"), Some(485));
    assert_eq!(parse_time("0000000000000000000000012:00030"), Some(750));
}

#[test]
fn parse_time_rejects_what_is_no_time() {
    for text in [
        "", ":", "12", "12:", ":30", "24:00", "12:60", "1:2:3", " 8:00", "8:00 ", "8.00", "-8:00",
        "8:-1", "+:00", "8:+", "++8:00", "ab:cd", "８:00", "08：00", "99999999999999999999:00",
        "12:99999999999999999999", "1 2:00",
    ] {
        assert_eq!(parse_time(text), None, "{:?}", text);
    }
}

#[test]
fn clock_readings_read_back() {
    for minute in [0i64, 1, 59, 60, 719, 1439, 1440, 2000, -1, -30, -1440, 123_456_789] {
        let expected = minute.rem_euclid(1440) as u32;
        assert_eq!(parse_time(&format_clock(minute)), Some(expected));
    }
}

#[test]
fn needs_next_day_when_arrival_is_strictly_earlier() {
    assert!(needs_next_day("08:00", "07:59"));
    assert!(!needs_next_day("08:00", "08:00"));
}

#[test]
fn needs_next_day_is_false_for_later_or_unreadable_times() {
    assert!(!needs_next_day("08:00", "08:01"));
    assert!(needs_next_day("23:59", "00:00"));
    assert!(!needs_next_day("", "07:59"));
    assert!(!needs_next_day("08:00", ""));
    assert!(!needs_next_day("25:00", "07:59"));
    assert!(!needs_next_day("08:00", "7"));
}
