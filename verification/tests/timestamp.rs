use chrono::{DateTime, Utc};
use crtime::timestamp::{MAX_SECS, MIN_SECS, NANOS_PER_SEC};
use crtime::Timestamp;

fn at(secs: i64, nanos: u32) -> Timestamp {
    Timestamp::new(secs, nanos).unwrap()
}

#[test]
fn timestamp_keeps_seconds_and_nanoseconds() {
    let t = at(1_688_429_345, 17);
    assert_eq!(t.secs(), 1_688_429_345);
    assert_eq!(t.nanos(), 17);
}

#[test]
fn calendar_bounds_are_those_of_chrono() {
    assert_eq!(MIN_SECS, DateTime::<Utc>::MIN_UTC.timestamp());
    assert_eq!(MAX_SECS, DateTime::<Utc>::MAX_UTC.timestamp());
    assert!(DateTime::<Utc>::from_timestamp(MIN_SECS, 0).is_some());
    assert!(DateTime::<Utc>::from_timestamp(MAX_SECS, NANOS_PER_SEC - 1).is_some());
    assert!(DateTime::<Utc>::from_timestamp(MIN_SECS - 1, 0).is_none());
    assert!(DateTime::<Utc>::from_timestamp(MAX_SECS + 1, 0).is_none());
}

#[test]
fn timestamp_outside_the_calendar_is_refused() {
    assert!(Timestamp::new(MIN_SECS - 1, 0).is_none());
    assert!(Timestamp::new(MAX_SECS + 1, 0).is_none());
    assert!(Timestamp::new(i64::MIN, 0).is_none());
    assert!(Timestamp::new(i64::MAX, 0).is_none());
}

#[test]
fn timestamp_with_too_many_nanoseconds_is_refused() {
    assert!(Timestamp::new(0, NANOS_PER_SEC).is_none());
    assert!(Timestamp::new(59, 1_500_000_000).is_none());
    assert!(Timestamp::new(0, u32::MAX).is_none());
    assert!(Timestamp::new(0, NANOS_PER_SEC - 1).is_some());
}

#[test]
fn timestamp_at_the_bounds_is_accepted() {
    assert!(Timestamp::new(MIN_SECS, 0).is_some());
    assert!(Timestamp::new(MAX_SECS, NANOS_PER_SEC - 1).is_some());
}

#[test]
fn not_after_orders_by_seconds_then_nanoseconds() {
    assert!(at(1, 0).not_after(&at(2, 0)));
    assert!(!at(2, 0).not_after(&at(1, 0)));
    assert!(at(1, 5).not_after(&at(1, 6)));
    assert!(!at(1, 6).not_after(&at(1, 5)));
    assert!(at(1, 999_999_999).not_after(&at(2, 0)));
    assert!(!at(2, 0).not_after(&at(1, 999_999_999)));
    assert!(at(-1, 999_999_999).not_after(&at(0, 0)));
    assert!(at(-5, 0).not_after(&at(-4, 0)));
}

#[test]
fn not_after_holds_of_equal_instants() {
    assert!(at(7, 7).not_after(&at(7, 7)));
    assert!(at(0, 0).not_after(&at(0, 0)));
}

#[test]
fn not_after_agrees_with_chrono() {
    let instants = [(-3, 2), (-3, 999_999_999), (0, 0), (0, 1), (5, 0), (5, 1), (6, 0)];
    for a in instants {
        for b in instants {
            let left = DateTime::<Utc>::from_timestamp(a.0, a.1).unwrap();
            let right = DateTime::<Utc>::from_timestamp(b.0, b.1).unwrap();
            assert_eq!(at(a.0, a.1).not_after(&at(b.0, b.1)), left <= right);
        }
    }
}

#[test]
fn stamp_is_year_month_day_minute_second() {
    // 2023-07-04T00:09:05Z
    assert_eq!(at(1_688_429_345, 0).stamp(), "202307040905");
}

#[test]
fn stamp_of_the_epoch() {
    assert_eq!(at(0, 0).stamp(), "197001010000");
}

#[test]
fn stamp_leaves_the_hour_out() {
    // 2023-07-04T00:09:05Z and 2023-07-04T13:09:05Z
    assert_eq!(at(1_688_429_345, 0).stamp(), at(1_688_429_345 + 13 * 3600, 0).stamp());
}

#[test]
fn stamp_puts_minutes_before_seconds() {
    // 2001-09-09T01:46:40Z
    assert_eq!(at(1_000_000_000, 0).stamp(), "200109094640");
}

#[test]
fn stamp_leaves_the_nanoseconds_out() {
    assert_eq!(at(1_000_000_000, 999_999_999).stamp(), "200109094640");
}

#[test]
fn stamp_before_the_epoch() {
    // 1969-12-31T23:59:59Z
    assert_eq!(at(-1, 0).stamp(), "196912315959");
}

#[test]
fn stamp_pads_early_years_to_four_digits() {
    // 0099-01-01T00:00:00Z
    assert_eq!(at(-59_042_995_200, 0).stamp(), "009901010000");
}

#[test]
fn stamp_signs_years_beyond_four_digits() {
    // 10000-01-01T00:00:00Z
    assert_eq!(at(253_402_300_800, 0).stamp(), "+1000001010000");
    assert_eq!(at(MAX_SECS, 0).stamp(), "+26214212315959");
}

#[test]
fn stamp_signs_years_before_year_zero() {
    // -0001-12-31T23:59:59Z
    assert_eq!(at(-62_167_219_201, 0).stamp(), "-000112315959");
    assert_eq!(at(MIN_SECS, 0).stamp(), "-26214301010000");
}

#[test]
fn stamp_is_what_chrono_writes() {
    for secs in [-86_401, -1, 0, 59, 60, 3_599, 3_600, 86_399, 86_400, 951_782_400, 1_709_251_199] {
        let expected =
            DateTime::<Utc>::from_timestamp(secs, 0).unwrap().format("%Y%m%d%M%S").to_string();
        assert_eq!(at(secs, 0).stamp(), expected);
    }
}
