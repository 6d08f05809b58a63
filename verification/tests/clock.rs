use dev_dashboard::clock::{append_uptime, Timestamp, MAX_SECONDS, MIN_SECONDS};

fn uptime(start: (i64, u32), now: (i64, u32)) -> String {
    let mut out = String::new();
    let start = Timestamp::new(start.0, start.1).unwrap();
    let now = Timestamp::new(now.0, now.1).unwrap();
    append_uptime(&mut out, start, now, "m", "s");
    out
}

#[test]
fn seconds_then_minutes() {
    assert_eq!(uptime((100, 0), (100, 0)), "0s");
    assert_eq!(uptime((100, 0), (159, 999_999_999)), "59s");
    assert_eq!(uptime((100, 0), (160, 0)), "1m");
    assert_eq!(uptime((100, 0), (100 + 3600 * 5 + 61, 0)), "301m");
}

#[test]
fn parts_of_a_second_count() {
    assert_eq!(uptime((100, 500_000_000), (160, 499_999_999)), "59s");
    assert_eq!(uptime((100, 500_000_000), (160, 500_000_000)), "1m");
}

#[test]
fn clock_that_was_set_back_is_rounded_towards_zero() {
    assert_eq!(uptime((100, 0), (98, 500_000_000)), "-1s");
    assert_eq!(uptime((100, 0), (99, 500_000_000)), "0s");
    assert_eq!(uptime((1000, 0), (0, 0)), "-1000s");
}

#[test]
fn whole_range_is_covered() {
    assert_eq!(uptime((MIN_SECONDS, 0), (MAX_SECONDS, 999_999_999)), "275747801759m");
    assert_eq!(
        uptime((MAX_SECONDS, 999_999_999), (MIN_SECONDS, 0)),
        "-16544868105599s"
    );
    assert!(Timestamp::new(MIN_SECONDS - 1, 0).is_none());
    assert!(Timestamp::new(MAX_SECONDS + 1, 0).is_none());
    assert!(Timestamp::new(i64::MIN, u32::MAX).is_none());
    assert!(Timestamp::new(i64::MAX, u32::MAX).is_none());
}

#[test]
fn leap_seconds_are_kept() {
    let t = Timestamp::new(59, 1_500_000_000).unwrap();
    assert_eq!((t.seconds(), t.nanos()), (59, 1_500_000_000));
    let t = Timestamp::new(-1, 1_999_999_999).unwrap();
    assert_eq!((t.seconds(), t.nanos()), (-1, 1_999_999_999));
    assert!(Timestamp::new(MAX_SECONDS, 1_000_000_000).is_some());
    assert!(Timestamp::new(60, 1_000_000_000).is_none());
    assert!(Timestamp::new(-2, 1_000_000_000).is_none());
    assert!(Timestamp::new(59, 2_000_000_000).is_none());
}

#[test]
fn leap_seconds_are_counted_from_the_earlier_time_of_day() {
    // From within a leap second at noon, and from within one at midnight.
    assert_eq!(uptime((43_259, 1_000_000_000), (43_260, 0)), "1s");
    assert_eq!(uptime((43_259, 1_500_000_000), (43_270, 0)), "10s");
    assert_eq!(uptime((86_399, 1_500_000_000), (86_400, 0)), "0s");
    assert_eq!(uptime((86_399, 1_500_000_000), (86_410, 0)), "9s");
    // To within a leap second.
    assert_eq!(uptime((43_258, 0), (43_259, 1_500_000_000)), "2s");
    assert_eq!(uptime((43_300, 0), (86_400 + 59, 1_500_000_000)), "719m");
    assert_eq!(uptime((43_270, 0), (43_259, 1_500_000_000)), "-10s");
}
