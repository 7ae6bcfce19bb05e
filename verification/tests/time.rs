use mce_inventory::time::{Timestamp, MAX_SECS, MIN_SECS};

#[test]
fn earlier_points_keep_the_fraction_of_the_second() {
    let t = Timestamp { secs: 100_000, nanos: 7 };
    assert_eq!(t.minutes_earlier(15), Timestamp { secs: 99_100, nanos: 7 });
    assert_eq!(t.hours_earlier(24), Timestamp { secs: 13_600, nanos: 7 });
    assert_eq!(t.minutes_earlier(-1), Timestamp { secs: 100_060, nanos: 7 });
}

#[test]
fn the_calendar_ends_where_it_is_said_to_end() {
    let last = Timestamp { secs: MAX_SECS, nanos: 999_999_999 };
    assert_eq!(last.minutes_earlier(0), last);
    let first = Timestamp { secs: MIN_SECS, nanos: 0 };
    assert_eq!(first.minutes_earlier(0), first);
    assert!(chrono::DateTime::from_timestamp(MAX_SECS + 1, 0).is_none());
    assert!(chrono::DateTime::from_timestamp(MIN_SECS - 1, 0).is_none());
}

#[test]
fn points_are_ordered_by_seconds_and_nanoseconds() {
    let a = Timestamp { secs: 1, nanos: 2 };
    let b = Timestamp { secs: 1, nanos: 3 };
    let c = Timestamp { secs: 2, nanos: 0 };
    assert!(a.is_before(&b) && b.is_before(&c) && a.is_before(&c));
    assert!(!b.is_before(&a) && !a.is_before(&a));
}

#[test]
fn the_clock_shows_a_time_after_the_epoch() {
    let now = Timestamp::now();
    assert!(now.secs > 1_600_000_000);
    assert!(now.nanos < 1_000_000_000);
}
