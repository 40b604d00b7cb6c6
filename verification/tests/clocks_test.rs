use db_logger::clocks::{truncate_to_micros, MonotonicClock, SystemClock, MAX_UNIX_SECONDS, MIN_UNIX_SECONDS};
use time::OffsetDateTime;

#[test]
fn test_systemclock_trivial() {
    let clock = SystemClock::default();
    let now1 = clock.now_utc();
    assert!(now1 > 0);
    let now2 = clock.now_utc();
    assert!(now2 >= now1);
}

#[test]
fn test_systemclock_microsecond_resolution() {
    let clock = SystemClock::default();
    let now = clock.now_utc();
    assert!(now > 0);
    let as_time = OffsetDateTime::from_unix_timestamp_nanos(now).unwrap();
    assert_eq!(0, as_time.nanosecond() % 1000);
}

#[test]
fn test_monotonicclock() {
    let mut clock = MonotonicClock::new(123);
    assert_eq!(OffsetDateTime::from_unix_timestamp(123).unwrap().unix_timestamp_nanos(), clock.now_utc());
    assert_eq!(OffsetDateTime::from_unix_timestamp(124).unwrap().unix_timestamp_nanos(), clock.now_utc());
    assert_eq!(OffsetDateTime::from_unix_timestamp(125).unwrap().unix_timestamp_nanos(), clock.now_utc());
}

#[test]
fn test_monotonicclock_advances_by_one_second() {
    let mut clock = MonotonicClock::new(0);
    let first = clock.now_utc();
    let second = clock.now_utc();
    assert_eq!(0, first);
    assert_eq!(1_000_000_000, second - first);
}

#[test]
fn test_truncate_to_micros_rounds_toward_zero() {
    assert_eq!(1_000_001_000, truncate_to_micros(1_000_001_999));
    assert_eq!(-1_000, truncate_to_micros(-1_999));
    assert_eq!(0, truncate_to_micros(999));
    assert_eq!(12_000, truncate_to_micros(12_000));
}

#[test]
fn test_timestamp_range_matches_time_crate() {
    assert!(OffsetDateTime::from_unix_timestamp(MIN_UNIX_SECONDS).is_ok());
    assert!(OffsetDateTime::from_unix_timestamp(MIN_UNIX_SECONDS - 1).is_err());
    assert!(OffsetDateTime::from_unix_timestamp(MAX_UNIX_SECONDS).is_ok());
    assert!(OffsetDateTime::from_unix_timestamp(MAX_UNIX_SECONDS + 1).is_err());
}
