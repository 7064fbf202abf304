use chrono::{DateTime, TimeDelta, Timelike, Utc};
use simulated_exchange::time::{Timestamp, FIRST_SECOND, LAST_SECOND};

fn at(seconds: i64, nanos: u32) -> Timestamp {
    Timestamp::from_parts(seconds, nanos).unwrap()
}

fn later(seconds: i64, nanos: u32, millis: i64) -> Option<(i64, u32)> {
    at(seconds, nanos).checked_add_millis(millis).map(|time| time.parts())
}

#[test]
fn range_is_that_of_chrono() {
    assert_eq!(DateTime::<Utc>::MIN_UTC.timestamp(), FIRST_SECOND);
    assert_eq!(DateTime::<Utc>::MAX_UTC.timestamp(), LAST_SECOND);
}

#[test]
fn times_out_of_range_are_refused() {
    assert!(Timestamp::from_parts(FIRST_SECOND - 1, 0).is_none());
    assert!(Timestamp::from_parts(LAST_SECOND + 1, 0).is_none());
    assert!(Timestamp::from_parts(0, 2_000_000_000).is_none());
    assert!(Timestamp::from_parts(FIRST_SECOND, 1_999_999_999).is_some());
}

#[test]
fn default_is_the_epoch() {
    assert_eq!(Timestamp::default().parts(), (0, 0));
    let epoch = DateTime::<Utc>::default();
    assert_eq!((epoch.timestamp(), epoch.timestamp_subsec_nanos()), (0, 0));
}

#[test]
fn millis_carry_into_seconds() {
    assert_eq!(later(5, 999_000_000, 1_500), Some((7, 499_000_000)));
    assert_eq!(later(-1, 0, 250), Some((-1, 250_000_000)));
    assert_eq!(later(-1, 750_000_000, 250), Some((0, 0)));
}

#[test]
fn a_leap_second_is_left_for_the_next_second() {
    assert_eq!(later(59, 1_200_000_000, 300), Some((59, 1_500_000_000)));
    assert_eq!(later(59, 1_200_000_000, 900), Some((60, 100_000_000)));
    assert_eq!(later(59, 1_200_000_000, 1_000), Some((60, 200_000_000)));
}

#[test]
fn times_end_with_the_last_second() {
    assert_eq!(later(LAST_SECOND, 0, 999), Some((LAST_SECOND, 999_000_000)));
    assert_eq!(later(LAST_SECOND, 0, 1_000), None);
    assert_eq!(later(FIRST_SECOND, 0, i64::MAX), None);
    assert_eq!(later(FIRST_SECOND, 0, 0), Some((FIRST_SECOND, 0)));
}

#[test]
fn times_add_up_as_in_chrono() {
    for seconds in [FIRST_SECOND, -86_401, -1, 0, 58, 59, 86_399, 1_700_000_000, LAST_SECOND] {
        for nanos in [0u32, 1, 500_000_000, 999_999_999, 1_000_000_000, 1_600_000_000, 1_999_999_999] {
            for millis in [0i64, 1, 399, 400, 999, 1_000, 1_001, 86_400_000, 16_544_868_105_599_000] {
                let time = DateTime::<Utc>::from_timestamp(seconds, 0)
                    .unwrap()
                    .naive_utc()
                    .with_nanosecond(nanos)
                    .unwrap()
                    .and_utc();
                let expected = time
                    .checked_add_signed(TimeDelta::milliseconds(millis))
                    .map(|time| (time.timestamp(), time.timestamp_subsec_nanos()));
                assert_eq!(later(seconds, nanos, millis), expected);

                let added = (millis % 1_000) as u32 * 1_000_000;
                let stated = if nanos >= 1_000_000_000 && millis < 1_000 && nanos + added < 2_000_000_000 {
                    (seconds, nanos + added)
                } else {
                    let sum = nanos % 1_000_000_000 + added;
                    (seconds + millis / 1_000 + (sum / 1_000_000_000) as i64, sum % 1_000_000_000)
                };
                let stated = if stated.0 <= LAST_SECOND { Some(stated) } else { None };
                assert_eq!(later(seconds, nanos, millis), stated);
            }
        }
    }
}

#[test]
fn times_are_ordered_by_seconds_and_then_nanoseconds() {
    assert!(at(5, 0).not_before(at(4, 999_999_999)));
    assert!(at(5, 7).not_before(at(5, 7)));
    assert!(!at(5, 6).not_before(at(5, 7)));
}

#[test]
fn adding_millis_does_not_go_back() {
    for millis in [0i64, 1, 1_000, 123_456] {
        let start = at(59, 1_900_000_000);
        assert!(start.checked_add_millis(millis).unwrap().not_before(start));
    }
}
