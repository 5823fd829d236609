use chrono::{Datelike, SecondsFormat, Timelike};
use psidb::clock::{date_text, padded, time_text, timestamp_text, Moment};

fn moment_of(t: &chrono::DateTime<chrono::Utc>) -> Moment {
    Moment {
        year: t.year(),
        month: t.month(),
        day: t.day(),
        hour: t.hour(),
        minute: t.minute(),
        second: t.second(),
        nanosecond: t.nanosecond(),
    }
}

#[test]
fn numbers_are_padded_with_zeros() {
    assert_eq!(padded(7, 2), "07");
    assert_eq!(padded(0, 2), "00");
    assert_eq!(padded(12, 2), "12");
    assert_eq!(padded(123, 2), "123");
    assert_eq!(padded(5, 9), "000000005");
    assert_eq!(padded(5, 0), "5");
}

#[test]
fn moment_is_written_in_three_ways() {
    let m = Moment { year: 2024, month: 5, day: 6, hour: 7, minute: 8, second: 9, nanosecond: 123 };
    assert_eq!(date_text(&m), "2024-05-06");
    assert_eq!(time_text(&m), "07:08:09+00:00");
    assert_eq!(timestamp_text(&m), "2024-05-06T07:08:09.000000123Z");
}

#[test]
fn years_outside_four_digits_carry_a_sign() {
    let m = Moment { year: 12345, month: 12, day: 31, hour: 23, minute: 59, second: 59, nanosecond: 999_999_999 };
    assert_eq!(date_text(&m), "+12345-12-31");
    assert_eq!(timestamp_text(&m), "+12345-12-31T23:59:59.999999999Z");
    let early = Moment { year: 33, ..m };
    assert_eq!(date_text(&early), "0033-12-31");
    let before = Moment { year: -5, ..m };
    assert_eq!(date_text(&before), "-0005-12-31");
}

#[test]
fn leap_second_is_shown_as_sixty() {
    let m = Moment { year: 2016, month: 12, day: 31, hour: 23, minute: 59, second: 59, nanosecond: 1_500_000_000 };
    assert_eq!(time_text(&m), "23:59:60+00:00");
    assert_eq!(timestamp_text(&m), "2016-12-31T23:59:60.500000000Z");
}

#[test]
fn moments_are_written_as_the_calendar_library_writes_them() {
    let samples: [(i64, u32); 6] = [
        (0, 0),
        (1_700_000_000, 1),
        (951_782_400, 999_999_999),
        (4_102_444_799, 123_456_789),
        (253_402_300_799, 5),
        (253_402_300_800, 0),
    ];
    for (secs, nanos) in samples {
        let t = chrono::DateTime::from_timestamp(secs, nanos).unwrap();
        let m = moment_of(&t);
        assert_eq!(date_text(&m), t.format("%Y-%m-%d").to_string());
        assert_eq!(time_text(&m), t.format("%H:%M:%S%:z").to_string());
        assert_eq!(timestamp_text(&m), t.to_rfc3339_opts(SecondsFormat::Nanos, true));
    }
}
