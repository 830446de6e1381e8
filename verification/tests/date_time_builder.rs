use momentous::iso8601::Chronology;
use momentous::iso8601::DateTimeBuilder;
use momentous::iso8601::Error;
use momentous::iso8601::Precision;
use momentous::zoneinfo::LeapSecond;

fn utc_table_chronology() -> Chronology {
    let table: Vec<(i64, i32)> = vec![
        (78796800, 1),
        (94694400, 2),
        (126230400, 3),
        (157766400, 4),
        (189302400, 5),
        (220924800, 6),
        (252460800, 7),
        (283996800, 8),
        (315532800, 9),
        (362793600, 10),
        (394329600, 11),
        (425865600, 12),
        (489024000, 13),
        (567993600, 14),
        (631152000, 15),
        (662688000, 16),
        (709948800, 17),
        (741484800, 18),
        (773020800, 19),
        (820454400, 20),
        (867715200, 21),
        (915148800, 22),
        (1136073600, 23),
        (1230768000, 24),
        (1341100800, 25),
        (1435708800, 26),
        (1483228800, 27),
    ];
    let records: Vec<LeapSecond> = table
        .iter()
        .map(|&(unix_timestamp, leap_second_count)| LeapSecond {
            unix_timestamp,
            leap_second_count,
        })
        .collect();
    Chronology::from_leap_second_table(&records, false).unwrap()
}

#[test]
fn test_builder() {
    let c = utc_table_chronology();
    // GregorianNormalizedDate epoch
    let dt = DateTimeBuilder::new()
        .chronology(&c)
        .year(2000)
        .month(3)
        .day(1)
        .hour(0)
        .minute(0)
        .second(0)
        .build();
    assert_eq!(dt.year(), 2000);
    assert_eq!(dt.month(), 3);
    assert_eq!(dt.day(), 1);
    assert_eq!(dt.hour(), 0);
    assert_eq!(dt.minute(), 0);
    assert_eq!(dt.second(), 0);

    // DateTime epoch
    let dt = DateTimeBuilder::new()
        .chronology(&c)
        .year(1970)
        .month(1)
        .day(1)
        .hour(0)
        .minute(0)
        .second(0)
        .build();
    assert_eq!(dt.year(), 1970);
    assert_eq!(dt.month(), 1);
    assert_eq!(dt.day(), 1);
    assert_eq!(dt.hour(), 0);
    assert_eq!(dt.minute(), 0);
    assert_eq!(dt.second(), 0);

    // Out of bounds year.
    let result = DateTimeBuilder::new()
        .chronology(&c)
        .year(10000)
        .month(1)
        .day(1)
        .hour(0)
        .minute(0)
        .second(0)
        .checked_build();
    assert_eq!(result.err(), Some(Error::DateTimeOutOfBounds));

    // Invalid month.
    let result = DateTimeBuilder::new()
        .chronology(&c)
        .year(2000)
        .month(13)
        .day(1)
        .hour(0)
        .minute(0)
        .second(0)
        .checked_build();
    assert_eq!(result.err(), Some(Error::InvalidDateTime));

    // Invalid day of month.
    let result = DateTimeBuilder::new()
        .chronology(&c)
        .year(2000)
        .month(3)
        .day(32)
        .hour(0)
        .minute(0)
        .second(0)
        .checked_build();
    assert_eq!(result.err(), Some(Error::InvalidDateTime));

    // Leap day on a non-leap year.
    let result = DateTimeBuilder::new()
        .chronology(&c)
        .year(2001)
        .month(2)
        .day(29)
        .hour(0)
        .minute(0)
        .second(0)
        .checked_build();
    assert_eq!(result.err(), Some(Error::InvalidDateTime));

    // Leap day on a leap year.
    let result = DateTimeBuilder::new()
        .chronology(&c)
        .year(2000)
        .month(2)
        .day(29)
        .hour(0)
        .minute(0)
        .second(0)
        .checked_build();
    assert!(result.is_ok());
    let dt = result.unwrap();
    assert_eq!(dt.year(), 2000);
    assert_eq!(dt.month(), 2);
    assert_eq!(dt.day(), 29);
    assert_eq!(dt.hour(), 0);
    assert_eq!(dt.minute(), 0);
    assert_eq!(dt.second(), 0);

    // Invalid hour.
    let result = DateTimeBuilder::new()
        .chronology(&c)
        .year(2000)
        .month(3)
        .day(1)
        .hour(24)
        .minute(0)
        .second(0)
        .checked_build();
    assert_eq!(result.err(), Some(Error::InvalidDateTime));

    // Invalid minute.
    let result = DateTimeBuilder::new()
        .chronology(&c)
        .year(2000)
        .month(3)
        .day(1)
        .hour(0)
        .minute(60)
        .second(0)
        .checked_build();
    assert_eq!(result.err(), Some(Error::InvalidDateTime));

    // Invalid second.
    let result = DateTimeBuilder::new()
        .chronology(&c)
        .year(2000)
        .month(3)
        .day(1)
        .hour(0)
        .minute(0)
        .second(60)
        .checked_build();
    assert_eq!(result.err(), Some(Error::InvalidDateTime));

    // Valid leap second.
    let result = DateTimeBuilder::new()
        .chronology(&c)
        .year(1972)
        .month(6)
        .day(30)
        .hour(23)
        .minute(59)
        .second(60)
        .checked_build();
    assert!(result.is_ok());
    let dt = result.unwrap();
    assert_eq!(dt.year(), 1972);
    assert_eq!(dt.month(), 6);
    assert_eq!(dt.day(), 30);
    assert_eq!(dt.hour(), 23);
    assert_eq!(dt.minute(), 59);
    assert_eq!(dt.second(), 60);

    // Invalid second at end of leap second segment.
    let result = DateTimeBuilder::new()
        .chronology(&c)
        .year(1972)
        .month(6)
        .day(30)
        .hour(23)
        .minute(59)
        .second(61)
        .checked_build();
    assert_eq!(result.err(), Some(Error::InvalidDateTime));

    // Invalid millisecond.
    let result = DateTimeBuilder::new()
        .chronology(&c)
        .year(2000)
        .month(3)
        .day(1)
        .hour(0)
        .minute(0)
        .second(0)
        .millisecond(1000)
        .checked_build();
    assert_eq!(result.err(), Some(Error::InvalidDateTime));

    // Invalid microsecond.
    let result = DateTimeBuilder::new()
        .chronology(&c)
        .year(2000)
        .month(3)
        .day(1)
        .hour(0)
        .minute(0)
        .second(0)
        .millisecond(0)
        .microsecond(1000)
        .checked_build();
    assert_eq!(result.err(), Some(Error::InvalidDateTime));

    // Invalid nanosecond.
    let result = DateTimeBuilder::new()
        .chronology(&c)
        .year(2000)
        .month(3)
        .day(1)
        .hour(0)
        .minute(0)
        .second(0)
        .millisecond(0)
        .microsecond(0)
        .nanosecond(1000)
        .checked_build();
    assert_eq!(result.err(), Some(Error::InvalidDateTime));
}

#[test]
fn builder_leap_second_on_wrong_day() {
    // A second of 60 is only valid on the last minute of a day that ends
    // a leap-second segment.
    let c = utc_table_chronology();
    let result = DateTimeBuilder::new()
        .chronology(&c)
        .year(1972)
        .month(6)
        .day(29)
        .hour(23)
        .minute(59)
        .second(60)
        .checked_build();
    assert_eq!(result.err(), Some(Error::InvalidDateTime));

    let result = DateTimeBuilder::new()
        .chronology(&c)
        .year(1972)
        .month(6)
        .day(30)
        .hour(22)
        .minute(59)
        .second(60)
        .checked_build();
    assert_eq!(result.err(), Some(Error::InvalidDateTime));
}

#[test]
fn subsecond_fields_round_trip() {
    let c = utc_table_chronology();
    let dt = DateTimeBuilder::new()
        .chronology(&c)
        .year(2000)
        .month(3)
        .day(1)
        .hour(12)
        .minute(34)
        .second(56)
        .millisecond(123)
        .microsecond(456)
        .nanosecond(789)
        .build();
    assert_eq!(dt.precision(), Precision::Nanoseconds);
    assert_eq!(dt.millisecond(), 123);
    assert_eq!(dt.microsecond(), 456);
    assert_eq!(dt.nanosecond(), 789);
    assert_eq!(dt.hour(), 12);
    assert_eq!(dt.minute(), 34);
    assert_eq!(dt.second(), 56);
}

#[test]
fn precision_follows_finest_field() {
    let c = utc_table_chronology();
    let b = DateTimeBuilder::new().chronology(&c).year(2000).month(3).day(1);
    assert!(Precision::Days < Precision::Hours);
    let dt = b.checked_build().unwrap();
    assert_eq!(dt.precision(), Precision::Days);
    assert_eq!(dt.hour(), 0);
    assert_eq!(dt.minute(), 0);
    assert_eq!(dt.second(), 0);
}
