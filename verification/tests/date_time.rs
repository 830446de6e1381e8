use momentous::iso8601::Chronology;
use momentous::iso8601::DateTime;
use momentous::zoneinfo::LeapSecond;

/// The published IERS leap-second table: the Unix timestamp at which each
/// leap second takes effect, with the running total of seconds inserted.
fn utc_chronology() -> Chronology {
    let table: Vec<(i64, i32)> = vec![
        (78796800, 1),
        (94694400, 2),
        (126230400, 3),
        (157766400, 4),
        (189302400, 5),
        (220924800, 6),
        (252460800, 7),
        (283996800, 8),
        (315532800, 9),
        (362793600, 10),
        (394329600, 11),
        (425865600, 12),
        (489024000, 13),
        (567993600, 14),
        (631152000, 15),
        (662688000, 16),
        (709948800, 17),
        (741484800, 18),
        (773020800, 19),
        (820454400, 20),
        (867715200, 21),
        (915148800, 22),
        (1136073600, 23),
        (1230768000, 24),
        (1341100800, 25),
        (1435708800, 26),
        (1483228800, 27),
    ];
    let records: Vec<LeapSecond> = table
        .iter()
        .map(|&(unix_timestamp, leap_second_count)| LeapSecond {
            unix_timestamp,
            leap_second_count,
        })
        .collect();
    Chronology::from_leap_second_table(&records, false).unwrap()
}

fn build(
    c: &Chronology,
    year: u16,
    month: u8,
    day: u8,
    hour: u8,
    minute: u8,
    second: u8,
) -> DateTime {
    DateTime::builder()
        .chronology(c)
        .year(year)
        .month(month)
        .day(day)
        .hour(hour)
        .minute(minute)
        .second(second)
        .build()
}

#[test]
fn test_get_minute() {
    let c = utc_chronology();
    // Epoch
    let date_time = build(&c, 2000, 3, 1, 0, 0, 0);
    assert_eq!(date_time.minute(), 0);

    // Minute 59 after the epoch
    let date_time = build(&c, 2000, 3, 1, 0, 59, 0);
    assert_eq!(date_time.minute(), 59);

    // Last minute of the day during a leap second
    let date_time = build(&c, 1998, 12, 31, 23, 59, 60);
    assert_eq!(date_time.minute(), 59);
}

#[test]
fn test_get_second() {
    let c = utc_chronology();
    // Epoch
    let date_time = build(&c, 2000, 3, 1, 0, 0, 0);
    assert_eq!(date_time.minute(), 0);

    // Second 59 after the epoch
    let date_time = build(&c, 2000, 3, 1, 0, 0, 59);
    assert_eq!(date_time.second(), 59);

    // Last second of the day during a leap second
    let date_time = build(&c, 1998, 12, 31, 23, 59, 60);
    assert_eq!(date_time.second(), 60);
}

#[test]
fn add_years_to_epoch() {
    let c = utc_chronology();
    let date_time = build(&c, 2000, 3, 1, 0, 0, 0);

    let date_time = date_time.add_years(1).unwrap();
    assert_eq!(date_time.year(), 2001);
    assert_eq!(date_time.month(), 3);
    assert_eq!(date_time.day(), 1);
    assert_eq!(date_time.hour(), 0);
    assert_eq!(date_time.minute(), 0);
    assert_eq!(date_time.second(), 0);

    let date_time = build(&c, 2000, 3, 1, 0, 0, 0);

    let date_time = date_time.add_years(3).unwrap();
    assert_eq!(date_time.year(), 2003);
    assert_eq!(date_time.month(), 3);
    assert_eq!(date_time.day(), 1);
    assert_eq!(date_time.hour(), 0);
    assert_eq!(date_time.minute(), 0);
    assert_eq!(date_time.second(), 0);

    let date_time = build(&c, 2000, 3, 1, 0, 0, 0);

    let date_time = date_time.add_years(4).unwrap();
    assert_eq!(date_time.year(), 2004);
    assert_eq!(date_time.month(), 3);
    assert_eq!(date_time.day(), 1);
    assert_eq!(date_time.hour(), 0);
    assert_eq!(date_time.minute(), 0);
    assert_eq!(date_time.second(), 0);
}

#[test]
fn add_years_to_leap_year() {
    let c = utc_chronology();
    let date_time = build(&c, 2000, 2, 29, 0, 0, 0);
    let date_time = date_time.add_years(1);
    assert_eq!(date_time.days_carry(), 1);
    assert_eq!(date_time.seconds_carry(), 0);
    let date_time = date_time.drop_carry();
    assert_eq!(date_time.year(), 2001);
    assert_eq!(date_time.month(), 2);
    assert_eq!(date_time.day(), 28);
    assert_eq!(date_time.hour(), 0);
    assert_eq!(date_time.minute(), 0);
    assert_eq!(date_time.second(), 0);

    let date_time = build(&c, 2000, 2, 29, 0, 0, 0);
    let date_time = date_time.add_years(1);
    assert_eq!(date_time.days_carry(), 1);
    assert_eq!(date_time.seconds_carry(), 0);

    let date_time = date_time.apply_carry();
    assert_eq!(date_time.year(), 2001);
    assert_eq!(date_time.month(), 3);
    assert_eq!(date_time.day(), 1);
    assert_eq!(date_time.hour(), 0);
    assert_eq!(date_time.minute(), 0);
    assert_eq!(date_time.second(), 0);

    let date_time = build(&c, 2000, 2, 29, 0, 0, 0);
    let date_time = date_time.add_years(4).unwrap();
    assert_eq!(date_time.year(), 2004);
    assert_eq!(date_time.month(), 2);
    assert_eq!(date_time.day(), 29);
    assert_eq!(date_time.hour(), 0);
    assert_eq!(date_time.minute(), 0);
    assert_eq!(date_time.second(), 0);
}

#[test]
fn add_years() {
    let c = utc_chronology();
    let date_time = build(&c, 2021, 1, 1, 0, 0, 0);
    date_time.add_years(1);
}

#[test]
fn add_years_bounds_checking() {
    let c = utc_chronology();
    // Go to the last year of the range.
    let date_time = build(&c, 9998, 1, 1, 0, 0, 0);
    let date_time = date_time.add_years(1).unwrap();
    assert_eq!(date_time.year(), 9999);
    assert_eq!(date_time.month(), 1);
    assert_eq!(date_time.day(), 1);
    assert_eq!(date_time.hour(), 0);
    assert_eq!(date_time.minute(), 0);
    assert_eq!(date_time.second(), 0);

    // Try to go beyond the last year of the range.
    let date_time = build(&c, 9999, 1, 1, 0, 0, 0);
    let date_time = date_time.checked_add_years(1);
    assert!(date_time.is_none());

    // Go to the first year of the range.
    let date_time = build(&c, 1, 1, 1, 0, 0, 0);
    let date_time = date_time.add_years(-1).unwrap();
    assert_eq!(date_time.year(), 0);
    assert_eq!(date_time.month(), 1);
    assert_eq!(date_time.day(), 1);
    assert_eq!(date_time.hour(), 0);
    assert_eq!(date_time.minute(), 0);
    assert_eq!(date_time.second(), 0);

    // Try to go beyond the first year of the range.
    let date_time = build(&c, 0, 1, 1, 0, 0, 0);
    let date_time = date_time.checked_add_years(-1);
    assert!(date_time.is_none());
}

#[test]
fn add_months() {
    let c = utc_chronology();
    let date_time = build(&c, 2000, 3, 1, 0, 0, 0);

    // Add a month to epoch time.
    let date_time = date_time.add_months(1).unwrap();
    assert_eq!(date_time.year(), 2000);
    assert_eq!(date_time.month(), 4);
    assert_eq!(date_time.day(), 1);
    assert_eq!(date_time.hour(), 0);
    assert_eq!(date_time.minute(), 0);
    assert_eq!(date_time.second(), 0);

    // Go back.
    let date_time = date_time.add_months(-1).unwrap();
    assert_eq!(date_time.year(), 2000);
    assert_eq!(date_time.month(), 3);
    assert_eq!(date_time.day(), 1);
    assert_eq!(date_time.hour(), 0);
    assert_eq!(date_time.minute(), 0);
    assert_eq!(date_time.second(), 0);

    // Add from a month with 31 days to a month with 30 days.
    let date_time = build(&c, 2000, 3, 31, 0, 0, 0);
    let date_time = date_time.add_months(1);
    assert_eq!(date_time.days_carry(), 1);
    assert_eq!(date_time.seconds_carry(), 0);
    let date_time = date_time.apply_carry();
    assert_eq!(date_time.year(), 2000);
    assert_eq!(date_time.month(), 5);
    assert_eq!(date_time.day(), 1);
    assert_eq!(date_time.hour(), 0);
    assert_eq!(date_time.minute(), 0);
    assert_eq!(date_time.second(), 0);

    // Add from a leap day to a non-leap day
    let date_time = build(&c, 2000, 2, 29, 0, 0, 0);
    let date_time = date_time.add_months(12);
    assert_eq!(date_time.days_carry(), 1);
    assert_eq!(date_time.seconds_carry(), 0);
    let date_time = date_time.apply_carry();
    assert_eq!(date_time.year(), 2001);
    assert_eq!(date_time.month(), 3);
    assert_eq!(date_time.day(), 1);
    assert_eq!(date_time.hour(), 0);
    assert_eq!(date_time.minute(), 0);
    assert_eq!(date_time.second(), 0);

    // Go to the last month of the range of DateTime.
    let date_time = build(&c, 9999, 11, 1, 0, 0, 0);
    let date_time = date_time.add_months(1).unwrap();
    assert_eq!(date_time.year(), 9999);
    assert_eq!(date_time.month(), 12);
    assert_eq!(date_time.day(), 1);
    assert_eq!(date_time.hour(), 0);
    assert_eq!(date_time.minute(), 0);
    assert_eq!(date_time.second(), 0);

    // Try to go beyond the last month of the range of DateTime.
    let date_time = build(&c, 9999, 12, 1, 0, 0, 0);
    assert!(date_time.checked_add_months(1).is_none());

    // Go to the first month of the range of DateTime.
    let date_time = build(&c, 0, 2, 1, 0, 0, 0);
    let date_time = date_time.add_months(-1).unwrap();
    assert_eq!(date_time.year(), 0);
    assert_eq!(date_time.month(), 1);
    assert_eq!(date_time.day(), 1);
    assert_eq!(date_time.hour(), 0);
    assert_eq!(date_time.minute(), 0);
    assert_eq!(date_time.second(), 0);

    // Try to go beyond the first month of the range of DateTime.
    let date_time = build(&c, 0, 1, 1, 0, 0, 0);
    assert!(date_time.checked_add_months(-1).is_none());

    // Go from the beginning of the range to the end of the range.
    let date_time = build(&c, 0, 1, 1, 0, 0, 0);
    let date_time = date_time.add_months(9999 * 12 + 11).unwrap();
    assert_eq!(date_time.year(), 9999);
    assert_eq!(date_time.month(), 12);
    assert_eq!(date_time.day(), 1);
    assert_eq!(date_time.hour(), 0);
    assert_eq!(date_time.minute(), 0);
    assert_eq!(date_time.second(), 0);

    // Go from the end of the range to the beginning of the range.
    let date_time = build(&c, 9999, 12, 1, 0, 0, 0);
    let date_time = date_time.add_months(-9999 * 12 - 11).unwrap();
    assert_eq!(date_time.year(), 0);
    assert_eq!(date_time.month(), 1);
    assert_eq!(date_time.day(), 1);
    assert_eq!(date_time.hour(), 0);
    assert_eq!(date_time.minute(), 0);
    assert_eq!(date_time.second(), 0);
}

#[test]
fn add_days() {
    let c = utc_chronology();
    // Add 0 days.
    let date_time = build(&c, 2000, 3, 1, 0, 0, 0);
    let date_time = date_time.add_days(0).unwrap();
    assert_eq!(date_time.year(), 2000);
    assert_eq!(date_time.month(), 3);
    assert_eq!(date_time.day(), 1);
    assert_eq!(date_time.hour(), 0);
    assert_eq!(date_time.minute(), 0);
    assert_eq!(date_time.second(), 0);

    // Add a day to epoch time.
    let date_time = build(&c, 2000, 3, 1, 0, 0, 0);

    let date_time = date_time.add_days(1).unwrap();
    assert_eq!(date_time.year(), 2000);
    assert_eq!(date_time.month(), 3);
    assert_eq!(date_time.day(), 2);
    assert_eq!(date_time.hour(), 0);
    assert_eq!(date_time.minute(), 0);
    assert_eq!(date_time.second(), 0);

    // Reverse.
    let date_time = date_time.add_days(-1).unwrap();
    assert_eq!(date_time.year(), 2000);
    assert_eq!(date_time.month(), 3);
    assert_eq!(date_time.day(), 1);
    assert_eq!(date_time.hour(), 0);
    assert_eq!(date_time.minute(), 0);
    assert_eq!(date_time.second(), 0);

    // Reverse to before epoch time.
    let date_time = date_time.add_days(-1).unwrap();
    assert_eq!(date_time.year(), 2000);
    assert_eq!(date_time.month(), 2);
    assert_eq!(date_time.day(), 29);
    assert_eq!(date_time.hour(), 0);
    assert_eq!(date_time.minute(), 0);
    assert_eq!(date_time.second(), 0);

    // Go back forward to epoch time.
    let date_time = date_time.add_days(1).unwrap();
    assert_eq!(date_time.year(), 2000);
    assert_eq!(date_time.month(), 3);
    assert_eq!(date_time.day(), 1);
    assert_eq!(date_time.hour(), 0);
    assert_eq!(date_time.minute(), 0);
    assert_eq!(date_time.second(), 0);

    // Go to the last day of the range of DateTime.
    let date_time = build(&c, 9999, 12, 30, 0, 0, 0);
    let date_time = date_time.add_days(1).unwrap();
    assert_eq!(date_time.year(), 9999);
    assert_eq!(date_time.month(), 12);
    assert_eq!(date_time.day(), 31);
    assert_eq!(date_time.hour(), 0);
    assert_eq!(date_time.minute(), 0);
    assert_eq!(date_time.second(), 0);

    // Try to go beyond the last day of the range of DateTime.
    let date_time = build(&c, 9999, 12, 31, 0, 0, 0);
    assert!(date_time.checked_add_days(1).is_none());

    // Go to the first day of the range of DateTime.
    let date_time = build(&c, 0, 1, 2, 0, 0, 0);
    let date_time = date_time.add_days(-1).unwrap();
    assert_eq!(date_time.year(), 0);
    assert_eq!(date_time.month(), 1);
    assert_eq!(date_time.day(), 1);
    assert_eq!(date_time.hour(), 0);
    assert_eq!(date_time.minute(), 0);
    assert_eq!(date_time.second(), 0);

    // Try to go beyond the first day of the range of DateTime.
    let date_time = build(&c, 0, 1, 1, 0, 0, 0);
    assert!(date_time.checked_add_days(-1).is_none());

    // Go from the beginning of the range to the end of the range.
    let date_time = build(&c, 0, 1, 1, 0, 0, 0);
    let date_time = date_time.add_days(25 * 146097 - 1).unwrap(); // 10000 years = 25 cycles
    assert_eq!(date_time.year(), 9999);
    assert_eq!(date_time.month(), 12);
    assert_eq!(date_time.day(), 31);
    assert_eq!(date_time.hour(), 0);
    assert_eq!(date_time.minute(), 0);
    assert_eq!(date_time.second(), 0);

    // Add the maximum number of days to the end of the range.
    let date = build(&c, 9999, 12, 31, 0, 0, 0);
    assert!(date.checked_add_days(i32::MAX).is_none());

    // Go to the last in-bounds date of the backing GregorianNormalizedDate.
    // This will be out of bounds for the DateTime but should generate a
    // valid GregorianNormalizedDate internally.
    let date = build(&c, 1970, 1, 1, 0, 0, 0);
    assert!(
        date.checked_add_days(
            momentous::gregorian_normalized_date::MAX_FIXED_DAY
        ).is_none()
    );

    // Go out of bounds on the high end of the backing
    // GregorianNormalizedDate.
    let date = build(&c, 1970, 1, 1, 0, 0, 0);
    assert!(
        date.checked_add_days(
            momentous::gregorian_normalized_date::MAX_FIXED_DAY + 1
        ).is_none()
    );
}

#[test]
fn add_hours() {
    let c = utc_chronology();
    // Add 0 hours.
    let date_time = build(&c, 2000, 3, 1, 0, 0, 0);
    let date_time = date_time.add_hours(0).unwrap();
    assert_eq!(date_time.year(), 2000);
    assert_eq!(date_time.month(), 3);
    assert_eq!(date_time.day(), 1);
    assert_eq!(date_time.hour(), 0);
    assert_eq!(date_time.minute(), 0);
    assert_eq!(date_time.second(), 0);

    let date_time = build(&c, 2000, 3, 1, 0, 0, 0);

    // Add an hour to epoch time.
    let date_time = date_time.add_hours(1).drop_carry();
    assert_eq!(date_time.year(), 2000);
    assert_eq!(date_time.month(), 3);
    assert_eq!(date_time.day(), 1);
    assert_eq!(date_time.hour(), 1);
    assert_eq!(date_time.minute(), 0);
    assert_eq!(date_time.second(), 0);

    // Go back.
    let date_time = date_time.add_hours(-1).drop_carry();
    assert_eq!(date_time.year(), 2000);
    assert_eq!(date_time.month(), 3);
    assert_eq!(date_time.day(), 1);
    assert_eq!(date_time.hour(), 0);
    assert_eq!(date_time.minute(), 0);

    // Subtract an hour from epoch time.
    let date_time = date_time.add_hours(-1).drop_carry();
    assert_eq!(date_time.year(), 2000);
    assert_eq!(date_time.month(), 2);
    assert_eq!(date_time.day(), 29);
    assert_eq!(date_time.hour(), 23);
    assert_eq!(date_time.minute(), 0);
    assert_eq!(date_time.second(), 0);

    // Add through a leap second.
    let date_time = build(&c, 1998, 12, 31, 23, 59, 59);
    let date_time = date_time.add_hours(1).unwrap();
    assert_eq!(date_time.year(), 1999);
    assert_eq!(date_time.month(), 1);
    assert_eq!(date_time.day(), 1);
    assert_eq!(date_time.hour(), 0);
    assert_eq!(date_time.minute(), 59);
    assert_eq!(date_time.second(), 59);

    // Add from a leap second to generate carry.
    let date_time = build(&c, 1998, 12, 31, 23, 59, 60);
    let date_time = date_time.add_hours(1);
    assert_eq!(date_time.days_carry(), 0);
    assert_eq!(date_time.seconds_carry(), 1);
    let date_time = date_time.apply_carry();
    assert_eq!(date_time.year(), 1999);
    assert_eq!(date_time.month(), 1);
    assert_eq!(date_time.day(), 1);
    assert_eq!(date_time.hour(), 1);
    assert_eq!(date_time.minute(), 0);
    assert_eq!(date_time.second(), 0);

    // Add hours across multiple days.
    let date_time = build(&c, 1998, 12, 31, 23, 59, 59);
    let date_time = date_time.add_hours(2 * 24).unwrap();
    assert_eq!(date_time.year(), 1999);
    assert_eq!(date_time.month(), 1);
    assert_eq!(date_time.day(), 2);
    assert_eq!(date_time.hour(), 23);
    assert_eq!(date_time.minute(), 59);
    assert_eq!(date_time.second(), 59);

    // Subtract hours across multiple days.
    let date_time = build(&c, 1999, 1, 2, 23, 59, 59);
    let date_time = date_time.add_hours(-2 * 24).unwrap();
    assert_eq!(date_time.year(), 1998);
    assert_eq!(date_time.month(), 12);
    assert_eq!(date_time.day(), 31);
    assert_eq!(date_time.hour(), 23);
    assert_eq!(date_time.minute(), 59);
    assert_eq!(date_time.second(), 59);

    // Add hours spanning 100 years.
    let date_time = build(&c, 1998, 12, 31, 23, 59, 59);
    let date_time = date_time.add_hours(36525 * 24).unwrap();
    assert_eq!(date_time.year(), 2098);
    assert_eq!(date_time.month(), 12);
    assert_eq!(date_time.day(), 31);
    assert_eq!(date_time.hour(), 23);
    assert_eq!(date_time.minute(), 59);
    assert_eq!(date_time.second(), 59);

    // Go to the last hour of the DateTime range.
    let date_time = build(&c, 9999, 12, 31, 22, 0, 0);
    let date_time = date_time.add_hours(1).unwrap();
    assert_eq!(date_time.year(), 9999);
    assert_eq!(date_time.month(), 12);
    assert_eq!(date_time.day(), 31);
    assert_eq!(date_time.hour(), 23);
    assert_eq!(date_time.minute(), 0);
    assert_eq!(date_time.second(), 0);

    // Go out of bounds at the end of the DateTime range.
    let date_time = build(&c, 9999, 12, 31, 23, 0, 0);
    assert!(date_time.checked_add_hours(1).is_none());

    // Go to the first hour of the DateTime range.
    let date_time = build(&c, 0, 1, 1, 1, 0, 0);
    let date_time = date_time.add_hours(-1).unwrap();
    assert_eq!(date_time.year(), 0);
    assert_eq!(date_time.month(), 1);
    assert_eq!(date_time.day(), 1);
    assert_eq!(date_time.hour(), 0);
    assert_eq!(date_time.minute(), 0);
    assert_eq!(date_time.second(), 0);

    // Go out of bounds at the beginning of the DateTime range.
    let date_time = build(&c, 0, 1, 1, 0, 0, 0);
    assert!(date_time.checked_add_hours(-1).is_none());
}

#[test]
fn add_minutes() {
    let c = utc_chronology();
    // Add 0 minutes.
    let date_time = build(&c, 2000, 3, 1, 0, 0, 0);
    let date_time = date_time.add_minutes(0).unwrap();
    assert_eq!(date_time.year(), 2000);
    assert_eq!(date_time.month(), 3);
    assert_eq!(date_time.day(), 1);
    assert_eq!(date_time.hour(), 0);
    assert_eq!(date_time.minute(), 0);
    assert_eq!(date_time.second(), 0);

    let date_time = build(&c, 2000, 3, 1, 0, 0, 0);

    // Add a minute to epoch time.
    let date_time = date_time.add_minutes(1).unwrap();
    assert_eq!(date_time.year(), 2000);
    assert_eq!(date_time.month(), 3);
    assert_eq!(date_time.day(), 1);
    assert_eq!(date_time.hour(), 0);
    assert_eq!(date_time.minute(), 1);
    assert_eq!(date_time.second(), 0);

    // Go back.
    let date_time = date_time.add_minutes(-1).unwrap();
    assert_eq!(date_time.year(), 2000);
    assert_eq!(date_time.month(), 3);
    assert_eq!(date_time.day(), 1);
    assert_eq!(date_time.hour(), 0);
    assert_eq!(date_time.minute(), 0);
    assert_eq!(date_time.second(), 0);

    // Subtract a minute from epoch time.
    let date_time = date_time.add_minutes(-1).unwrap();
    assert_eq!(date_time.year(), 2000);
    assert_eq!(date_time.month(), 2);
    assert_eq!(date_time.day(), 29);
    assert_eq!(date_time.hour(), 23);
    assert_eq!(date_time.minute(), 59);
    assert_eq!(date_time.second(), 0);

    // Add through a leap second.
    let date_time = build(&c, 1998, 12, 31, 23, 59, 59);
    let date_time = date_time.add_minutes(1).unwrap();
    assert_eq!(date_time.year(), 1999);
    assert_eq!(date_time.month(), 1);
    assert_eq!(date_time.day(), 1);
    assert_eq!(date_time.hour(), 0);
    assert_eq!(date_time.minute(), 0);
    assert_eq!(date_time.second(), 59);

    // Add from a leap second to generate carry.
    let date_time = build(&c, 1998, 12, 31, 23, 59, 60);
    let date_time = date_time.add_minutes(1);
    assert_eq!(date_time.days_carry(), 0);
    assert_eq!(date_time.seconds_carry(), 1);
    let date_time = date_time.apply_carry();
    assert_eq!(date_time.year(), 1999);
    assert_eq!(date_time.month(), 1);
    assert_eq!(date_time.day(), 1);
    assert_eq!(date_time.hour(), 0);
    assert_eq!(date_time.minute(), 1);
    assert_eq!(date_time.second(), 0);

    // Add minutes across multiple days.
    let date_time = build(&c, 1998, 12, 31, 23, 59, 59);
    let date_time = date_time.add_minutes(2 * 24 * 60).unwrap();
    assert_eq!(date_time.year(), 1999);
    assert_eq!(date_time.month(), 1);
    assert_eq!(date_time.day(), 2);
    assert_eq!(date_time.hour(), 23);
    assert_eq!(date_time.minute(), 59);
    assert_eq!(date_time.second(), 59);

    // Subtract minutes across multiple days.
    let date_time = build(&c, 1999, 1, 2, 23, 59, 59);
    let date_time = date_time.add_minutes(-2 * 24 * 60).unwrap();
    assert_eq!(date_time.year(), 1998);
    assert_eq!(date_time.month(), 12);
    assert_eq!(date_time.day(), 31);
    assert_eq!(date_time.hour(), 23);
    assert_eq!(date_time.minute(), 59);
    assert_eq!(date_time.second(), 59);

    // Add minutes spanning 100 years.
    let date_time = build(&c, 1998, 12, 31, 23, 59, 59);
    let date_time = date_time.add_minutes(36525 * 24 * 60).unwrap();
    assert_eq!(date_time.year(), 2098);
    assert_eq!(date_time.month(), 12);
    assert_eq!(date_time.day(), 31);
    assert_eq!(date_time.hour(), 23);
    assert_eq!(date_time.minute(), 59);
    assert_eq!(date_time.second(), 59);

    // Go to the last in-bounds minute at the end of the range.
    let date_time = build(&c, 9999, 12, 31, 23, 58, 0);
    let date_time = date_time.add_minutes(1).unwrap();
    assert_eq!(date_time.year(), 9999);
    assert_eq!(date_time.month(), 12);
    assert_eq!(date_time.day(), 31);
    assert_eq!(date_time.hour(), 23);
    assert_eq!(date_time.minute(), 59);
    assert_eq!(date_time.second(), 0);

    // Go out of bounds at the end of the DateTime range.
    let date_time = build(&c, 9999, 12, 31, 23, 59, 0);
    assert!(date_time.checked_add_minutes(1).is_none());

    // Go to the first in-bounds minute at the start of the range.
    let date_time = build(&c, 1, 1, 1, 0, 1, 0);
    let date_time = date_time.add_minutes(-1).unwrap();
    assert_eq!(date_time.year(), 1);
    assert_eq!(date_time.month(), 1);
    assert_eq!(date_time.day(), 1);
    assert_eq!(date_time.hour(), 0);
    assert_eq!(date_time.minute(), 0);
    assert_eq!(date_time.second(), 0);

    // Go out of bounds at the start of the DateTime range.
    let date_time = build(&c, 0, 1, 1, 0, 0, 0);
    assert!(date_time.checked_add_minutes(-1).is_none());

    // Go to the last minute of the backing GregorianNormalizedDate. This
    // will be out of bounds for the DateTime but should generate a valid
    // GregorianNormalizedDate internally.
    let date_time = build(&c, 1970, 1, 1, 0, 0, 0);
    assert!(
        date_time.checked_add_minutes(
            (momentous::gregorian_normalized_date::MAX_FIXED_DAY as i64 + 1) * 24 * 60 - 1
        ).is_none()
    );

    // Go out of bounds on the high end of the backing
    // GregorianNormalizedDate.
    let date_time = build(&c, 1970, 1, 1, 0, 0, 0);
    assert!(
        date_time.checked_add_minutes(
            (momentous::gregorian_normalized_date::MAX_FIXED_DAY as i64 + 1) * 24 * 60
        ).is_none()
    );
}

#[test]
fn add_seconds() {
    let c = utc_chronology();
    let date_time = build(&c, 2000, 3, 1, 0, 0, 0);

    // Add a second to epoch time.
    let date_time = date_time.add_seconds(1);
    assert_eq!(date_time.year(), 2000);
    assert_eq!(date_time.month(), 3);
    assert_eq!(date_time.day(), 1);
    assert_eq!(date_time.hour(), 0);
    assert_eq!(date_time.minute(), 0);
    assert_eq!(date_time.second(), 1);

    // Go back.
    let date_time = date_time.add_seconds(-1);
    assert_eq!(date_time.year(), 2000);
    assert_eq!(date_time.month(), 3);
    assert_eq!(date_time.day(), 1);
    assert_eq!(date_time.hour(), 0);
    assert_eq!(date_time.minute(), 0);
    assert_eq!(date_time.second(), 0);

    // Subtract a second from epoch time.
    let date_time = date_time.add_seconds(-1);
    assert_eq!(date_time.year(), 2000);
    assert_eq!(date_time.month(), 2);
    assert_eq!(date_time.day(), 29);
    assert_eq!(date_time.hour(), 23);
    assert_eq!(date_time.minute(), 59);
    assert_eq!(date_time.second(), 59);

    // Add into a leap second.
    let date_time = build(&c, 1998, 12, 31, 23, 59, 59);
    let date_time = date_time.add_seconds(1);
    assert_eq!(date_time.year(), 1998);
    assert_eq!(date_time.month(), 12);
    assert_eq!(date_time.day(), 31);
    assert_eq!(date_time.hour(), 23);
    assert_eq!(date_time.minute(), 59);
    assert_eq!(date_time.second(), 60);

    // Add past the leap second.
    let date_time = build(&c, 1998, 12, 31, 23, 59, 0);
    let date_time = date_time.add_seconds(62);
    assert_eq!(date_time.year(), 1999);
    assert_eq!(date_time.month(), 1);
    assert_eq!(date_time.day(), 1);
    assert_eq!(date_time.hour(), 0);
    assert_eq!(date_time.minute(), 0);
    assert_eq!(date_time.second(), 1);

    // Go back to the segment start.
    let date_time = date_time.add_seconds(-1);
    assert_eq!(date_time.year(), 1999);
    assert_eq!(date_time.month(), 1);
    assert_eq!(date_time.day(), 1);
    assert_eq!(date_time.hour(), 0);
    assert_eq!(date_time.minute(), 0);
    assert_eq!(date_time.second(), 0);

    // Go back across the leap second.
    let date_time = date_time.add_seconds(-1);
    assert_eq!(date_time.year(), 1998);
    assert_eq!(date_time.month(), 12);
    assert_eq!(date_time.day(), 31);
    assert_eq!(date_time.hour(), 23);
    assert_eq!(date_time.minute(), 59);
    assert_eq!(date_time.second(), 60);

    // Take a greater step backwards across the leap second.
    let date_time = build(&c, 1999, 1, 1, 0, 0, 1);
    let date_time = date_time.add_seconds(-62);
    assert_eq!(date_time.year(), 1998);
    assert_eq!(date_time.month(), 12);
    assert_eq!(date_time.day(), 31);
    assert_eq!(date_time.hour(), 23);
    assert_eq!(date_time.minute(), 59);
    assert_eq!(date_time.second(), 0);

    // Before first leap segment.
    let date_time = build(&c, 1969, 1, 1, 0, 0, 0);
    let date_time = date_time.add_seconds(1);
    assert_eq!(date_time.year(), 1969);
    assert_eq!(date_time.month(), 1);
    assert_eq!(date_time.day(), 1);
    assert_eq!(date_time.hour(), 0);
    assert_eq!(date_time.minute(), 0);
    assert_eq!(date_time.second(), 1);

    // Go to the first leap segment.
    let date_time = date_time.add_seconds(86400 * 365);
    assert_eq!(date_time.year(), 1970);
    assert_eq!(date_time.month(), 1);
    assert_eq!(date_time.day(), 1);
    assert_eq!(date_time.hour(), 0);
    assert_eq!(date_time.minute(), 0);
    assert_eq!(date_time.second(), 1);

    // Go back to before the first leap segment.
    let date_time = date_time.add_seconds(-2);
    assert_eq!(date_time.year(), 1969);
    assert_eq!(date_time.month(), 12);
    assert_eq!(date_time.day(), 31);
    assert_eq!(date_time.hour(), 23);
    assert_eq!(date_time.minute(), 59);
    assert_eq!(date_time.second(), 59);

    // In the last leap segment
    let date_time = build(&c, 2016, 12, 31, 23, 59, 0);
    let date_time = date_time.add_seconds(60);
    assert_eq!(date_time.year(), 2016);
    assert_eq!(date_time.month(), 12);
    assert_eq!(date_time.day(), 31);
    assert_eq!(date_time.hour(), 23);
    assert_eq!(date_time.minute(), 59);
    assert_eq!(date_time.second(), 60);

    // Go past the last leap segment.
    let date_time = date_time.add_seconds(1);
    assert_eq!(date_time.year(), 2017);
    assert_eq!(date_time.month(), 1);
    assert_eq!(date_time.day(), 1);
    assert_eq!(date_time.hour(), 0);
    assert_eq!(date_time.minute(), 0);
    assert_eq!(date_time.second(), 0);

    // From a point past the last leap segment and further.
    let date_time = date_time.add_seconds(86400 * 365);
    assert_eq!(date_time.year(), 2018);
    assert_eq!(date_time.month(), 1);
    assert_eq!(date_time.day(), 1);
    assert_eq!(date_time.hour(), 0);
    assert_eq!(date_time.minute(), 0);
    assert_eq!(date_time.second(), 0);

    // Go to the last in-bounds second at the end of the range.
    let date_time = build(&c, 9999, 12, 31, 23, 59, 58);
    let date_time = date_time.add_seconds(1);
    assert_eq!(date_time.year(), 9999);
    assert_eq!(date_time.month(), 12);
    assert_eq!(date_time.day(), 31);
    assert_eq!(date_time.hour(), 23);
    assert_eq!(date_time.minute(), 59);
    assert_eq!(date_time.second(), 59);

    // Go out of bounds at the end of the range.
    let date_time = build(&c, 9999, 12, 31, 23, 59, 59);
    assert!(date_time.checked_add_seconds(1).is_none());

    // Go to the first in-bounds second at the start of the range.
    let date_time = build(&c, 0, 1, 1, 0, 0, 1);
    let date_time = date_time.add_seconds(-1);
    assert_eq!(date_time.year(), 0);
    assert_eq!(date_time.month(), 1);
    assert_eq!(date_time.day(), 1);
    assert_eq!(date_time.hour(), 0);
    assert_eq!(date_time.minute(), 0);
    assert_eq!(date_time.second(), 0);

    // Go out of bounds at the start of the range.
    let date_time = build(&c, 0, 1, 1, 0, 0, 0);
    assert!(date_time.checked_add_seconds(-1).is_none());

    // Go from the low bound to the high.
    let date_time = build(&c, 0, 1, 1, 0, 0, 0);
    // 3652424 days = 3652424*86400 + 27 = 315569433627 seconds.
    // 315569433627 + 23*3600 + 59*60 + 59 = 315569520026
    let date_time = date_time.add_seconds(315_569_520_026);
    assert_eq!(date_time.year(), 9999);
    assert_eq!(date_time.month(), 12);
    assert_eq!(date_time.day(), 31);
    assert_eq!(date_time.hour(), 23);
    assert_eq!(date_time.minute(), 59);
    assert_eq!(date_time.second(), 59);

    // Go to from the low bound to one second past the high bound.
    let date_time = build(&c, 0, 1, 1, 0, 0, 0);
    assert!(date_time.checked_add_seconds(315_569_520_027).is_none());

    // Go from the high bound to the low.
    let date_time = build(&c, 9999, 12, 31, 23, 59, 59);
    let date_time = date_time.add_seconds(-315_569_520_026);
    assert_eq!(date_time.year(), 0);
    assert_eq!(date_time.month(), 1);
    assert_eq!(date_time.day(), 1);
    assert_eq!(date_time.hour(), 0);
    assert_eq!(date_time.minute(), 0);
    assert_eq!(date_time.second(), 0);

    // Go from the high bound to one second before the low bound.
    let date_time = build(&c, 9999, 12, 31, 23, 59, 59);
    assert!(date_time.checked_add_seconds(-315_569_520_027).is_none());
}

#[test]
fn add_seconds_associates() {
    // Adding in two steps lands on the same value as adding the sum,
    // across a leap second.
    let c = utc_chronology();
    let start = build(&c, 1998, 12, 31, 23, 59, 0);
    let one_step = start.add_seconds(62);
    let two_steps = start.add_seconds(45).add_seconds(17);
    assert_eq!(one_step.year(), two_steps.year());
    assert_eq!(one_step.month(), two_steps.month());
    assert_eq!(one_step.day(), two_steps.day());
    assert_eq!(one_step.hour(), two_steps.hour());
    assert_eq!(one_step.minute(), two_steps.minute());
    assert_eq!(one_step.second(), two_steps.second());
}

#[test]
fn instant_order_matches_wall_clock_order() {
    // A leap second sorts after the ordinary second before it and before
    // the midnight after it.
    let c = utc_chronology();
    let before = build(&c, 1998, 12, 31, 23, 59, 59);
    let leap = before.add_seconds(1);
    let after = leap.add_seconds(1);
    assert_eq!(leap.second(), 60);
    assert_eq!(after.hour(), 0);
    assert_eq!(after.second(), 0);
    assert_eq!(after.day(), 1);
}
