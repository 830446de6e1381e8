use momentous::add;
use momentous::Duration;
use momentous::DurationS64;
use momentous::Instant;
use momentous::InstantS64;
use momentous::Milliseconds;
use momentous::Nanoseconds;
use momentous::Seconds;
use momentous::iso8601::util::days_in_month;
use momentous::iso8601::util::is_leap_year;
use momentous::instant::julian_day;
use momentous::div_rem::clamped_div_rem;
use momentous::div_rem::div_mod_floor;
use momentous::div_rem::div_rem_ceil;
use momentous::div_rem::rem_floor;

#[test]
fn lib_it_works() {
    let result = add(2, 2);
    assert_eq!(result, 4);
}

#[test]
fn instant_arithmetic() {
    let epoch: InstantS64 = Instant::epoch();
    assert_eq!(epoch.ticks_since_epoch(), 0);

    let later = Instant::<Seconds>::from_ticks_since_epoch(90);
    assert_eq!(later.duration_since_epoch().ticks(), 90);

    let shifted = later.checked_add(Duration::new(10)).unwrap();
    assert_eq!(shifted.ticks_since_epoch(), 100);
    assert!(Instant::<Seconds>::max_value().checked_add(Duration::new(1)).is_none());

    let gap: DurationS64 = shifted.checked_sub_instant(later).unwrap();
    assert_eq!(gap.ticks(), 10);

    // Rescaling floors toward minus infinity.
    let fine = Instant::<Milliseconds>::from_ticks_since_epoch(-1);
    let coarse: Instant<Seconds> = fine.floor();
    assert_eq!(coarse.ticks_since_epoch(), -1);
    let fine = Instant::<Milliseconds>::from_ticks_since_epoch(1999);
    let coarse: Instant<Seconds> = fine.floor();
    assert_eq!(coarse.ticks_since_epoch(), 1);

    let second = Instant::<Seconds>::from_ticks_since_epoch(3);
    let nanos: Instant<Nanoseconds> = second.extend().unwrap();
    assert_eq!(nanos.ticks_since_epoch(), 3_000_000_000);
    assert!(Instant::<Seconds>::max_value().extend::<Nanoseconds>().is_none());
}

#[test]
fn duration_arithmetic() {
    let d: DurationS64 = Duration::new(40);
    assert_eq!(d.checked_add(Duration::new(2)).unwrap().ticks(), 42);
    assert_eq!(d.checked_sub(Duration::new(2)).unwrap().ticks(), 38);
    assert_eq!(d.checked_mul(3).unwrap().ticks(), 120);
    assert!(Duration::<Seconds>::new(i64::MAX).checked_mul(2).is_none());
}

#[test]
fn leap_year_formula() {
    // Every fourth year, except every hundredth, except every four
    // hundredth; year 0 is a leap year.
    assert!(is_leap_year(0));
    assert!(is_leap_year(2000));
    assert!(is_leap_year(1996));
    assert!(is_leap_year(2400));
    assert!(!is_leap_year(1900));
    assert!(!is_leap_year(1999));
    assert!(!is_leap_year(2100));
    assert!(is_leap_year(-4));
    assert!(!is_leap_year(-1));
    assert!(!is_leap_year(-100));
    assert!(is_leap_year(-400));

    assert_eq!(days_in_month(2000, 2), 29);
    assert_eq!(days_in_month(1900, 2), 28);
    assert_eq!(days_in_month(2001, 2), 28);
    assert_eq!(days_in_month(2001, 1), 31);
    assert_eq!(days_in_month(2001, 4), 30);
    assert_eq!(days_in_month(2001, 12), 31);
}

#[test]
fn instant_it_works() {
    assert_eq!(julian_day(2000, 1, 1), 2451545);
    assert_eq!(julian_day(1970, 1, 1), 2440588);
}

#[test]
fn division_helpers() {
    // Floor division pairs quotient and non-negative remainder.
    assert_eq!(div_mod_floor(7, 3), (2, 1));
    assert_eq!(div_mod_floor(-7, 3), (-3, 2));
    assert_eq!(div_mod_floor(-6, 3), (-2, 0));
    assert_eq!(div_mod_floor(0, 5), (0, 0));

    // Ceiling division: a == q*b - r.
    assert_eq!(div_rem_ceil(7, 3), (3, 2));
    assert_eq!(div_rem_ceil(-7, 3), (-2, 1));
    assert_eq!(div_rem_ceil(6, 3), (2, 0));

    // A clamped quotient leaves the excess in the remainder.
    assert_eq!(clamped_div_rem(10, 3, 100), (3, 1));
    assert_eq!(clamped_div_rem(146096, 36524, 3), (3, 36524));
    // A negative dividend divides toward zero and is never clamped.
    assert_eq!(clamped_div_rem(-7, 3, 100), (-2, -1));
    assert_eq!(clamped_div_rem(-6, 3, 0), (-2, 0));

    // Floor remainder over wide integers.
    assert_eq!(rem_floor(-2001, 400), 399);
    assert_eq!(rem_floor(2001, 400), 1);
}

#[test]
fn scale_conversions() {
    let fine = Instant::<Milliseconds>::from_ticks_since_epoch(2500);
    let (coarse, rest) = fine.split::<Seconds>();
    assert_eq!(coarse.ticks_since_epoch(), 2);
    assert_eq!(rest.ticks(), 500);

    let fine = Instant::<Milliseconds>::from_ticks_since_epoch(-2500);
    let (coarse, rest) = fine.split::<Seconds>();
    assert_eq!(coarse.ticks_since_epoch(), -3);
    assert_eq!(rest.ticks(), 500);

    let d = Duration::<Milliseconds>::new(-1);
    let coarse: DurationS64 = d.floor();
    assert_eq!(coarse.ticks(), -1);
    let again: Duration<Milliseconds> = coarse.extend().unwrap();
    assert_eq!(again.ticks(), -1000);
}
