//! The Gregorian calendar works in cycles of 400 years: 97 leap years and 303
//! normal years, 146097 days in all. Within a cycle the leap day falls every
//! 4th year, except every 100th, except every 400th.
//!
//! A normalized date shifts the year to start on March 1 so that the possible
//! leap day is always the very last day of a year, and the leap year the last
//! of its quadrennium, century and cycle. Every decomposition step then clamps
//! its quotient and lets the leap day overflow naturally into the remainder of
//! the terminal period, with no leap-year branches. The zero point is
//! 2000-03-01, the first day after the leap day that closes the preceding
//! cycle.
use vstd::prelude::*;
use vstd::arithmetic::div_mod::lemma_fundamental_div_mod;
use vstd::arithmetic::div_mod::lemma_mod_bound;
use crate::div_rem::clamped_div_rem;
use crate::div_rem::div_mod_floor;

verus! {

/// A fixed day outside the representable range.
#[derive(Debug)]
pub struct OutOfBounds;

/// Rejection reasons for a (year, month, day) triple.
#[derive(Debug, PartialEq, Eq, Structural, Clone, Copy)]
pub enum Error {
    InvalidDate,
    DateOutOfBounds,
}

/// A proleptic Gregorian date in normalized form: the date is decomposed as
/// a 400-year cycle count from 2000-03-01 plus century, quadrennium and year
/// offsets, with the day counted from March 1.
#[derive(Debug, PartialEq, Eq, PartialOrd, Ord, Structural, Clone, Copy)]
pub struct GregorianNormalizedDate {
    /// Number of 400-year cycles since 2000-03-01.
    pub cycle: i8,
    /// Number of centuries since the start of the cycle (0-3).
    pub century: u8,
    /// Number of quadrennia since the start of the century (0-24).
    pub quadrennium: u8,
    /// Number of years since the start of the quadrennium (0-3).
    pub year: u8,
    /// Number of days since the start of the year, which begins March 1 (0-365).
    pub day: u16,
}

pub const GREGORIAN_CYCLE_DAYS: u32 = 97 * 366 + 303 * 365;

pub const GREGORIAN_CENTURY_DAYS: u16 = 24 * 366 + 76 * 365;

pub const GREGORIAN_QUADRENNIUM_DAYS: u16 = 3 * 365 + 366;

pub const GREGORIAN_YEAR_DAYS: u16 = 365;

// Days from 1970-01-01 to 2000-03-01.
pub const GREGORIAN_NORMALIZED_DATE_OFFSET_DAYS: u16 = 11017;

// Day-of-normalized-year of January 1.
pub const JANUARY_1_DAY_OFFSET: u16 = 306;

/// Whether a normalized year, placed by its century/quadrennium/year offsets,
/// has the leap day as its last day. The leap day closes year 3 of a
/// quadrennium, except in the last quadrennium of a non-terminal century.
pub open spec fn is_leap_spec(century: int, quadrennium: int, year: int) -> bool {
    year == 3 && !(quadrennium == 24 && century != 3)
}

/// Zero-based month-of-normalized-year (March is 0) containing a
/// day-of-normalized-year, by the arithmetic month formula.
pub open spec fn month_of_year_day(day: int) -> int {
    (5 * day + 2) / 153
}

/// First day-of-normalized-year of a zero-based month (March is 0).
pub open spec fn year_day_of_month(month: int) -> int {
    (153 * month + 2) / 5
}

impl GregorianNormalizedDate {
    /// Internal consistency: every offset within its period, and a day count
    /// of 365 only in a year that ends with the leap day.
    pub open spec fn wf(self) -> bool {
        &&& self.century <= 3
        &&& self.quadrennium <= 24
        &&& self.year <= 3
        &&& self.day <= 365
        &&& (self.day == 365 ==> is_leap_spec(
            self.century as int,
            self.quadrennium as int,
            self.year as int,
        ))
    }

    /// The fixed day (days since 1970-01-01) this date denotes.
    pub open spec fn to_day_spec(self) -> int {
        self.cycle * (GREGORIAN_CYCLE_DAYS as int) + self.century * (
        GREGORIAN_CENTURY_DAYS as int) + self.quadrennium * (GREGORIAN_QUADRENNIUM_DAYS as int)
            + self.year * (GREGORIAN_YEAR_DAYS as int) + self.day
            + GREGORIAN_NORMALIZED_DATE_OFFSET_DAYS
    }

    /// The canonical decomposition of a fixed day, clamping the century and
    /// year quotients so the leap day overflows into the terminal period.
    pub open spec fn from_day_spec(day: int) -> GregorianNormalizedDate {
        let d0 = day - GREGORIAN_NORMALIZED_DATE_OFFSET_DAYS;
        let cycle = d0 / (GREGORIAN_CYCLE_DAYS as int);
        let d1 = d0 % (GREGORIAN_CYCLE_DAYS as int);
        let q1 = d1 / (GREGORIAN_CENTURY_DAYS as int);
        let century = if q1 <= 3 {
            q1
        } else {
            3
        };
        let d2 = d1 - century * (GREGORIAN_CENTURY_DAYS as int);
        let quadrennium = d2 / (GREGORIAN_QUADRENNIUM_DAYS as int);
        let d3 = d2 % (GREGORIAN_QUADRENNIUM_DAYS as int);
        let q2 = d3 / (GREGORIAN_YEAR_DAYS as int);
        let year = if q2 <= 3 {
            q2
        } else {
            3
        };
        let d4 = d3 - year * (GREGORIAN_YEAR_DAYS as int);
        GregorianNormalizedDate {
            cycle: cycle as i8,
            century: century as u8,
            quadrennium: quadrennium as u8,
            year: year as u8,
            day: d4 as u16,
        }
    }
}

// The cycle count is held in an i8, which bounds the representable fixed days.
pub const MIN_FIXED_DAY: i32 = 11017 - 128 * 146097;

pub const MAX_FIXED_DAY: i32 = 11017 + 128 * 146097 - 1;

// A normalized year starts in March, so the extreme years cannot be
// represented whole; the bounds keep January and February valid everywhere.
pub const MIN_YEAR: i32 = 2000 - 128 * 400 + 1;

pub const MAX_YEAR: i32 = 2000 + 128 * 400 - 1;

/// The decomposition of an in-range fixed day is well formed and maps back to
/// the same day.
pub proof fn lemma_from_day_to_day(day: int)
    requires
        MIN_FIXED_DAY <= day <= MAX_FIXED_DAY,
    ensures
        GregorianNormalizedDate::from_day_spec(day).wf(),
        GregorianNormalizedDate::from_day_spec(day).to_day_spec() == day,
{
    let d0 = day - 11017;
    let cycle = d0 / 146097;
    let d1 = d0 % 146097;
    lemma_fundamental_div_mod(d0, 146097);
    lemma_mod_bound(d0, 146097);
    assert(-128 <= cycle <= 127);
    let q1 = d1 / 36524;
    lemma_fundamental_div_mod(d1, 36524);
    lemma_mod_bound(d1, 36524);
    let century = if q1 <= 3 {
        q1
    } else {
        3
    };
    let d2 = d1 - century * 36524;
    assert(0 <= d2 <= 36524);
    assert(century != 3 ==> d2 < 36524);
    let quadrennium = d2 / 1461;
    let d3 = d2 % 1461;
    lemma_fundamental_div_mod(d2, 1461);
    lemma_mod_bound(d2, 1461);
    assert(0 <= quadrennium <= 24);
    assert(century != 3 && quadrennium == 24 ==> d3 <= 1459);
    let q2 = d3 / 365;
    lemma_fundamental_div_mod(d3, 365);
    lemma_mod_bound(d3, 365);
    let year = if q2 <= 3 {
        q2
    } else {
        3
    };
    let d4 = d3 - year * 365;
    assert(0 <= year <= 3);
    assert(year < 3 ==> d4 < 365);
    assert(0 <= d4 <= 365);
    assert(d4 == 365 ==> year == 3 && (quadrennium != 24 || century == 3));
}

/// A well-formed normalized date has its fixed day in range, and the
/// decomposition of that day restores the date itself.
pub proof fn lemma_to_day_from_day(g: GregorianNormalizedDate)
    requires
        g.wf(),
    ensures
        MIN_FIXED_DAY <= g.to_day_spec() <= MAX_FIXED_DAY,
        GregorianNormalizedDate::from_day_spec(g.to_day_spec()) == g,
{
    let day = g.to_day_spec();
    let d0 = day - 11017;
    let r3 = g.year * 365 + g.day;
    let r2 = g.quadrennium * 1461 + r3;
    let r1 = g.century * 36524 + r2;
    assert(d0 == g.cycle * 146097 + r1);
    assert(r3 <= 1460);
    assert(g.year < 3 ==> r3 < 1095);
    assert(r2 <= 36524);
    assert(g.century != 3 ==> r2 < 36524);
    assert(r1 <= 146096);
    // The cycle and cycle remainder are recovered by division.
    vstd::arithmetic::div_mod::lemma_fundamental_div_mod_converse(d0, 146097, g.cycle as int, r1);
    assert(d0 / 146097 == g.cycle as int);
    assert(d0 % 146097 == r1);
    let gg = GregorianNormalizedDate::from_day_spec(day);
    // Century: the clamp binds exactly when the stored century is 3.
    let q1 = r1 / 36524;
    lemma_fundamental_div_mod(r1, 36524);
    lemma_mod_bound(r1, 36524);
    if g.century < 3 {
        vstd::arithmetic::div_mod::lemma_fundamental_div_mod_converse(
            r1,
            36524,
            g.century as int,
            r2,
        );
        assert(q1 == g.century as int);
    } else {
        assert(r1 >= 3 * 36524);
        assert(q1 >= 3) by {
            if q1 <= 2 {
                assert(r1 == 36524 * q1 + r1 % 36524);
                assert(r1 < 3 * 36524);
            }
        }
    }
    let century = if q1 <= 3 {
        q1
    } else {
        3
    };
    assert(century == g.century as int);
    let d2 = r1 - century * 36524;
    assert(d2 == r2);
    // Quadrennium by plain division.
    vstd::arithmetic::div_mod::lemma_fundamental_div_mod_converse(
        r2,
        1461,
        g.quadrennium as int,
        r3,
    );
    assert(d2 / 1461 == g.quadrennium as int);
    assert(d2 % 1461 == r3);
    // Year: the clamp binds exactly when the stored year is 3.
    let q2 = r3 / 365;
    lemma_fundamental_div_mod(r3, 365);
    lemma_mod_bound(r3, 365);
    if g.year < 3 {
        vstd::arithmetic::div_mod::lemma_fundamental_div_mod_converse(
            r3,
            365,
            g.year as int,
            g.day as int,
        );
        assert(q2 == g.year as int);
    } else {
        assert(r3 >= 3 * 365);
        assert(q2 >= 3) by {
            if q2 <= 2 {
                assert(r3 == 365 * q2 + r3 % 365);
                assert(r3 < 3 * 365);
            }
        }
    }
    let year = if q2 <= 3 {
        q2
    } else {
        3
    };
    assert(year == g.year as int);
    assert(r3 - year * 365 == g.day as int);
    assert(gg.cycle == g.cycle);
    assert(gg.century == g.century);
    assert(gg.quadrennium == g.quadrennium);
    assert(gg.year == g.year);
    assert(gg.day == g.day);
}


/// The month formula places each day-of-year inside the month it names:
/// the month is in range, starts at or before the day, and ends after it,
/// no more than 30 days later.
pub proof fn lemma_month_of_year_day(day: int)
    requires
        0 <= day <= 365,
    ensures
        0 <= month_of_year_day(day) <= 11,
        year_day_of_month(month_of_year_day(day)) <= day,
        day < year_day_of_month(month_of_year_day(day) + 1),
        day - year_day_of_month(month_of_year_day(day)) <= 30,
{
    let m = month_of_year_day(day);
    lemma_fundamental_div_mod(5 * day + 2, 153);
    lemma_mod_bound(5 * day + 2, 153);
    lemma_fundamental_div_mod(153 * m + 2, 5);
    lemma_mod_bound(153 * m + 2, 5);
    lemma_fundamental_div_mod(153 * (m + 1) + 2, 5);
    lemma_mod_bound(153 * (m + 1) + 2, 5);
}

/// Any day inside a month's span is mapped back to that month.
pub proof fn lemma_month_of_span(month: int, day: int)
    requires
        0 <= month <= 11,
        year_day_of_month(month) <= day < year_day_of_month(month + 1),
    ensures
        month_of_year_day(day) == month,
{
    let k = month_of_year_day(day);
    lemma_fundamental_div_mod(5 * day + 2, 153);
    lemma_mod_bound(5 * day + 2, 153);
    lemma_fundamental_div_mod(153 * month + 2, 5);
    lemma_mod_bound(153 * month + 2, 5);
    lemma_fundamental_div_mod(153 * (month + 1) + 2, 5);
    lemma_mod_bound(153 * (month + 1) + 2, 5);
}

/// Two distinct well-formed normalized dates denote distinct fixed days.
pub proof fn lemma_to_day_injective(a: GregorianNormalizedDate, b: GregorianNormalizedDate)
    requires
        a.wf(),
        b.wf(),
        a.to_day_spec() == b.to_day_spec(),
    ensures
        a == b,
{
    lemma_to_day_from_day(a);
    lemma_to_day_from_day(b);
}


/// Zero-based month (March is 0) of a day-of-normalized-year.
pub fn month_from_year_day(day: u16) -> (r: u8)
    requires
        day <= 365,
    ensures
        r == month_of_year_day(day as int),
        r <= 11,
{
    proof {
        lemma_month_of_year_day(day as int);
    }
    ((5 * day + 2) / 153) as u8
}

/// First day-of-normalized-year of a zero-based month (March is 0).
pub fn year_day_from_month(month: u8) -> (r: u16)
    requires
        month <= 12,
    ensures
        r == year_day_of_month(month as int),
{
    (153 * month as u16 + 2) / 5
}

/// Splits a day-of-normalized-year into its month and day-of-month, both
/// zero based.
pub fn month_day_from_year_day(year_day: u16) -> (r: (u8, u8))
    requires
        year_day <= 365,
    ensures
        r.0 == month_of_year_day(year_day as int),
        r.1 == year_day - year_day_of_month(r.0 as int),
        r.1 <= 30,
{
    proof {
        lemma_month_of_year_day(year_day as int);
    }
    let month = month_from_year_day(year_day);
    let month_start_day = year_day_from_month(month);
    let day = (year_day - month_start_day) as u8;
    (month, day)
}

/// Whether a normalized year has 366 days, by its position in the cycle.
pub fn is_leap_year(century: u8, quadrennium: u8, year: u8) -> (r: bool)
    ensures
        r == is_leap_spec(century as int, quadrennium as int, year as int),
{
    year == 3 && !(quadrennium == 24 && century != 3)
}

impl GregorianNormalizedDate {
    /// Assembles a normalized date directly from its five offsets.
    pub fn new(cycle: i8, century: u8, quadrennium: u8, year: u8, day: u16) -> (r: Self)
        ensures
            r == (GregorianNormalizedDate { cycle, century, quadrennium, year, day }),
    {
        GregorianNormalizedDate { cycle, century, quadrennium, year, day }
    }

    /// Decomposes a fixed day; rejects days outside the representable range.
    pub fn from_day(day: i32) -> (r: Option<Self>)
        ensures
            r matches Some(g) ==> {
                &&& MIN_FIXED_DAY <= day <= MAX_FIXED_DAY
                &&& g == Self::from_day_spec(day as int)
                &&& g.wf()
                &&& g.to_day_spec() == day
            },
            r is None <==> !(MIN_FIXED_DAY <= day <= MAX_FIXED_DAY),
    {
        if day < MIN_FIXED_DAY || day > MAX_FIXED_DAY {
            return None;
        }
        proof {
            lemma_from_day_to_day(day as int);
        }
        let d0: i64 = day as i64 - GREGORIAN_NORMALIZED_DATE_OFFSET_DAYS as i64;
        let (cycle, d1) = div_mod_floor(d0, GREGORIAN_CYCLE_DAYS as i64);
        let (century, d2) = clamped_div_rem(d1, GREGORIAN_CENTURY_DAYS as i64, 3);
        let (quadrennium, d3) = div_mod_floor(d2, GREGORIAN_QUADRENNIUM_DAYS as i64);
        let (year, d4) = clamped_div_rem(d3, GREGORIAN_YEAR_DAYS as i64, 3);
        Some(
            GregorianNormalizedDate {
                cycle: cycle as i8,
                century: century as u8,
                quadrennium: quadrennium as u8,
                year: year as u8,
                day: d4 as u16,
            },
        )
    }

    /// The fixed day this date denotes.
    pub fn to_day(&self) -> (r: i32)
        requires
            self.wf(),
        ensures
            r == self.to_day_spec(),
            MIN_FIXED_DAY <= r <= MAX_FIXED_DAY,
    {
        proof {
            lemma_to_day_from_day(*self);
        }
        let cycle = self.cycle as i32;
        let century = self.century as i32;
        let quadrennium = self.quadrennium as i32;
        let year = self.year as i32;
        let day = self.day as i32;
        cycle * GREGORIAN_CYCLE_DAYS as i32 + century * GREGORIAN_CENTURY_DAYS as i32
            + quadrennium * GREGORIAN_QUADRENNIUM_DAYS as i32 + year * GREGORIAN_YEAR_DAYS as i32
            + day + GREGORIAN_NORMALIZED_DATE_OFFSET_DAYS as i32
    }
}


/// Whether a proleptic Gregorian year is a leap year. Year 0 is a leap year.
pub open spec fn spec_is_leap_year(y: int) -> bool {
    y % 4 == 0 && (y % 100 != 0 || y % 400 == 0)
}

/// Length of a calendar month (1-based) of a proleptic Gregorian year.
pub open spec fn spec_days_in_month(y: int, m: int) -> int {
    if m == 2 {
        if spec_is_leap_year(y) {
            29
        } else {
            28
        }
    } else if m == 4 || m == 6 || m == 9 || m == 11 {
        30
    } else {
        31
    }
}

/// Whether (year, month, day) names a day of the proleptic Gregorian calendar.
pub open spec fn valid_date_spec(y: int, m: int, d: int) -> bool {
    1 <= m <= 12 && 1 <= d <= spec_days_in_month(y, m)
}

/// Leap years depend only on the year modulo 400.
pub proof fn lemma_leap_mod_400(a: int, b: int)
    requires
        a % 400 == b % 400,
    ensures
        spec_is_leap_year(a) == spec_is_leap_year(b),
{
    vstd::arithmetic::div_mod::lemma_mod_mod(a, 4, 100);
    vstd::arithmetic::div_mod::lemma_mod_mod(b, 4, 100);
    vstd::arithmetic::div_mod::lemma_mod_mod(a, 100, 4);
    vstd::arithmetic::div_mod::lemma_mod_mod(b, 100, 4);
    assert(4 * 100 == 400);
    assert(100 * 4 == 400);
}

/// A normalized year placed at (century, quadrennium, year) within any cycle
/// ends with the leap day exactly when the Gregorian year that contains that
/// final day (February) is a leap year.
pub proof fn lemma_normalized_leap_matches(c: int, century: int, quadrennium: int, year: int)
    requires
        0 <= century <= 3,
        0 <= quadrennium <= 24,
        0 <= year <= 3,
    ensures
        is_leap_spec(century, quadrennium, year) == spec_is_leap_year(
            2000 + 400 * c + 100 * century + 4 * quadrennium + year + 1,
        ),
{
    let y = 2000 + 400 * c + 100 * century + 4 * quadrennium + year + 1;
    // y modulo 4 is decided by the year offset alone.
    vstd::arithmetic::div_mod::lemma_mod_multiples_vanish(
        500 + 100 * c + 25 * century + quadrennium,
        year + 1,
        4,
    );
    if year + 1 < 4 {
        vstd::arithmetic::div_mod::lemma_small_mod((year + 1) as nat, 4);
    } else {
        assert(4int % 4 == 0int);
    }
    // y modulo 100 is decided by the quadrennium and year offsets.
    vstd::arithmetic::div_mod::lemma_mod_multiples_vanish(
        20 + 4 * c + century,
        4 * quadrennium + year + 1,
        100,
    );
    if 4 * quadrennium + year + 1 < 100 {
        vstd::arithmetic::div_mod::lemma_small_mod((4 * quadrennium + year + 1) as nat, 100);
    } else {
        assert(100int % 100 == 0int);
    }
    // y modulo 400 is decided by the century, quadrennium and year offsets.
    vstd::arithmetic::div_mod::lemma_mod_multiples_vanish(
        5 + c,
        100 * century + 4 * quadrennium + year + 1,
        400,
    );
    if 100 * century + 4 * quadrennium + year + 1 < 400 {
        vstd::arithmetic::div_mod::lemma_small_mod(
            (100 * century + 4 * quadrennium + year + 1) as nat,
            400,
        );
    } else {
        assert(400int % 400 == 0int);
    }
}

impl GregorianNormalizedDate {
    /// The Gregorian year in which this normalized year begins (its March).
    pub open spec fn year_group(self) -> int {
        2000 + 400 * self.cycle + 100 * self.century + 4 * self.quadrennium + self.year
    }

    /// The Gregorian year containing this date: dates from January 1 on
    /// belong to the year after the one the normalized year began in.
    pub open spec fn unnormalized_year_spec(self) -> int {
        if self.day >= JANUARY_1_DAY_OFFSET {
            self.year_group() + 1
        } else {
            self.year_group()
        }
    }

    /// The (year, month, day) triple this date denotes, months 1-based.
    pub open spec fn to_date_spec(self) -> (int, int, int) {
        let m0 = month_of_year_day(self.day as int);
        let d0 = self.day - year_day_of_month(m0);
        if m0 >= 10 {
            (self.year_group() + 1, m0 - 10 + 1, d0 + 1)
        } else {
            (self.year_group(), m0 + 2 + 1, d0 + 1)
        }
    }

    /// The canonical normalized form of a (year, month, day) triple: the
    /// date is shifted to the March-based year, and the year offset is
    /// decomposed into cycle, century, quadrennium and year.
    pub open spec fn from_date_spec(year: int, month: int, day: int) -> GregorianNormalizedDate {
        let shift = month - 1 < 2;
        let m = if shift {
            month - 1 + 12 - 2
        } else {
            month - 1 - 2
        };
        let y = (if shift {
            year - 1
        } else {
            year
        }) - 2000;
        let cycle = y / 400;
        let yic = y % 400;
        let century = yic / 100;
        let yic2 = yic % 100;
        let quadrennium = yic2 / 4;
        let yy = yic2 % 4;
        GregorianNormalizedDate {
            cycle: cycle as i8,
            century: century as u8,
            quadrennium: quadrennium as u8,
            year: yy as u8,
            day: (year_day_of_month(m) + day - 1) as u16,
        }
    }
}


/// Lengths of the months other than February, read off the month-start
/// formula; the month is given here by its March-based index.
pub proof fn lemma_month_length(y: int, m: int)
    requires
        0 <= m <= 10,
    ensures
        year_day_of_month(m + 1) - year_day_of_month(m) == spec_days_in_month(
            y,
            if m >= 10 {
                m - 9
            } else {
                m + 3
            },
        ),
{
    if m == 0 {
        assert(year_day_of_month(0) == 0 && year_day_of_month(1) == 31);
    } else if m == 1 {
        assert(year_day_of_month(1) == 31 && year_day_of_month(2) == 61);
    } else if m == 2 {
        assert(year_day_of_month(2) == 61 && year_day_of_month(3) == 92);
    } else if m == 3 {
        assert(year_day_of_month(3) == 92 && year_day_of_month(4) == 122);
    } else if m == 4 {
        assert(year_day_of_month(4) == 122 && year_day_of_month(5) == 153);
    } else if m == 5 {
        assert(year_day_of_month(5) == 153 && year_day_of_month(6) == 184);
    } else if m == 6 {
        assert(year_day_of_month(6) == 184 && year_day_of_month(7) == 214);
    } else if m == 7 {
        assert(year_day_of_month(7) == 214 && year_day_of_month(8) == 245);
    } else if m == 8 {
        assert(year_day_of_month(8) == 245 && year_day_of_month(9) == 275);
    } else if m == 9 {
        assert(year_day_of_month(9) == 275 && year_day_of_month(10) == 306);
    } else {
        assert(year_day_of_month(10) == 306 && year_day_of_month(11) == 337);
    }
}

impl GregorianNormalizedDate {
    /// Normalizes a (year, 1-based month, 1-based day) triple. The year must
    /// lie in the representable range and the day must exist in its month.
    pub fn from_date(year: i32, month: u8, day: u8) -> (r: Result<Self, Error>)
        ensures
            r matches Ok(g) ==> {
                &&& MIN_YEAR <= year <= MAX_YEAR
                &&& valid_date_spec(year as int, month as int, day as int)
                &&& g == Self::from_date_spec(year as int, month as int, day as int)
                &&& g.wf()
                &&& g.to_date_spec() == (year as int, month as int, day as int)
            },
            (r == Err::<Self, Error>(Error::DateOutOfBounds)) <==> !(MIN_YEAR <= year
                <= MAX_YEAR),
            (r == Err::<Self, Error>(Error::InvalidDate)) <==> (MIN_YEAR <= year <= MAX_YEAR
                && !valid_date_spec(year as int, month as int, day as int)),
    {
        if year < MIN_YEAR || year > MAX_YEAR {
            return Err(Error::DateOutOfBounds);
        }
        if month < 1 || month > 12 {
            return Err(Error::InvalidDate);
        }
        if day < 1 {
            return Err(Error::InvalidDate);
        }
        let shift: bool = month - 1 < 2;
        let m: u8 = if shift {
            month - 1 + 12 - 2
        } else {
            month - 1 - 2
        };
        let y0: i64 = (if shift {
            year - 1
        } else {
            year
        }) as i64 - 2000;
        let (cycle64, yic) = div_mod_floor(y0, 400);
        let (century64, yic2) = clamped_div_rem(yic, 100, 3);
        let (quad64, yy64) = clamped_div_rem(yic2, 4, 24);
        proof {
            lemma_fundamental_div_mod(yic as int, 100);
            lemma_mod_bound(yic as int, 100);
            lemma_fundamental_div_mod(yic2 as int, 4);
            lemma_mod_bound(yic2 as int, 4);
        }
        let cycle: i8 = cycle64 as i8;
        let century: u8 = century64 as u8;
        let quadrennium: u8 = quad64 as u8;
        let yy: u8 = yy64 as u8;
        let m_start: u16 = year_day_from_month(m);
        let total_days_in_month: u8 = if m == 11 {
            proof {
                lemma_normalized_leap_matches(
                    cycle as int,
                    century as int,
                    quadrennium as int,
                    yy as int,
                );
            }
            if is_leap_year(century, quadrennium, yy) {
                29
            } else {
                28
            }
        } else {
            proof {
                lemma_month_length(year as int, m as int);
            }
            (year_day_from_month(m + 1) - m_start) as u8
        };
        assert(total_days_in_month == spec_days_in_month(year as int, month as int));
        if day - 1 >= total_days_in_month {
            return Err(Error::InvalidDate);
        }
        let days_into_year: u16 = m_start + (day - 1) as u16;
        proof {
            lemma_month_of_span(m as int, days_into_year as int);
        }
        Ok(
            GregorianNormalizedDate {
                cycle,
                century,
                quadrennium,
                year: yy,
                day: days_into_year,
            },
        )
    }

    /// The (year, 1-based month, 1-based day) triple this date denotes.
    pub fn to_date(&self) -> (r: (u16, u8, u8))
        requires
            self.wf(),
            0 <= self.to_date_spec().0 <= u16::MAX,
        ensures
            r.0 == self.to_date_spec().0,
            r.1 == self.to_date_spec().1,
            r.2 == self.to_date_spec().2,
    {
        proof {
            lemma_month_of_year_day(self.day as int);
        }
        let year0: i32 = 2000 + 400 * self.cycle as i32 + 100 * self.century as i32 + 4
            * self.quadrennium as i32 + self.year as i32;
        let (month0, day_in_month) = month_day_from_year_day(self.day);
        let month1: u8 = month0 + 2;
        if month1 >= 12 {
            ((year0 + 1) as u16, month1 - 12 + 1, day_in_month + 1)
        } else {
            (year0 as u16, month1 + 1, day_in_month + 1)
        }
    }
}

/// A representable normalized date names a valid calendar date, and
/// normalizing that date gives the same normalized form back.
pub proof fn lemma_date_round_trip(g: GregorianNormalizedDate)
    requires
        g.wf(),
        MIN_YEAR <= g.to_date_spec().0 <= MAX_YEAR,
    ensures
        valid_date_spec(g.to_date_spec().0, g.to_date_spec().1, g.to_date_spec().2),
        GregorianNormalizedDate::from_date_spec(
            g.to_date_spec().0,
            g.to_date_spec().1,
            g.to_date_spec().2,
        ) == g,
{
    let t = g.to_date_spec();
    let m0 = month_of_year_day(g.day as int);
    let d0 = g.day - year_day_of_month(m0);
    lemma_month_of_year_day(g.day as int);
    // The named day exists in its month.
    if m0 <= 10 {
        lemma_month_length(t.0, m0);
    } else {
        assert(year_day_of_month(11) == 337 && year_day_of_month(12) == 367);
        assert(t.1 == 2);
        if d0 + 1 == 29 {
            assert(g.day == 365);
            lemma_normalized_leap_matches(
                g.cycle as int,
                g.century as int,
                g.quadrennium as int,
                g.year as int,
            );
        }
    }
    assert(valid_date_spec(t.0, t.1, t.2));
    // Normalizing the triple rebuilds each field.
    let gg = GregorianNormalizedDate::from_date_spec(t.0, t.1, t.2);
    let shift = t.1 - 1 < 2;
    assert(shift <==> m0 >= 10);
    let y = (if shift {
        t.0 - 1
    } else {
        t.0
    }) - 2000;
    assert(y == 400 * g.cycle + 100 * g.century + 4 * g.quadrennium + g.year);
    vstd::arithmetic::div_mod::lemma_fundamental_div_mod_converse(
        y,
        400,
        g.cycle as int,
        100 * g.century + 4 * g.quadrennium + g.year,
    );
    vstd::arithmetic::div_mod::lemma_fundamental_div_mod_converse(
        100 * g.century + 4 * g.quadrennium + g.year,
        100,
        g.century as int,
        4 * g.quadrennium + g.year,
    );
    vstd::arithmetic::div_mod::lemma_fundamental_div_mod_converse(
        4 * g.quadrennium + g.year,
        4,
        g.quadrennium as int,
        g.year as int,
    );
    assert(gg.cycle == g.cycle);
    assert(gg.century == g.century);
    assert(gg.quadrennium == g.quadrennium);
    assert(gg.year == g.year);
    assert(gg.day == g.day);
}


/// Length of a normalized month: read from the month-start formula, except
/// February, whose length follows the position of the year in its cycle.
pub open spec fn normalized_month_length(
    century: int,
    quadrennium: int,
    year: int,
    m: int,
) -> int {
    if m == 11 {
        if is_leap_spec(century, quadrennium, year) {
            29
        } else {
            28
        }
    } else {
        year_day_of_month(m + 1) - year_day_of_month(m)
    }
}

impl GregorianNormalizedDate {
    /// Field bounds alone, without the coupling of day 365 to leap years.
    pub open spec fn wf_fields(self) -> bool {
        &&& self.century <= 3
        &&& self.quadrennium <= 24
        &&& self.year <= 3
        &&& self.day <= 365
    }

    /// Shifts the year offsets by a number of years, leaving the day alone.
    /// A day count of 365 may afterwards sit in a non-leap year; the caller
    /// resolves that.
    fn add_years_no_carry(&mut self, years: i64)
        requires
            old(self).wf_fields(),
            -49200 <= old(self).year_group() + years <= 53199,
        ensures
            final(self).wf_fields(),
            final(self).year_group() == old(self).year_group() + years,
            final(self).day == old(self).day,
    {
        let (quadrenniums, year) = div_mod_floor(self.year as i64 + years, 4);
        let (centuries, quadrennium) = div_mod_floor(self.quadrennium as i64 + quadrenniums, 25);
        let (cycle_delta, century) = div_mod_floor(self.century as i64 + centuries, 4);
        proof {
            let yg = old(self).year_group() + years;
            assert(yg == 2000 + 400 * (old(self).cycle + cycle_delta) + 100 * century + 4
                * quadrennium + year);
            assert(-128 <= old(self).cycle + cycle_delta <= 127);
        }
        self.year = year as u8;
        self.quadrennium = quadrennium as u8;
        self.century = century as u8;
        self.cycle = (self.cycle as i64 + cycle_delta) as i8;
    }

    /// Adds years. If the date was the leap day and the new year has none,
    /// the day is clamped to the new year's last day and `true` is returned
    /// as a carry of one day.
    pub fn add_years(&mut self, years: i16) -> (r: bool)
        requires
            old(self).wf(),
            -49200 <= old(self).year_group() + years <= 53199,
        ensures
            final(self).wf(),
            final(self).year_group() == old(self).year_group() + years,
            r == (old(self).day == 365 && !is_leap_spec(
                final(self).century as int,
                final(self).quadrennium as int,
                final(self).year as int,
            )),
            final(self).day == if r {
                364int
            } else {
                old(self).day as int
            },
    {
        self.add_years_no_carry(years as i64);
        if self.day == 365 && !is_leap_year(self.century, self.quadrennium, self.year) {
            self.day = 364;
            true
        } else {
            false
        }
    }

    /// Adds months, keeping the day-of-month. If the new month is shorter
    /// than the old day-of-month requires, the day is clamped to the month's
    /// last day and the excess is returned as a day carry.
    pub fn add_months(&mut self, months: i32) -> (r: u8)
        requires
            old(self).wf(),
            -49200 <= old(self).year_group() + (month_of_year_day(old(self).day as int) + months)
                / 12 <= 53199,
        ensures
            final(self).wf(),
            final(self).year_group() == old(self).year_group() + (month_of_year_day(
                old(self).day as int,
            ) + months) / 12,
            month_of_year_day(final(self).day as int) == (month_of_year_day(
                old(self).day as int,
            ) + months) % 12,
            ({
                let din = old(self).day - year_day_of_month(
                    month_of_year_day(old(self).day as int),
                );
                let len = normalized_month_length(
                    final(self).century as int,
                    final(self).quadrennium as int,
                    final(self).year as int,
                    month_of_year_day(final(self).day as int),
                );
                &&& r == (if din + 1 > len {
                    din + 1 - len
                } else {
                    0int
                })
                &&& final(self).day == year_day_of_month(month_of_year_day(final(self).day as int))
                    + din - r
            }),
    {
        proof {
            lemma_month_of_year_day(self.day as int);
        }
        let (m0, din) = month_day_from_year_day(self.day);
        let (years64, m1_64) = div_mod_floor(m0 as i64 + months as i64, 12);
        self.add_years_no_carry(years64);
        let m1: u8 = m1_64 as u8;
        let total_days_in_month: u8 = if m1 == 11 {
            if is_leap_year(self.century, self.quadrennium, self.year) {
                29
            } else {
                28
            }
        } else {
            proof {
                lemma_month_length(0, m1 as int);
            }
            (year_day_from_month(m1 + 1) - year_day_from_month(m1)) as u8
        };
        let carry: u8 = if din >= total_days_in_month {
            (din + 1) - total_days_in_month
        } else {
            0
        };
        let new_day: u16 = year_day_from_month(m1) + (din - carry) as u16;
        proof {
            if m1 <= 10 {
                lemma_month_length(0, m1 as int);
            } else {
                assert(year_day_of_month(11) == 337 && year_day_of_month(12) == 367);
            }
            lemma_month_of_span(m1 as int, new_day as int);
        }
        self.day = new_day;
        carry
    }

    /// Length in days of the year this date lies in.
    pub fn year_length(&self) -> (r: u16)
        requires
            self.wf(),
        ensures
            r == if is_leap_spec(
                self.century as int,
                self.quadrennium as int,
                self.year as int,
            ) {
                366int
            } else {
                365int
            },
    {
        if is_leap_year(self.century, self.quadrennium, self.year) {
            366
        } else {
            365
        }
    }

    /// Moves the date by a number of days; fails, leaving the date alone,
    /// when the target day falls outside the representable range.
    pub fn add_days(&mut self, days: i32) -> (r: Result<(), OutOfBounds>)
        requires
            old(self).wf(),
        ensures
            r is Ok <==> MIN_FIXED_DAY <= old(self).to_day_spec() + days <= MAX_FIXED_DAY,
            r is Ok ==> final(self).wf() && final(self).to_day_spec() == old(self).to_day_spec()
                + days,
            r is Err ==> *final(self) == *old(self),
    {
        proof {
            lemma_to_day_from_day(*self);
        }
        if days == 0 {
            return Ok(());
        }
        if days < 0 {
            if days > i32::MIN && self.day as i32 >= -days {
                self.day = (self.day as i32 + days) as u16;
                proof {
                    lemma_to_day_from_day(*self);
                }
                return Ok(());
            }
        } else {
            let remaining_days_in_year: u16 = (self.year_length() - 1) - self.day;
            if days <= remaining_days_in_year as i32 {
                self.day = self.day + days as u16;
                proof {
                    lemma_to_day_from_day(*self);
                }
                return Ok(());
            }
        }
        let current = self.to_day();
        let target: i64 = current as i64 + days as i64;
        if target < MIN_FIXED_DAY as i64 || target > MAX_FIXED_DAY as i64 {
            return Err(OutOfBounds);
        }
        match GregorianNormalizedDate::from_day(target as i32) {
            Some(g) => {
                *self = g;
                Ok(())
            },
            None => Err(OutOfBounds),
        }
    }

    /// The Gregorian year this date falls in.
    pub fn unnormalized_year(&self) -> (r: i32)
        requires
            self.wf(),
        ensures
            r == self.unnormalized_year_spec(),
    {
        let year: i32 = 2000 + 400 * self.cycle as i32 + 100 * self.century as i32 + 4
            * self.quadrennium as i32 + self.year as i32;
        if self.day >= JANUARY_1_DAY_OFFSET {
            year + 1
        } else {
            year
        }
    }

    /// The 1-based Gregorian month this date falls in.
    pub fn unnormalized_month(&self) -> (r: u8)
        requires
            self.wf(),
        ensures
            r == self.to_date_spec().1,
    {
        proof {
            lemma_month_of_year_day(self.day as int);
        }
        let month: u8 = month_from_year_day(self.day) + 3;
        if month > 12 {
            month - 12
        } else {
            month
        }
    }

    /// The 1-based day-of-month this date falls on.
    pub fn unnormalized_day(&self) -> (r: u8)
        requires
            self.wf(),
        ensures
            r == self.to_date_spec().2,
    {
        let (_, day) = month_day_from_year_day(self.day);
        day + 1
    }

    /// Whether the Gregorian year this date falls in is a leap year.
    pub fn is_unnormalized_leap_year(&self) -> (r: bool)
        requires
            self.wf(),
        ensures
            r == spec_is_leap_year(self.unnormalized_year_spec()),
    {
        let mut w: u16 = 100 * self.century as u16 + 4 * self.quadrennium as u16
            + self.year as u16;
        if self.day >= JANUARY_1_DAY_OFFSET {
            w = (w + 1) % 400;
        }
        proof {
            let y = self.unnormalized_year_spec();
            let w0 = 100 * self.century + 4 * self.quadrennium + self.year;
            let base = if self.day >= 306 {
                w0 + 1
            } else {
                w0
            };
            assert(y == 400 * (5 + self.cycle) + base);
            vstd::arithmetic::div_mod::lemma_mod_multiples_vanish(
                5 + self.cycle as int,
                base,
                400,
            );
            if base < 400 {
                vstd::arithmetic::div_mod::lemma_small_mod(base as nat, 400);
            } else {
                assert(400int % 400 == 0int);
            }
            assert(w == y % 400);
            vstd::arithmetic::div_mod::lemma_mod_mod(y, 4, 100);
            vstd::arithmetic::div_mod::lemma_mod_mod(y, 100, 4);
            assert(4 * 100 == 400 && 100 * 4 == 400);
            assert(w % 4 == y % 4 && w % 100 == y % 100);
        }
        (w % 4 == 0) && (w % 100 != 0 || w == 0)
    }
}

/// Adding a number of days and then subtracting it again restores the
/// original date, whenever both steps stay inside the representable range.
pub proof fn lemma_add_days_cancel(
    g: GregorianNormalizedDate,
    g1: GregorianNormalizedDate,
    g2: GregorianNormalizedDate,
    k: int,
)
    requires
        g.wf(),
        g1.wf(),
        g2.wf(),
        g1.to_day_spec() == g.to_day_spec() + k,
        g2.to_day_spec() == g1.to_day_spec() - k,
    ensures
        g2 == g,
{
    lemma_to_day_injective(g2, g);
}


/// Fixed day on which the March-based year `yg` begins (its March 1), by
/// the canonical cycle/century/quadrennium/year decomposition.
pub open spec fn march_year_start_day(yg: int) -> int {
    let y = yg - 2000;
    let c = y / 400;
    let r1 = y % 400;
    let cc = r1 / 100;
    let r2 = r1 % 100;
    let q = r2 / 4;
    let yy = r2 % 4;
    c * 146097 + cc * 36524 + q * 1461 + yy * 365 + 11017
}

/// Any in-bounds field assignment sits `day` days after the start of its
/// March-based year.
pub proof fn lemma_march_year_start(g: GregorianNormalizedDate)
    requires
        g.century <= 3,
        g.quadrennium <= 24,
        g.year <= 3,
    ensures
        g.to_day_spec() == march_year_start_day(g.year_group()) + g.day,
{
    let y = g.year_group() - 2000;
    vstd::arithmetic::div_mod::lemma_fundamental_div_mod_converse(
        y,
        400,
        g.cycle as int,
        100 * g.century + 4 * g.quadrennium + g.year,
    );
    vstd::arithmetic::div_mod::lemma_fundamental_div_mod_converse(
        100 * g.century + 4 * g.quadrennium + g.year,
        100,
        g.century as int,
        4 * g.quadrennium + g.year,
    );
    vstd::arithmetic::div_mod::lemma_fundamental_div_mod_converse(
        4 * g.quadrennium + g.year,
        4,
        g.quadrennium as int,
        g.year as int,
    );
}


/// Crude linear bounds on the start day of a March-based year: enough to
/// see that years far outside the supported range have their days far
/// outside it too.
pub proof fn lemma_march_year_bounds(yg: int)
    ensures
        yg >= 10000 ==> march_year_start_day(yg) >= 2932957,
        yg <= -2 ==> march_year_start_day(yg) <= -719893,
{
    let y = yg - 2000;
    let c = y / 400;
    let r1 = y % 400;
    lemma_fundamental_div_mod(y, 400);
    lemma_mod_bound(y, 400);
    let cc = r1 / 100;
    let r2 = r1 % 100;
    lemma_fundamental_div_mod(r1, 100);
    lemma_mod_bound(r1, 100);
    let q = r2 / 4;
    let yy = r2 % 4;
    lemma_fundamental_div_mod(r2, 4);
    lemma_mod_bound(r2, 4);
    assert(0 <= cc <= 3 && 0 <= q <= 24 && 0 <= yy <= 3);
    if yg >= 10000 {
        assert(c >= 20);
    }
    if yg <= -2 {
        assert(c <= -6);
        assert(100 * cc + 4 * q + yy == r1);
        assert(march_year_start_day(yg) == c * 146097 + cc * 36524 + q * 1461 + yy * 365
            + 11017);
        assert(cc * 36524 + q * 1461 + yy * 365 <= 365 * r1 + 76 * cc + q) by (nonlinear_arith)
            requires
                0 <= cc <= 3,
                0 <= q <= 24,
                0 <= yy <= 3,
                100 * cc + 4 * q + yy == r1,
        ;
        assert(c * 146097 <= 146000 * c + 97 * c) by (nonlinear_arith);
        assert(365 * y == 146000 * c + 365 * r1);
    }
}


/// Stepping the March-based year forward moves its start day by the length
/// of the year: 365 days, or 366 when the Gregorian year that contains the
/// stepped-over February is a leap year.
pub proof fn lemma_march_year_step(yg: int)
    ensures
        march_year_start_day(yg + 1) == march_year_start_day(yg) + 365 + if spec_is_leap_year(
            yg + 1,
        ) {
            1int
        } else {
            0int
        },
{
    let y = yg - 2000;
    let c = y / 400;
    let r1 = y % 400;
    lemma_fundamental_div_mod(y, 400);
    lemma_mod_bound(y, 400);
    let cc = r1 / 100;
    let r2 = r1 % 100;
    lemma_fundamental_div_mod(r1, 100);
    lemma_mod_bound(r1, 100);
    let q = r2 / 4;
    let yy = r2 % 4;
    lemma_fundamental_div_mod(r2, 4);
    lemma_mod_bound(r2, 4);
    assert(0 <= cc <= 3 && 0 <= q <= 24 && 0 <= yy <= 3);
    lemma_normalized_leap_matches(c, cc, q, yy);
    assert(yg == 2000 + 400 * c + 100 * cc + 4 * q + yy);
    if yy <= 2 {
        vstd::arithmetic::div_mod::lemma_fundamental_div_mod_converse(y + 1, 400, c, r1 + 1);
        vstd::arithmetic::div_mod::lemma_fundamental_div_mod_converse(r1 + 1, 100, cc, r2 + 1);
        vstd::arithmetic::div_mod::lemma_fundamental_div_mod_converse(r2 + 1, 4, q, yy + 1);
    } else if q <= 23 {
        vstd::arithmetic::div_mod::lemma_fundamental_div_mod_converse(y + 1, 400, c, r1 + 1);
        vstd::arithmetic::div_mod::lemma_fundamental_div_mod_converse(r1 + 1, 100, cc, r2 + 1);
        vstd::arithmetic::div_mod::lemma_fundamental_div_mod_converse(r2 + 1, 4, q + 1, 0);
    } else if cc <= 2 {
        assert(r2 == 99);
        vstd::arithmetic::div_mod::lemma_fundamental_div_mod_converse(y + 1, 400, c, r1 + 1);
        vstd::arithmetic::div_mod::lemma_fundamental_div_mod_converse(r1 + 1, 100, cc + 1, 0);
        vstd::arithmetic::div_mod::lemma_fundamental_div_mod_converse(0, 4, 0, 0);
    } else {
        assert(r1 == 399);
        vstd::arithmetic::div_mod::lemma_fundamental_div_mod_converse(y + 1, 400, c + 1, 0);
        vstd::arithmetic::div_mod::lemma_fundamental_div_mod_converse(0, 100, 0, 0);
        vstd::arithmetic::div_mod::lemma_fundamental_div_mod_converse(0, 4, 0, 0);
    }
}

/// Start days of March-based years grow with the year, by at least 365
/// days per year stepped over.
pub proof fn lemma_march_year_mono(a: int, b: int)
    requires
        a <= b,
    ensures
        march_year_start_day(a) <= march_year_start_day(b),
        a < b ==> march_year_start_day(a) + 365 + (if spec_is_leap_year(a + 1) {
            1int
        } else {
            0int
        }) <= march_year_start_day(b),
    decreases b - a,
{
    if a < b {
        lemma_march_year_step(a);
        lemma_march_year_mono(a + 1, b);
    }
}

/// The fixed-day order of well-formed normalized dates is the
/// lexicographic order of their (March-based year, day-of-year) pairs.
pub proof fn lemma_gnd_day_order(g1: GregorianNormalizedDate, g2: GregorianNormalizedDate)
    requires
        g1.wf(),
        g2.wf(),
    ensures
        (g1.to_day_spec() < g2.to_day_spec()) <==> (g1.year_group() < g2.year_group() || (
        g1.year_group() == g2.year_group() && g1.day < g2.day)),
{
    lemma_march_year_start(g1);
    lemma_march_year_start(g2);
    if g1.year_group() < g2.year_group() {
        lemma_march_year_mono(g1.year_group(), g2.year_group());
        lemma_normalized_leap_matches(
            g1.cycle as int,
            g1.century as int,
            g1.quadrennium as int,
            g1.year as int,
        );
    } else if g2.year_group() < g1.year_group() {
        lemma_march_year_mono(g2.year_group(), g1.year_group());
        lemma_normalized_leap_matches(
            g2.cycle as int,
            g2.century as int,
            g2.quadrennium as int,
            g2.year as int,
        );
    }
}

/// Whether one calendar date precedes another, comparing years, then
/// months, then days of the month.
pub open spec fn date_lex_lt(a: (int, int, int), b: (int, int, int)) -> bool {
    a.0 < b.0 || (a.0 == b.0 && (a.1 < b.1 || (a.1 == b.1 && a.2 < b.2)))
}

/// The fixed-day order of well-formed normalized dates agrees with the
/// lexicographic order of their calendar (year, month, day) triples.
pub proof fn lemma_date_order(g1: GregorianNormalizedDate, g2: GregorianNormalizedDate)
    requires
        g1.wf(),
        g2.wf(),
    ensures
        (g1.to_day_spec() < g2.to_day_spec()) <==> date_lex_lt(g1.to_date_spec(), g2.to_date_spec()),
{
    lemma_gnd_day_order(g1, g2);
    lemma_gnd_day_order(g2, g1);
    lemma_month_of_year_day(g1.day as int);
    lemma_month_of_year_day(g2.day as int);
    let m1 = month_of_year_day(g1.day as int);
    let m2 = month_of_year_day(g2.day as int);
    // The month formula is monotone in the day of year...
    if g1.day <= g2.day {
        assert(m1 <= m2);
    }
    if g2.day <= g1.day {
        assert(m2 <= m1);
    }
    // ...and a day at or past January 1 maps to month index 10 or 11.
    assert(m1 >= 10 <==> g1.day >= 306);
    assert(m2 >= 10 <==> g2.day >= 306);
}

} // verus!
