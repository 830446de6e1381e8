//! Calendar facts phrased on plain Gregorian years and months.
use vstd::prelude::*;
use crate::div_rem::rem_floor;
use crate::gregorian_normalized_date::spec_days_in_month;
use crate::gregorian_normalized_date::spec_is_leap_year;

verus! {

/// Whether a proleptic Gregorian year is a leap year.
pub fn is_leap_year(year: i128) -> (r: bool)
    ensures
        r == spec_is_leap_year(year as int),
{
    // Reduce modulo the 400-year cycle first so the checks fit small integers.
    let year400: i128 = rem_floor(year, 400);
    let w: u16 = year400 as u16;
    proof {
        let y = year as int;
        vstd::arithmetic::div_mod::lemma_mod_mod(y, 4, 100);
        vstd::arithmetic::div_mod::lemma_mod_mod(y, 100, 4);
        assert(4 * 100 == 400 && 100 * 4 == 400);
        assert(w % 4 == y % 4 && w % 100 == y % 100);
    }
    w % 4 == 0 && (w % 100 != 0 || w == 0)
}

/// Number of days in a month (1-based) of a proleptic Gregorian year.
pub fn days_in_month(year: i128, month: u8) -> (r: u8)
    requires
        1 <= month <= 12,
    ensures
        r == spec_days_in_month(year as int, month as int),
{
    if month == 2 {
        if is_leap_year(year) {
            29
        } else {
            28
        }
    } else if month == 4 || month == 6 || month == 9 || month == 11 {
        30
    } else {
        31
    }
}

} // verus!
