//! A point in time: ticks since the Unix epoch at a given scale, leap
//! seconds included, so the count increases monotonically through 23:59:60.
use vstd::prelude::*;
use core::marker::PhantomData;
use crate::div_rem::div_mod_floor;
use crate::div_rem::tdiv;
use crate::duration::Duration;
use crate::scale::Scale;
use crate::scale::Seconds;

verus! {

/// Conversion between instants did not fit the target range.
#[derive(Debug, Clone, Copy, PartialEq, Eq, Structural)]
pub struct InstantOutOfRange;

/// Tick count since the Unix epoch at scale `S`.
#[derive(Debug, Copy, Ord, PartialOrd, Eq, PartialEq, Hash)]
pub struct Instant<S: Scale> {
    ticks: i64,
    scale: PhantomData<S>,
}

pub type InstantS64 = Instant<Seconds>;

impl<S: Scale> View for Instant<S> {
    type V = int;

    closed spec fn view(&self) -> int {
        self.ticks as int
    }
}

impl<S: Scale> Instant<S> {
    /// The earliest representable instant at this scale.
    pub fn min_value() -> (r: Self)
        ensures
            r@ == i64::MIN,
    {
        Instant { ticks: i64::MIN, scale: PhantomData }
    }

    /// The latest representable instant at this scale.
    pub fn max_value() -> (r: Self)
        ensures
            r@ == i64::MAX,
    {
        Instant { ticks: i64::MAX, scale: PhantomData }
    }

    /// The instant a given number of ticks after the epoch.
    pub fn from_ticks_since_epoch(ticks: i64) -> (r: Self)
        ensures
            r@ == ticks,
    {
        Instant { ticks, scale: PhantomData }
    }

    /// The Unix epoch.
    pub fn epoch() -> (r: Self)
        ensures
            r@ == 0,
    {
        Instant { ticks: 0, scale: PhantomData }
    }

    /// Ticks since the epoch.
    pub fn ticks_since_epoch(&self) -> (r: i64)
        ensures
            r == self@,
    {
        self.ticks
    }

    /// The span from the epoch to this instant.
    pub fn duration_since_epoch(&self) -> (r: Duration<S>)
        ensures
            r@ == self@,
    {
        Duration::new(self.ticks)
    }

    /// Drops precision to a coarser scale, rounding toward minus infinity.
    pub fn floor<S2: Scale>(&self) -> (r: Instant<S2>)
        requires
            S2::ticks_per_second_spec() <= S::ticks_per_second_spec(),
            S::ticks_per_second_spec() % S2::ticks_per_second_spec() == 0,
        ensures
            r@ == self@ / ((S::ticks_per_second_spec() / S2::ticks_per_second_spec()) as int),
    {
        let factor: u32 = S::ticks_per_second() / S2::ticks_per_second();
        let (q, _) = div_mod_floor(self.ticks, factor as i64);
        Instant::from_ticks_since_epoch(q)
    }

    /// Raises precision to a finer scale, or `None` if the tick count does
    /// not fit.
    pub fn extend<S2: Scale>(&self) -> (r: Option<Instant<S2>>)
        requires
            S2::ticks_per_second_spec() >= S::ticks_per_second_spec(),
            S2::ticks_per_second_spec() % S::ticks_per_second_spec() == 0,
        ensures
            r matches Some(i) ==> i@ == self@ * ((S2::ticks_per_second_spec()
                / S::ticks_per_second_spec()) as int),
            r is None <==> !(i64::MIN <= self@ * ((S2::ticks_per_second_spec()
                / S::ticks_per_second_spec()) as int) <= i64::MAX),
    {
        let factor: u32 = S2::ticks_per_second() / S::ticks_per_second();
        match self.ticks.checked_mul(factor as i64) {
            Some(t) => Some(Instant::from_ticks_since_epoch(t)),
            None => None,
        }
    }

    /// Splits off the coarser part of this instant: the floored coarse
    /// instant together with the ticks it drops, so that
    /// `coarse * factor + remainder` rebuilds the original.
    pub fn split<S2: Scale>(&self) -> (r: (Instant<S2>, Duration<S>))
        requires
            S2::ticks_per_second_spec() <= S::ticks_per_second_spec(),
            S::ticks_per_second_spec() % S2::ticks_per_second_spec() == 0,
        ensures
            ({
                let factor = (S::ticks_per_second_spec() / S2::ticks_per_second_spec()) as int;
                &&& r.0@ == self@ / factor
                &&& r.1@ == self@ - (self@ / factor) * factor
                &&& 0 <= r.1@ < factor
            }),
    {
        let factor: u32 = S::ticks_per_second() / S2::ticks_per_second();
        proof {
            vstd::arithmetic::div_mod::lemma_div_non_zero(
                S::ticks_per_second_spec() as int,
                S2::ticks_per_second_spec() as int,
            );
        }
        let (q, m) = div_mod_floor(self.ticks, factor as i64);
        (Instant::from_ticks_since_epoch(q), Duration::new(m))
    }

    /// The instant a duration later, or `None` if it does not fit.
    pub fn checked_add(self, rhs: Duration<S>) -> (r: Option<Self>)
        ensures
            r matches Some(i) ==> i@ == self@ + rhs@,
            r is None <==> !(i64::MIN <= self@ + rhs@ <= i64::MAX),
    {
        match self.ticks.checked_add(rhs.ticks()) {
            Some(t) => Some(Instant { ticks: t, scale: PhantomData }),
            None => None,
        }
    }

    /// The span from `rhs` to this instant, or `None` if it does not fit.
    pub fn checked_sub_instant(self, rhs: Self) -> (r: Option<Duration<S>>)
        ensures
            r matches Some(d) ==> d@ == self@ - rhs@,
            r is None <==> !(i64::MIN <= self@ - rhs@ <= i64::MAX),
    {
        match self.ticks.checked_sub(rhs.ticks) {
            Some(t) => Some(Duration::new(t)),
            None => None,
        }
    }
}


impl<S: Scale> Clone for Instant<S> {
    fn clone(&self) -> (r: Self)
        ensures
            r == *self,
    {
        Instant { ticks: self.ticks, scale: PhantomData }
    }
}


/// The Julian day number of a proleptic Gregorian calendar date, by the
/// classic arithmetic formula over truncating division.
pub open spec fn julian_day_spec(year: int, month: int, day: int) -> int {
    tdiv(1461 * (year + 4800 + tdiv(month - 14, 12)), 4) + tdiv(
        367 * (month - 2 - 12 * tdiv(month - 14, 12)),
        12,
    ) - tdiv(3 * tdiv(year + 4900 + tdiv(month - 14, 12), 100), 4) + day - 32075
}

/// The Julian day number of a calendar date.
pub fn julian_day(year: i32, month: i32, day: i32) -> (r: i32)
    requires
        -100_000 <= year <= 100_000,
        1 <= month <= 12,
        1 <= day <= 31,
    ensures
        r == julian_day_spec(year as int, month as int, day as int),
{
    let y = year as i64;
    let m = month as i64;
    let d = day as i64;
    let jdn = (1461 * (y + 4800 + (m - 14) / 12)) / 4 + (367 * (m - 2 - 12 * ((m - 14) / 12)))
        / 12 - (3 * ((y + 4900 + (m - 14) / 12) / 100)) / 4 + d - 32075;
    jdn as i32
}

/// The Unix timestamp of a calendar date and time of day. By the Unix time
/// definition every day has exactly 86400 seconds: leap seconds are
/// disregarded.
pub fn utc_to_unix_time(year: i32, month: i32, day: i32, hour: i32, minute: i32, second: i32) -> (r:
    i64)
    requires
        -100_000 <= year <= 100_000,
        1 <= month <= 12,
        1 <= day <= 31,
        0 <= hour <= 23,
        0 <= minute <= 59,
        0 <= second <= 61,
    ensures
        r == (julian_day_spec(year as int, month as int, day as int) - 2440588) * 86400 + hour
            * 3600 + minute * 60 + second,
{
    let jd = julian_day(year, month, day) as i64;
    let hour = hour as i64;
    let minute = minute as i64;
    let second = second as i64;
    (jd - 2440588) * 86400 + hour * 3600 + minute * 60 + second
}

} // verus!
