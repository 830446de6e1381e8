//! A span of time measured in ticks of a scale. Closed under checked
//! addition, subtraction and scalar multiplication.
use vstd::prelude::*;
use core::marker::PhantomData;
use crate::scale::Scale;

verus! {

/// Signed tick count at scale `S`.
#[derive(Debug, Copy, Ord, PartialOrd, Eq, PartialEq, Hash)]
pub struct Duration<S: Scale> {
    ticks: i64,
    scale: PhantomData<S>,
}

pub type DurationS64 = Duration<crate::scale::Seconds>;

impl<S: Scale> View for Duration<S> {
    type V = int;

    closed spec fn view(&self) -> int {
        self.ticks as int
    }
}

impl<S: Scale> Duration<S> {
    /// A duration of the given number of ticks.
    pub fn new(ticks: i64) -> (r: Self)
        ensures
            r@ == ticks,
    {
        Duration { ticks, scale: PhantomData }
    }

    /// The tick count.
    pub fn ticks(&self) -> (r: i64)
        ensures
            r == self@,
    {
        self.ticks
    }

    /// Sum of two durations, or `None` if it does not fit.
    pub fn checked_add(self, rhs: Self) -> (r: Option<Self>)
        ensures
            r matches Some(d) ==> d@ == self@ + rhs@,
            r is None <==> !(i64::MIN <= self@ + rhs@ <= i64::MAX),
    {
        match self.ticks.checked_add(rhs.ticks) {
            Some(t) => Some(Duration { ticks: t, scale: PhantomData }),
            None => None,
        }
    }

    /// Difference of two durations, or `None` if it does not fit.
    pub fn checked_sub(self, rhs: Self) -> (r: Option<Self>)
        ensures
            r matches Some(d) ==> d@ == self@ - rhs@,
            r is None <==> !(i64::MIN <= self@ - rhs@ <= i64::MAX),
    {
        match self.ticks.checked_sub(rhs.ticks) {
            Some(t) => Some(Duration { ticks: t, scale: PhantomData }),
            None => None,
        }
    }

    /// Drops precision to a coarser scale, rounding toward minus infinity.
    pub fn floor<S2: Scale>(&self) -> (r: Duration<S2>)
        requires
            S2::ticks_per_second_spec() <= S::ticks_per_second_spec(),
            S::ticks_per_second_spec() % S2::ticks_per_second_spec() == 0,
        ensures
            r@ == self@ / ((S::ticks_per_second_spec() / S2::ticks_per_second_spec()) as int),
    {
        let factor: u32 = S::ticks_per_second() / S2::ticks_per_second();
        let (q, _) = crate::div_rem::div_mod_floor(self.ticks, factor as i64);
        Duration { ticks: q, scale: PhantomData }
    }

    /// Raises precision to a finer scale, or `None` if the tick count does
    /// not fit.
    pub fn extend<S2: Scale>(&self) -> (r: Option<Duration<S2>>)
        requires
            S2::ticks_per_second_spec() >= S::ticks_per_second_spec(),
            S2::ticks_per_second_spec() % S::ticks_per_second_spec() == 0,
        ensures
            r matches Some(d) ==> d@ == self@ * ((S2::ticks_per_second_spec()
                / S::ticks_per_second_spec()) as int),
            r is None <==> !(i64::MIN <= self@ * ((S2::ticks_per_second_spec()
                / S::ticks_per_second_spec()) as int) <= i64::MAX),
    {
        let factor: u32 = S2::ticks_per_second() / S::ticks_per_second();
        match self.ticks.checked_mul(factor as i64) {
            Some(t) => Some(Duration { ticks: t, scale: PhantomData }),
            None => None,
        }
    }

    /// Scalar multiple of a duration, or `None` if it does not fit.
    pub fn checked_mul(self, rhs: i64) -> (r: Option<Self>)
        ensures
            r matches Some(d) ==> d@ == self@ * rhs,
            r is None <==> !(i64::MIN <= self@ * rhs <= i64::MAX),
    {
        match self.ticks.checked_mul(rhs) {
            Some(t) => Some(Duration { ticks: t, scale: PhantomData }),
            None => None,
        }
    }
}


impl<S: Scale> Clone for Duration<S> {
    fn clone(&self) -> (r: Self)
        ensures
            r == *self,
    {
        Duration { ticks: self.ticks, scale: PhantomData }
    }
}

} // verus!
