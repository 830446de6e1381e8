//! Tick scales: how many ticks make up one second of an instant or duration.
use vstd::prelude::*;

verus! {

/// A compile-time tick rate. One second holds `ticks_per_second` ticks.
pub trait Scale: Sized {
    spec fn ticks_per_second_spec() -> u32;

    fn ticks_per_second() -> (r: u32)
        ensures
            r == Self::ticks_per_second_spec(),
            1 <= r,
    ;
}

#[derive(Debug, Clone, Copy, Ord, PartialOrd, Eq, PartialEq, Hash)]
pub struct Seconds;

#[derive(Debug, Clone, Copy, Ord, PartialOrd, Eq, PartialEq, Hash)]
pub struct Milliseconds;

#[derive(Debug, Clone, Copy, Ord, PartialOrd, Eq, PartialEq, Hash)]
pub struct Nanoseconds;

impl Scale for Seconds {
    open spec fn ticks_per_second_spec() -> u32 {
        1
    }

    fn ticks_per_second() -> (r: u32) {
        1
    }
}

impl Scale for Milliseconds {
    open spec fn ticks_per_second_spec() -> u32 {
        1_000
    }

    fn ticks_per_second() -> (r: u32) {
        1_000
    }
}

impl Scale for Nanoseconds {
    open spec fn ticks_per_second_spec() -> u32 {
        1_000_000_000
    }

    fn ticks_per_second() -> (r: u32) {
        1_000_000_000
    }
}

} // verus!
