//! How finely a date-time was specified, from millennia down to nanoseconds.
use vstd::prelude::*;

verus! {

/// The granularities a date-time can carry, coarsest first.
#[derive(Debug, Clone, Copy, Ord, PartialOrd, Eq, PartialEq, Hash, Structural)]
pub enum Precision {
    Millennia,
    Centuries,
    Decades,
    Years,
    Months,
    Weeks,
    Days,
    Hours,
    Minutes,
    Seconds,
    Milliseconds,
    Microseconds,
    Nanoseconds,
}

impl Precision {
    /// Position in the coarse-to-fine order, for comparisons.
    pub open spec fn rank_spec(self) -> int {
        match self {
            Precision::Millennia => 0,
            Precision::Centuries => 1,
            Precision::Decades => 2,
            Precision::Years => 3,
            Precision::Months => 4,
            Precision::Weeks => 5,
            Precision::Days => 6,
            Precision::Hours => 7,
            Precision::Minutes => 8,
            Precision::Seconds => 9,
            Precision::Milliseconds => 10,
            Precision::Microseconds => 11,
            Precision::Nanoseconds => 12,
        }
    }

    /// Position in the coarse-to-fine order.
    pub fn rank(&self) -> (r: u8)
        ensures
            r == self.rank_spec(),
    {
        match self {
            Precision::Millennia => 0,
            Precision::Centuries => 1,
            Precision::Decades => 2,
            Precision::Years => 3,
            Precision::Months => 4,
            Precision::Weeks => 5,
            Precision::Days => 6,
            Precision::Hours => 7,
            Precision::Minutes => 8,
            Precision::Seconds => 9,
            Precision::Milliseconds => 10,
            Precision::Microseconds => 11,
            Precision::Nanoseconds => 12,
        }
    }

    /// Whether this precision is at least as fine as `other`.
    pub fn at_least(&self, other: Precision) -> (r: bool)
        ensures
            r == (self.rank_spec() >= other.rank_spec()),
    {
        self.rank() >= other.rank()
    }
}

} // verus!
