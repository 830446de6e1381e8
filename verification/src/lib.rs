use vstd::prelude::*;

pub use duration::Duration;
pub use duration::DurationS64;
pub use instant::Instant;
pub use instant::InstantOutOfRange;
pub use instant::InstantS64;
pub use scale::Milliseconds;
pub use scale::Nanoseconds;
pub use scale::Scale;
pub use scale::Seconds;

pub mod cursor;
pub mod div_rem;
pub mod shared_vec_cursor;
pub mod slice_cursor;
mod duration;
pub mod gregorian_normalized_date;
pub mod instant;
pub mod iso8601;
mod scale;
pub mod zoneinfo;

use std::sync::Arc;

verus! {

/// Relies on std's Arc::clone: a new handle to the same shared vector.
#[verifier::external_body]
pub(crate) fn clone_arc_vec<T>(v: &Arc<Vec<T>>) -> (r: Arc<Vec<T>>)
    ensures
        r == *v,
{
    Arc::clone(v)
}

pub fn add(left: usize, right: usize) -> (r: usize)
    requires
        left + right <= usize::MAX,
    ensures
        r == left + right,
{
    left + right
}

} // verus!
