pub use chronology::Chronology;
pub use date_time::Carry;
pub use date_time::DateTime;
pub use date_time::DateTimeWithCarry;
pub use date_time_builder::DateTimeBuilder;
pub use date_time_builder::Error;

mod chronology;
mod date_time;
mod date_time_builder;
mod precision;
pub mod util;

pub use precision::Precision;

use vstd::prelude::*;

verus! {

pub const SECONDS_PER_DAY: u32 = 86_400;

pub const SECONDS_PER_HOUR: u16 = 3_600;

pub const SECONDS_PER_MINUTE: u8 = 60;

pub const HOURS_PER_DAY: u8 = 24;

pub const MINUTES_PER_HOUR: u8 = 60;

pub const MINUTES_PER_DAY: u16 = 1_440;

} // verus!
