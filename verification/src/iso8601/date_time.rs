//! An ISO 8601 date and time over the leap-second timeline, from 0000-01-01
//! to 9999-12-31 at nanosecond precision.
use vstd::prelude::*;
use crate::div_rem::clamped_div_rem;
use crate::div_rem::div_mod_floor;
use crate::gregorian_normalized_date::GregorianNormalizedDate;
use crate::gregorian_normalized_date::lemma_to_day_from_day;
use crate::gregorian_normalized_date::lemma_to_day_injective;
use crate::gregorian_normalized_date::lemma_normalized_leap_matches;
use crate::gregorian_normalized_date::lemma_march_year_start;
use crate::gregorian_normalized_date::lemma_date_order;
use crate::gregorian_normalized_date::date_lex_lt;
use crate::gregorian_normalized_date::march_year_start_day;
use crate::gregorian_normalized_date::lemma_march_year_bounds;
use crate::gregorian_normalized_date::month_of_year_day;
use crate::gregorian_normalized_date::year_day_of_month;
use crate::gregorian_normalized_date::lemma_month_of_year_day;
use crate::gregorian_normalized_date::spec_is_leap_year;
use crate::instant::Instant;
use crate::instant::InstantS64;
use crate::iso8601::chronology::Chronology;
use crate::iso8601::precision::Precision;
use crate::zoneinfo::ContinuousTimeSegment;
use crate::zoneinfo::SegmentLookupResult;
use crate::zoneinfo::day_length;
use crate::zoneinfo::instant_of_day_second;
use crate::zoneinfo::leap_adjustment;
use crate::zoneinfo::leap_of_day;
use crate::zoneinfo::lemma_adjustment_before;
use crate::zoneinfo::lemma_leap_of_day_in_segment;
use crate::zoneinfo::lemma_no_segment_contains;
use crate::zoneinfo::lemma_adjustment_in_segment;
use crate::zoneinfo::lemma_adjustment_step;
use crate::zoneinfo::lemma_instant_order;
use crate::zoneinfo::lemma_leap_of_day_bounds;
use crate::zoneinfo::lemma_start_day_order;
use crate::zoneinfo::segments_wf;
use crate::zoneinfo::day_of_instant;
use crate::zoneinfo::second_of_instant;
use crate::zoneinfo::lemma_instant_inverse;
use crate::zoneinfo::lemma_canonical_unique;
use crate::zoneinfo::lemma_leap_of_day_outside;
use crate::zoneinfo::lemma_adjustment_bounds;
use crate::zoneinfo::spilled;
use crate::duration::Duration;

verus! {

// The fixed days of 0000-01-01 and 9999-12-31, the range of a DateTime.
pub const MIN_FIXED_DAY: i32 = -719528;

pub const MAX_FIXED_DAY: i32 = 2932896;

// Seconds of day run to 86400 plus at most the largest leap count a
// segment's last day can carry.
pub const MAX_SECOND_OF_DAY: u32 = 86_400 + 127;

/// Day and second amounts that remain to be applied after an operation
/// clamped its result to a representable wall-clock value.
#[derive(Debug, Clone, Copy)]
pub struct Carry {
    days: u32,
    seconds: u64,
}

impl Carry {
    /// Days still to be added.
    pub closed spec fn days_spec(self) -> int {
        self.days as int
    }

    /// Seconds still to be added.
    pub closed spec fn seconds_spec(self) -> int {
        self.seconds as int
    }

    /// Whether nothing remains to be applied.
    pub fn is_zero(&self) -> (r: bool)
        ensures
            r == (self.days_spec() == 0 && self.seconds_spec() == 0),
    {
        self.days == 0 && self.seconds == 0
    }
}

/// Whether a normalized date lies within the date-time range
/// 0000-01-01..=9999-12-31.
pub open spec fn gnd_in_range(g: GregorianNormalizedDate) -> bool {
    MIN_FIXED_DAY <= g.to_day_spec() <= MAX_FIXED_DAY
}

/// Whether a normalized date lies within the date-time range.
pub fn is_in_range(gnd: &GregorianNormalizedDate) -> (r: bool)
    requires
        gnd.wf(),
    ensures
        r == gnd_in_range(*gnd),
{
    let day = gnd.to_day();
    MIN_FIXED_DAY <= day && day <= MAX_FIXED_DAY
}

/// Hour read from a second-of-day, leap seconds folded into hour 23.
pub open spec fn spec_hour_of(s: int) -> int {
    if s / 3600 <= 23 {
        s / 3600
    } else {
        23
    }
}

/// Minute read from a second-of-day; the last minute of the day absorbs
/// whatever runs past 23:59:00.
pub open spec fn spec_minute_of(s: int) -> int {
    if s < 86340 {
        (s % 3600) / 60
    } else {
        59
    }
}

/// Second read from a second-of-day; on the last minute of the day it
/// counts on past 59, so a leap second reads as 60.
pub open spec fn spec_second_of(s: int) -> int {
    if s < 86340 {
        s % 60
    } else {
        s - 86340
    }
}

/// An ISO 8601 date and time: a precision, a normalized date, the second
/// of its day, the nanosecond of that second, and the chronology that
/// places its days on the leap-second timeline.
#[derive(Debug)]
pub struct DateTime {
    precision: Precision,
    gnd: GregorianNormalizedDate,
    second: u32,
    nanosecond: u32,
    chronology: Chronology,
}

impl DateTime {
    pub closed spec fn precision_spec(self) -> Precision {
        self.precision
    }

    pub closed spec fn gnd_spec(self) -> GregorianNormalizedDate {
        self.gnd
    }

    pub closed spec fn second_spec(self) -> int {
        self.second as int
    }

    pub closed spec fn nanosecond_spec(self) -> int {
        self.nanosecond as int
    }

    pub closed spec fn chronology_spec(self) -> Chronology {
        self.chronology
    }

    /// The segment sequence of the chronology this value carries.
    pub open spec fn segs(self) -> Seq<ContinuousTimeSegment> {
        self.chronology_spec().segments()
    }

    /// The fixed day this value falls on.
    pub open spec fn day_spec(self) -> int {
        self.gnd_spec().to_day_spec()
    }

    /// Internal consistency: date well formed and in range, chronology
    /// usable, second and nanosecond within their fields' spans.
    pub open spec fn wf(self) -> bool {
        &&& self.gnd_spec().wf()
        &&& gnd_in_range(self.gnd_spec())
        &&& self.chronology_spec().wf()
        &&& 0 <= self.second_spec() <= MAX_SECOND_OF_DAY
        &&& 0 <= self.nanosecond_spec() < 1_000_000_000
    }

    /// The second of day lies strictly within its day's true length; the
    /// values second-level arithmetic produces are all of this shape.
    pub open spec fn canonical(self) -> bool {
        self.second_spec() < day_length(self.segs(), self.day_spec())
    }

    /// Seconds since the epoch of this value's (day, second) position on
    /// the leap-second timeline.
    pub open spec fn instant_spec(self) -> int {
        instant_of_day_second(self.segs(), self.day_spec(), self.second_spec())
    }

    /// Assembles a date-time from its parts.
    pub(crate) fn new(
        chronology: Chronology,
        precision: Precision,
        gnd: GregorianNormalizedDate,
        second: u32,
        nanosecond: u32,
    ) -> (r: Self)
        ensures
            r.precision_spec() == precision,
            r.gnd_spec() == gnd,
            r.second_spec() == second,
            r.nanosecond_spec() == nanosecond,
            r.chronology_spec() == chronology,
    {
        DateTime { precision, gnd, second, nanosecond, chronology }
    }

    /// A fresh builder.
    pub fn builder() -> (r: crate::iso8601::date_time_builder::DateTimeBuilder)
        ensures
            r.chronology is None,
            r.precision is None,
            r.year is None,
            r.month is None,
            r.day is None,
            r.hour is None,
            r.minute is None,
            r.second is None,
            r.millisecond is None,
            r.microsecond is None,
            r.nanosecond is None,
    {
        crate::iso8601::date_time_builder::DateTimeBuilder::new()
    }

    /// The precision this value carries.
    pub fn precision(&self) -> (r: Precision)
        ensures
            r == self.precision_spec(),
    {
        self.precision
    }
}

/// A well-formed date whose calendar year is between 0 and 9999 lies in
/// the date-time range.
pub proof fn lemma_year_bounds_in_range(g: GregorianNormalizedDate)
    requires
        g.wf(),
        0 <= g.to_date_spec().0 <= 9999,
    ensures
        gnd_in_range(g),
{
    let rest = g.century * 36524 + g.quadrennium * 1461 + g.year * 365 + g.day;
    assert(g.to_day_spec() == g.cycle * 146097 + rest + 11017);
    assert(0 <= rest <= 146096);
    let yg = g.year_group();
    let y0 = g.to_date_spec().0;
    assert(y0 == yg + if month_of_year_day(g.day as int) >= 10 {
        1int
    } else {
        0int
    });
    assert(month_of_year_day(g.day as int) >= 10 <==> g.day >= 306);
    assert(-6 <= g.cycle <= 19);
    if g.cycle == -6 {
        assert(yg >= -1);
        assert(100 * g.century + 4 * g.quadrennium + g.year >= 399);
        assert(g.century == 3 && g.quadrennium == 24 && g.year == 3);
        assert(g.day >= 306);
        assert(g.to_day_spec() >= MIN_FIXED_DAY);
    }
    if g.cycle == 19 {
        if g.century == 3 && g.quadrennium == 24 && g.year == 3 {
            assert(yg == 9999);
            assert(g.day <= 305);
        }
        assert(g.to_day_spec() <= MAX_FIXED_DAY);
    }
}

/// The year of a date in range is between 0 and 9999, and its cycle count
/// between -6 and 19.
pub proof fn lemma_in_range_year_bounds(g: GregorianNormalizedDate)
    requires
        g.wf(),
        gnd_in_range(g),
    ensures
        0 <= g.unnormalized_year_spec() <= 9999,
        -6 <= g.cycle <= 19,
        0 <= g.to_date_spec().0 <= 9999,
{
    let rest = g.century * 36524 + g.quadrennium * 1461 + g.year * 365 + g.day;
    assert(g.to_day_spec() == g.cycle * 146097 + rest + 11017);
    assert(0 <= rest <= 146096);
    assert(-6 <= g.cycle <= 19);
    if g.cycle == -6 {
        assert(rest >= 146037);
        assert(g.century == 3);
        assert(g.quadrennium == 24);
        assert(g.year == 3);
        assert(g.day >= 306);
    }
    if g.cycle == 19 {
        assert(rest <= 146036);
        assert(!(g.century == 3 && g.quadrennium == 24 && g.year == 3 && g.day >= 306));
    }
}


impl DateTime {
    /// The calendar year.
    pub fn year(&self) -> (r: u16)
        requires
            self.wf(),
        ensures
            r == self.gnd_spec().unnormalized_year_spec(),
    {
        proof {
            lemma_in_range_year_bounds(self.gnd_spec());
        }
        self.gnd.unnormalized_year() as u16
    }

    /// The calendar month, 1-based.
    pub fn month(&self) -> (r: u8)
        requires
            self.wf(),
        ensures
            r == self.gnd_spec().to_date_spec().1,
    {
        self.gnd.unnormalized_month()
    }

    /// The day of the month, 1-based.
    pub fn day(&self) -> (r: u8)
        requires
            self.wf(),
        ensures
            r == self.gnd_spec().to_date_spec().2,
    {
        self.gnd.unnormalized_day()
    }

    /// The hour of the day; leap seconds at the end of the day stay in
    /// hour 23.
    pub fn hour(&self) -> (r: u8)
        requires
            self.wf(),
        ensures
            r == spec_hour_of(self.second_spec()),
    {
        let hour: u32 = self.second / crate::iso8601::SECONDS_PER_HOUR as u32;
        if hour <= 23 {
            hour as u8
        } else {
            23
        }
    }

    /// The minute of the hour; the final minute of the day absorbs any
    /// leap seconds.
    pub fn minute(&self) -> (r: u8)
        requires
            self.wf(),
        ensures
            r == spec_minute_of(self.second_spec()),
    {
        let boundary: u32 = crate::iso8601::SECONDS_PER_DAY - crate::iso8601::SECONDS_PER_MINUTE
            as u32;
        if self.second < boundary {
            let seconds_into_hour: u32 = self.second % crate::iso8601::SECONDS_PER_HOUR as u32;
            (seconds_into_hour / crate::iso8601::MINUTES_PER_HOUR as u32) as u8
        } else {
            crate::iso8601::MINUTES_PER_HOUR - 1
        }
    }

    /// The second of the minute; a leap second reads as 60 or more.
    pub fn second(&self) -> (r: u8)
        requires
            self.wf(),
        ensures
            r == spec_second_of(self.second_spec()),
    {
        let boundary: u32 = crate::iso8601::SECONDS_PER_DAY - crate::iso8601::SECONDS_PER_MINUTE
            as u32;
        if self.second < boundary {
            (self.second % crate::iso8601::SECONDS_PER_MINUTE as u32) as u8
        } else {
            (self.second - boundary) as u8
        }
    }

    /// The millisecond of the second.
    pub fn millisecond(&self) -> (r: u16)
        requires
            self.wf(),
        ensures
            r == self.nanosecond_spec() / 1_000_000,
    {
        (self.nanosecond / 1_000_000) as u16
    }

    /// The microsecond of the millisecond.
    pub fn microsecond(&self) -> (r: u16)
        requires
            self.wf(),
        ensures
            r == (self.nanosecond_spec() / 1_000) % 1_000,
    {
        ((self.nanosecond / 1_000) % 1_000) as u16
    }

    /// The nanosecond of the microsecond.
    pub fn nanosecond(&self) -> (r: u16)
        requires
            self.wf(),
        ensures
            r == self.nanosecond_spec() % 1_000,
    {
        (self.nanosecond % 1_000) as u16
    }

    /// Clamps a second-of-day to the true length of the given day,
    /// returning the clamped value and the excess. Days outside every
    /// segment are left alone, as no leap second table covers them.
    fn spill_eod_second_overflow(&self, gnd: &GregorianNormalizedDate, second: u32) -> (r: (
        u32,
        u32,
    ))
        requires
            self.wf(),
            gnd.wf(),
            second <= MAX_SECOND_OF_DAY + 86400,
        ensures
            ({
                let sp = spilled(self.segs(), gnd.to_day_spec(), second as int);
                r.0 == sp.0 && r.1 == sp.1
            }),
            r.0 <= second,
            r.1 <= second,
    {
        let leap_second_chronology = self.chronology.leap_seconds();
        let days_from_epoch = gnd.to_day();
        if leap_second_chronology.0.len() == 0 {
            return (second, 0);
        }
        match leap_second_chronology.by_day(days_from_epoch as i64) {
            SegmentLookupResult::In(segment) => {
                proof {
                    let i = choose|i: int|
                        0 <= i < self.segs().len() && segment == self.segs()[i]
                            && segment.start_day <= days_from_epoch < segment.start_day
                            + segment.duration_days;
                    assert(self.segs()[i].wf());
                    lemma_leap_of_day_in_segment(self.segs(), i, days_from_epoch as int);
                }
                let day_offset: u32 = (days_from_epoch - segment.start_day as i32) as u32;
                let leap_seconds: i8 = if day_offset == segment.duration_days - 1 {
                    segment.leap_seconds
                } else {
                    0
                };
                let day_length_s: u32 = (crate::iso8601::SECONDS_PER_DAY as i32
                    + leap_seconds as i32) as u32;
                if second >= day_length_s {
                    let second_carry: u32 = second - day_length_s;
                    (day_length_s, second_carry)
                } else {
                    (second, 0)
                }
            },
            SegmentLookupResult::BeforeFirst(_) => {
                proof {
                    lemma_no_segment_contains(self.segs(), gnd.to_day_spec());
                }
                (second, 0)
            },
            SegmentLookupResult::AfterLast(_) => {
                proof {
                    lemma_no_segment_contains(self.segs(), gnd.to_day_spec());
                }
                (second, 0)
            },
        }
    }
}


// Instants beyond these bounds lie outside the date-time range whatever
// the leap-second table says: the margins cover the largest possible
// second-of-day and accumulated adjustment.
pub const MAX_USEFUL_INSTANT: i64 = 300_000_000_000;

pub const MIN_USEFUL_INSTANT: i64 = -65_000_000_000;

/// An instant beyond the useful bounds falls on a day outside the
/// date-time range.
pub proof fn lemma_far_instant_out_of_range(s: Seq<ContinuousTimeSegment>, t: int)
    requires
        segments_wf(s),
        t >= MAX_USEFUL_INSTANT || t <= MIN_USEFUL_INSTANT,
    ensures
        !(MIN_FIXED_DAY <= day_of_instant(s, t) <= MAX_FIXED_DAY),
{
    lemma_instant_inverse(s, t);
    let d = day_of_instant(s, t);
    lemma_adjustment_bounds(s, d);
    lemma_leap_of_day_bounds(s, d);
}

impl Clone for DateTime {
    fn clone(&self) -> (r: Self)
        ensures
            r == *self,
    {
        DateTime {
            precision: self.precision,
            gnd: self.gnd,
            second: self.second,
            nanosecond: self.nanosecond,
            chronology: self.chronology.clone(),
        }
    }
}

impl DateTime {
    /// The seconds-since-epoch instant of second `second` of the day named
    /// by `gnd`, on this value's leap-second timeline.
    fn to_second_instant(&self, gnd: &GregorianNormalizedDate, second: u32) -> (r: InstantS64)
        requires
            self.wf(),
            gnd.wf(),
            second <= 2 * MAX_SECOND_OF_DAY,
        ensures
            r@ == instant_of_day_second(self.segs(), gnd.to_day_spec(), second as int),
    {
        proof {
            lemma_to_day_from_day(*gnd);
        }
        let leap_second_chronology = self.chronology.leap_seconds();
        let day: i32 = gnd.to_day();
        if leap_second_chronology.0.len() == 0 {
            return Instant::from_ticks_since_epoch(
                day as i64 * crate::zoneinfo::SECONDS_PER_DAY_I64 + second as i64,
            );
        }
        let seconds_since_epoch: i64 = match leap_second_chronology.by_day(day as i64) {
            SegmentLookupResult::AfterLast(last_segment) => {
                let end_day: u32 = last_segment.end_day();
                let end_instant: InstantS64 = last_segment.end_instant();
                end_instant.ticks_since_epoch() + (day as i64 - end_day as i64)
                    * crate::zoneinfo::SECONDS_PER_DAY_I64 + second as i64
            },
            SegmentLookupResult::In(segment) => {
                proof {
                    let i = choose|i: int|
                        0 <= i < self.segs().len() && segment == self.segs()[i]
                            && segment.start_day <= day < segment.start_day
                            + segment.duration_days;
                    assert(self.segs()[i].wf());
                    lemma_adjustment_in_segment(self.segs(), i, day as int);
                }
                let days_into_segment: i64 = day as i64 - segment.start_day as i64;
                segment.start_instant.ticks_since_epoch() + days_into_segment
                    * crate::zoneinfo::SECONDS_PER_DAY_I64 + second as i64
            },
            SegmentLookupResult::BeforeFirst(first_segment) => {
                proof {
                    lemma_adjustment_before(self.segs(), day as int);
                    assert(self.segs()[0].wf());
                }
                let days_to_first: i64 = first_segment.start_day as i64 - day as i64 - 1;
                let seconds_to_first: i64 = days_to_first * crate::zoneinfo::SECONDS_PER_DAY_I64
                    + (crate::zoneinfo::SECONDS_PER_DAY_I64 - second as i64);
                first_segment.start_instant.ticks_since_epoch() - seconds_to_first
            },
        };
        Instant::from_ticks_since_epoch(seconds_since_epoch)
    }

    /// Day and second of an instant past the last segment: plain
    /// 86400-second days extend the timeline.
    fn fsi_after_last(
        instant: InstantS64,
        last_segment: ContinuousTimeSegment,
        Ghost(s): Ghost<Seq<ContinuousTimeSegment>>,
    ) -> (r: (i64, i64))
        requires
            segments_wf(s),
            s.len() > 0,
            last_segment == s[s.len() - 1],
            instant@ >= last_segment.end_instant_spec(),
            MIN_USEFUL_INSTANT < instant@ < MAX_USEFUL_INSTANT,
            MIN_USEFUL_INSTANT < instant@ < MAX_USEFUL_INSTANT,
            MIN_USEFUL_INSTANT < instant@ < MAX_USEFUL_INSTANT,
        ensures
            instant_of_day_second(s, r.0 as int, r.1 as int) == instant@,
            0 <= r.1 < day_length(s, r.0 as int),
            r.0 >= 0,
    {
        proof {
            assert(last_segment.wf());
        }
        let end_instant: InstantS64 = last_segment.end_instant();
        let seconds_past: i64 = instant.ticks_since_epoch() - end_instant.ticks_since_epoch();
        let (days, sec) = div_mod_floor(seconds_past, crate::zoneinfo::SECONDS_PER_DAY_I64);
        let d: i64 = last_segment.end_day() as i64 + days;
        proof {
            assert(leap_adjustment(s, d as int) == last_segment.accumulated_leap_seconds
                + last_segment.leap_seconds);
            lemma_leap_of_day_outside(s, d as int);
        }
        (d, sec)
    }

    /// Day and second of an instant inside a segment; the leap seconds of
    /// the segment's last day stay on that day as seconds past 86400.
    fn fsi_in_segment(
        instant: InstantS64,
        segment: ContinuousTimeSegment,
        Ghost(s): Ghost<Seq<ContinuousTimeSegment>>,
        Ghost(i): Ghost<int>,
    ) -> (r: (i64, i64))
        requires
            segments_wf(s),
            0 <= i < s.len(),
            segment == s[i],
            segment.start_instant@ <= instant@ < segment.end_instant_spec(),
            MIN_USEFUL_INSTANT < instant@ < MAX_USEFUL_INSTANT,
            MIN_USEFUL_INSTANT < instant@ < MAX_USEFUL_INSTANT,
            MIN_USEFUL_INSTANT < instant@ < MAX_USEFUL_INSTANT,
        ensures
            instant_of_day_second(s, r.0 as int, r.1 as int) == instant@,
            0 <= r.1 < day_length(s, r.0 as int),
            r.0 >= 0,
    {
        proof {
            assert(s[i].wf());
        }
        let seconds_into: i64 = instant.ticks_since_epoch()
            - segment.start_instant.ticks_since_epoch();
        let (days0, sec0) = div_mod_floor(seconds_into, crate::zoneinfo::SECONDS_PER_DAY_I64);
        let max_day: i64 = segment.duration_days as i64 - 1;
        let (days, sec): (i64, i64) = if days0 > max_day {
            // The leap seconds of the segment's last day pushed the
            // quotient one past it; keep the last day and let the second
            // run past 86400.
            proof {
                assert(days0 * 86400 <= seconds_into);
                assert(days0 <= segment.duration_days) by (nonlinear_arith)
                    requires
                        days0 * 86400 <= seconds_into,
                        seconds_into < segment.duration_days as int * 86400 + 127,
                        days0 > segment.duration_days as int - 1,
                ;
            }
            (max_day, sec0 + crate::zoneinfo::SECONDS_PER_DAY_I64)
        } else {
            (days0, sec0)
        };
        let d: i64 = segment.start_day as i64 + days;
        proof {
            lemma_adjustment_in_segment(s, i, d as int);
            lemma_leap_of_day_in_segment(s, i, d as int);
        }
        (d, sec)
    }

    /// Day and second of an instant before the first segment: plain
    /// 86400-second days extend the timeline backward.
    fn fsi_before_first(
        instant: InstantS64,
        first_segment: ContinuousTimeSegment,
        Ghost(s): Ghost<Seq<ContinuousTimeSegment>>,
    ) -> (r: (i64, i64))
        requires
            segments_wf(s),
            s.len() > 0,
            first_segment == s[0],
            instant@ < first_segment.start_instant@,
            MIN_USEFUL_INSTANT < instant@ < MAX_USEFUL_INSTANT,
            MIN_USEFUL_INSTANT < instant@ < MAX_USEFUL_INSTANT,
            MIN_USEFUL_INSTANT < instant@ < MAX_USEFUL_INSTANT,
        ensures
            instant_of_day_second(s, r.0 as int, r.1 as int) == instant@,
            0 <= r.1 < day_length(s, r.0 as int),
            r.0 < 0,
    {
        proof {
            assert(first_segment.wf());
            assert(first_segment.start_day == 0 && first_segment.accumulated_leap_seconds == 0);
        }
        let until: i64 = first_segment.start_instant.ticks_since_epoch()
            - instant.ticks_since_epoch();
        let (days0, rem) = div_mod_floor(until, crate::zoneinfo::SECONDS_PER_DAY_I64);
        let (days, sec): (i64, i64) = if rem != 0 {
            (days0 + 1, crate::zoneinfo::SECONDS_PER_DAY_I64 - rem)
        } else {
            (days0, 0)
        };
        let d: i64 = first_segment.start_day as i64 - days;
        proof {
            lemma_adjustment_before(s, d as int);
            lemma_leap_of_day_outside(s, d as int);
            if s.len() >= 2 {
                lemma_start_day_order(s, 0, s.len() - 1);
            }
        }
        (d, sec)
    }

    /// Builds the result of an instant decomposition: checks the range and
    /// assembles the normalized date.
    fn fsi_finish(
        fixed_day: i64,
        second: i64,
        Ghost(s): Ghost<Seq<ContinuousTimeSegment>>,
        Ghost(t): Ghost<int>,
    ) -> (r: Option<(GregorianNormalizedDate, u32)>)
        requires
            segments_wf(s),
            instant_of_day_second(s, fixed_day as int, second as int) == t,
            0 <= second < day_length(s, fixed_day as int),
        ensures
            ({
                let d = day_of_instant(s, t);
                &&& (r is Some <==> MIN_FIXED_DAY <= d <= MAX_FIXED_DAY)
                &&& r matches Some(p) ==> {
                    &&& p.0.wf()
                    &&& p.0.to_day_spec() == d
                    &&& p.1 == second_of_instant(s, t)
                    &&& 0 <= p.1 < day_length(s, d)
                }
            }),
    {
        proof {
            lemma_canonical_unique(s, fixed_day as int, second as int);
            lemma_leap_of_day_bounds(s, fixed_day as int);
        }
        if fixed_day < MIN_FIXED_DAY as i64 || fixed_day > MAX_FIXED_DAY as i64 {
            return None;
        }
        match GregorianNormalizedDate::from_day(fixed_day as i32) {
            Some(gnd) => Some((gnd, second as u32)),
            None => None,
        }
    }

    /// The normalized date and second-of-day at which an instant falls;
    /// `None` when that day lies outside the date-time range.
    fn from_second_instant(instant: InstantS64, chronology: &Chronology) -> (r: Option<
        (GregorianNormalizedDate, u32),
    >)
        requires
            chronology.wf(),
        ensures
            ({
                let s = chronology.segments();
                let d = day_of_instant(s, instant@);
                &&& (r is Some <==> MIN_FIXED_DAY <= d <= MAX_FIXED_DAY)
                &&& r matches Some(p) ==> {
                    &&& p.0.wf()
                    &&& p.0.to_day_spec() == d
                    &&& p.1 == second_of_instant(s, instant@)
                    &&& 0 <= p.1 < day_length(s, d)
                }
            }),
    {
        let ghost s = chronology.segments();
        let ghost t = instant@;
        if instant.ticks_since_epoch() >= MAX_USEFUL_INSTANT || instant.ticks_since_epoch()
            <= MIN_USEFUL_INSTANT {
            proof {
                lemma_far_instant_out_of_range(s, t);
            }
            return None;
        }
        let leap_second_chronology = chronology.leap_seconds();
        if leap_second_chronology.0.len() == 0 {
            let (q, m) = div_mod_floor(
                instant.ticks_since_epoch(),
                crate::zoneinfo::SECONDS_PER_DAY_I64,
            );
            proof {
                assert(leap_adjustment(s, q as int) == 0);
                assert(leap_of_day(s, q as int) == 0);
            }
            return Self::fsi_finish(q, m, Ghost(s), Ghost(t));
        }
        match leap_second_chronology.by_instant(instant) {
            SegmentLookupResult::AfterLast(last_segment) => {
                let (d, sec) = Self::fsi_after_last(instant, last_segment, Ghost(s));
                Self::fsi_finish(d, sec, Ghost(s), Ghost(t))
            },
            SegmentLookupResult::In(segment) => {
                let ghost i = choose|i: int|
                    0 <= i < s.len() && segment == s[i] && segment.start_instant@ <= t
                        < segment.end_instant_spec();
                let (d, sec) = Self::fsi_in_segment(instant, segment, Ghost(s), Ghost(i));
                Self::fsi_finish(d, sec, Ghost(s), Ghost(t))
            },
            SegmentLookupResult::BeforeFirst(first_segment) => {
                let (d, sec) = Self::fsi_before_first(instant, first_segment, Ghost(s));
                Self::fsi_finish(d, sec, Ghost(s), Ghost(t))
            },
        }
    }

    /// The date-time a number of seconds later on the leap-second
    /// timeline, or `None` when the result leaves the representable range.
    pub fn checked_add_seconds(&self, seconds: i64) -> (r: Option<DateTime>)
        requires
            self.wf(),
        ensures
            ({
                let t = self.instant_spec() + seconds;
                let s = self.segs();
                &&& (r is Some <==> (i64::MIN <= t <= i64::MAX && MIN_FIXED_DAY
                    <= day_of_instant(s, t) <= MAX_FIXED_DAY))
                &&& r matches Some(dt) ==> {
                    &&& dt.wf()
                    &&& dt.canonical()
                    &&& dt.chronology_spec() == self.chronology_spec()
                    &&& dt.precision_spec() == self.precision_spec()
                    &&& dt.nanosecond_spec() == self.nanosecond_spec()
                    &&& dt.instant_spec() == t
                    &&& dt.day_spec() == day_of_instant(s, t)
                    &&& dt.second_spec() == second_of_instant(s, t)
                }
            }),
    {
        let instant = self.to_second_instant(&self.gnd, self.second);
        let shifted = match instant.checked_add(Duration::new(seconds)) {
            Some(i) => i,
            None => {
                return None;
            },
        };
        proof {
            lemma_instant_inverse(self.segs(), shifted@);
            lemma_leap_of_day_bounds(self.segs(), day_of_instant(self.segs(), shifted@));
        }
        match Self::from_second_instant(shifted, &self.chronology) {
            Some((gnd, second)) => Some(
                DateTime {
                    precision: self.precision,
                    gnd,
                    second,
                    nanosecond: self.nanosecond,
                    chronology: self.chronology.clone(),
                },
            ),
            None => None,
        }
    }

    /// The date-time a number of seconds later; the result must stay in
    /// range.
    pub fn add_seconds(&self, seconds: i64) -> (r: DateTime)
        requires
            self.wf(),
            i64::MIN <= self.instant_spec() + seconds <= i64::MAX,
            MIN_FIXED_DAY <= day_of_instant(self.segs(), self.instant_spec() + seconds)
                <= MAX_FIXED_DAY,
        ensures
            ({
                let t = self.instant_spec() + seconds;
                &&& r.wf()
                &&& r.canonical()
                &&& r.chronology_spec() == self.chronology_spec()
                &&& r.precision_spec() == self.precision_spec()
                &&& r.nanosecond_spec() == self.nanosecond_spec()
                &&& r.instant_spec() == t
            }),
    {
        match self.checked_add_seconds(seconds) {
            Some(dt) => dt,
            None => vstd::pervasive::unreached(),
        }
    }
}


/// A date-time together with the day and second amounts a field-level
/// addition could not place in the wall-clock value itself.
#[derive(Debug, Clone)]
pub struct DateTimeWithCarry(DateTime, Carry);

impl DateTimeWithCarry {
    /// The clamped date-time.
    pub closed spec fn date_time_spec(self) -> DateTime {
        self.0
    }

    /// Days left over.
    pub closed spec fn days_carry_spec(self) -> int {
        self.1.days_spec()
    }

    /// Seconds left over.
    pub closed spec fn seconds_carry_spec(self) -> int {
        self.1.seconds_spec()
    }

    pub(super) fn with_days(date_time: DateTime, days: u32) -> (r: Self)
        ensures
            r.date_time_spec() == date_time,
            r.days_carry_spec() == days,
            r.seconds_carry_spec() == 0,
    {
        DateTimeWithCarry(date_time, Carry { days, seconds: 0 })
    }

    pub(super) fn with_seconds(date_time: DateTime, seconds: u64) -> (r: Self)
        ensures
            r.date_time_spec() == date_time,
            r.days_carry_spec() == 0,
            r.seconds_carry_spec() == seconds,
    {
        DateTimeWithCarry(date_time, Carry { days: 0, seconds })
    }

    /// Whether anything was left over.
    pub fn has_carry(&self) -> (r: bool)
        ensures
            r == (self.days_carry_spec() != 0 || self.seconds_carry_spec() != 0),
    {
        !self.1.is_zero()
    }

    /// Days left over.
    pub fn days_carry(&self) -> (r: u32)
        ensures
            r == self.days_carry_spec(),
    {
        self.1.days
    }

    /// Seconds left over.
    pub fn seconds_carry(&self) -> (r: u64)
        ensures
            r == self.seconds_carry_spec(),
    {
        self.1.seconds
    }

    /// The date-time, which must carry nothing.
    pub fn unwrap(self) -> (r: DateTime)
        requires
            self.days_carry_spec() == 0,
            self.seconds_carry_spec() == 0,
        ensures
            r == self.date_time_spec(),
    {
        self.0
    }

    /// The date-time, discarding whatever was left over.
    pub fn drop_carry(self) -> (r: DateTime)
        ensures
            r == self.date_time_spec(),
    {
        self.0
    }
}


impl DateTime {
    /// The date-time a number of years later: the calendar fields move, the
    /// time of day stays. A leap day landing in a year without one is
    /// clamped to February 28 with a day of carry; a second count past the
    /// new day's end is clamped with a carry of the excess seconds.
    pub fn checked_add_years(&self, years: i16) -> (r: Option<DateTimeWithCarry>)
        requires
            self.wf(),
        ensures
            ({
                let yg1 = self.gnd_spec().year_group() + years;
                let clamp = self.gnd_spec().day == 365 && !spec_is_leap_year(yg1 + 1);
                let day_in_year = if clamp {
                    364int
                } else {
                    self.gnd_spec().day as int
                };
                let d1 = march_year_start_day(yg1) + day_in_year;
                let sp = spilled(self.segs(), d1, self.second_spec());
                &&& (r is Some <==> MIN_FIXED_DAY <= d1 <= MAX_FIXED_DAY)
                &&& r matches Some(w) ==> {
                    let dt = w.date_time_spec();
                    &&& dt.wf()
                    &&& dt.gnd_spec().year_group() == yg1
                    &&& dt.gnd_spec().day == day_in_year
                    &&& dt.day_spec() == d1
                    &&& dt.second_spec() == sp.0
                    &&& w.seconds_carry_spec() == sp.1
                    &&& w.days_carry_spec() == if clamp {
                        1int
                    } else {
                        0int
                    }
                    &&& dt.precision_spec() == self.precision_spec()
                    &&& dt.nanosecond_spec() == self.nanosecond_spec()
                    &&& dt.chronology_spec() == self.chronology_spec()
                }
            }),
    {
        proof {
            lemma_in_range_year_bounds(self.gnd_spec());
        }
        let mut gnd = self.gnd;
        let day_carry = gnd.add_years(years);
        proof {
            lemma_normalized_leap_matches(
                gnd.cycle as int,
                gnd.century as int,
                gnd.quadrennium as int,
                gnd.year as int,
            );
            lemma_march_year_start(gnd);
        }
        if !is_in_range(&gnd) {
            return None;
        }
        let (second, seconds_carry) = self.spill_eod_second_overflow(&gnd, self.second);
        let result = DateTime {
            precision: self.precision,
            gnd,
            second,
            nanosecond: self.nanosecond,
            chronology: self.chronology.clone(),
        };
        Some(
            DateTimeWithCarry(
                result,
                Carry {
                    days: if day_carry {
                        1
                    } else {
                        0
                    },
                    seconds: seconds_carry as u64,
                },
            ),
        )
    }

    /// The date-time a number of years later; the result must stay in
    /// range.
    pub fn add_years(&self, years: i16) -> (r: DateTimeWithCarry)
        requires
            self.wf(),
            ({
                let yg1 = self.gnd_spec().year_group() + years;
                let clamp = self.gnd_spec().day == 365 && !spec_is_leap_year(yg1 + 1);
                let day_in_year = if clamp {
                    364int
                } else {
                    self.gnd_spec().day as int
                };
                MIN_FIXED_DAY <= march_year_start_day(yg1) + day_in_year <= MAX_FIXED_DAY
            }),
        ensures
            ({
                let yg1 = self.gnd_spec().year_group() + years;
                let clamp = self.gnd_spec().day == 365 && !spec_is_leap_year(yg1 + 1);
                let day_in_year = if clamp {
                    364int
                } else {
                    self.gnd_spec().day as int
                };
                let d1 = march_year_start_day(yg1) + day_in_year;
                let sp = spilled(self.segs(), d1, self.second_spec());
                let dt = r.date_time_spec();
                &&& dt.wf()
                &&& dt.gnd_spec().year_group() == yg1
                &&& dt.day_spec() == d1
                &&& dt.second_spec() == sp.0
                &&& r.seconds_carry_spec() == sp.1
                &&& r.days_carry_spec() == if clamp {
                    1int
                } else {
                    0int
                }
                &&& dt.precision_spec() == self.precision_spec()
                &&& dt.nanosecond_spec() == self.nanosecond_spec()
                &&& dt.chronology_spec() == self.chronology_spec()
            }),
    {
        match self.checked_add_years(years) {
            Some(w) => w,
            None => vstd::pervasive::unreached(),
        }
    }
}


impl DateTime {
    /// The date-time a number of days later, the time of day kept; a
    /// second count past the new day's end is clamped with a carry of the
    /// excess seconds.
    pub fn checked_add_days(&self, days: i32) -> (r: Option<DateTimeWithCarry>)
        requires
            self.wf(),
        ensures
            ({
                let d1 = self.day_spec() + days;
                let sp = spilled(self.segs(), d1, self.second_spec());
                &&& (r is Some <==> MIN_FIXED_DAY <= d1 <= MAX_FIXED_DAY)
                &&& r matches Some(w) ==> {
                    let dt = w.date_time_spec();
                    &&& dt.wf()
                    &&& dt.day_spec() == d1
                    &&& dt.second_spec() == sp.0
                    &&& w.seconds_carry_spec() == sp.1
                    &&& w.days_carry_spec() == 0
                    &&& dt.precision_spec() == self.precision_spec()
                    &&& dt.nanosecond_spec() == self.nanosecond_spec()
                    &&& dt.chronology_spec() == self.chronology_spec()
                }
            }),
    {
        let mut gnd = self.gnd;
        match gnd.add_days(days) {
            Ok(_) => {},
            Err(_) => {
                return None;
            },
        }
        if !is_in_range(&gnd) {
            return None;
        }
        let (second, seconds_carry) = self.spill_eod_second_overflow(&gnd, self.second);
        let result = DateTime {
            precision: self.precision,
            gnd,
            second,
            nanosecond: self.nanosecond,
            chronology: self.chronology.clone(),
        };
        Some(DateTimeWithCarry(result, Carry { days: 0, seconds: seconds_carry as u64 }))
    }

    /// The date-time a number of days later; the result must stay in
    /// range.
    pub fn add_days(&self, days: i32) -> (r: DateTimeWithCarry)
        requires
            self.wf(),
            MIN_FIXED_DAY <= self.day_spec() + days <= MAX_FIXED_DAY,
        ensures
            ({
                let d1 = self.day_spec() + days;
                let sp = spilled(self.segs(), d1, self.second_spec());
                let dt = r.date_time_spec();
                &&& dt.wf()
                &&& dt.day_spec() == d1
                &&& dt.second_spec() == sp.0
                &&& r.seconds_carry_spec() == sp.1
                &&& r.days_carry_spec() == 0
                &&& dt.precision_spec() == self.precision_spec()
                &&& dt.nanosecond_spec() == self.nanosecond_spec()
                &&& dt.chronology_spec() == self.chronology_spec()
            }),
    {
        match self.checked_add_days(days) {
            Some(w) => w,
            None => vstd::pervasive::unreached(),
        }
    }

    /// The date-time a number of months later, keeping the day of the
    /// month. A day of month missing from the new month is clamped to the
    /// month's last day, the difference carried as days; a second count
    /// past the new day's end is clamped with a carry of the excess.
    pub fn checked_add_months(&self, months: i32) -> (r: Option<DateTimeWithCarry>)
        requires
            self.wf(),
        ensures
            ({
                let m0 = month_of_year_day(self.gnd_spec().day as int);
                let din = self.gnd_spec().day - year_day_of_month(m0);
                let t = m0 + months;
                let yg1 = self.gnd_spec().year_group() + t / 12;
                let m1 = t % 12;
                let len = if m1 == 11 {
                    if spec_is_leap_year(yg1 + 1) {
                        29int
                    } else {
                        28int
                    }
                } else {
                    year_day_of_month(m1 + 1) - year_day_of_month(m1)
                };
                let dcarry = if din + 1 > len {
                    din + 1 - len
                } else {
                    0int
                };
                let day_in_year = year_day_of_month(m1) + din - dcarry;
                let d1 = march_year_start_day(yg1) + day_in_year;
                let sp = spilled(self.segs(), d1, self.second_spec());
                &&& (r is Some <==> MIN_FIXED_DAY <= d1 <= MAX_FIXED_DAY)
                &&& r matches Some(w) ==> {
                    let dt = w.date_time_spec();
                    &&& dt.wf()
                    &&& dt.gnd_spec().year_group() == yg1
                    &&& dt.gnd_spec().day == day_in_year
                    &&& dt.day_spec() == d1
                    &&& dt.second_spec() == sp.0
                    &&& w.seconds_carry_spec() == sp.1
                    &&& w.days_carry_spec() == dcarry
                    &&& dt.precision_spec() == self.precision_spec()
                    &&& dt.nanosecond_spec() == self.nanosecond_spec()
                    &&& dt.chronology_spec() == self.chronology_spec()
                }
            }),
    {
        proof {
            lemma_in_range_year_bounds(self.gnd_spec());
            lemma_month_of_year_day(self.gnd_spec().day as int);
        }
        if months > 200_000 || months < -200_000 {
            proof {
                let m0 = month_of_year_day(self.gnd_spec().day as int);
                let t = m0 + months;
                let yg1 = self.gnd_spec().year_group() + t / 12;
                vstd::arithmetic::div_mod::lemma_fundamental_div_mod(t, 12);
                vstd::arithmetic::div_mod::lemma_mod_bound(t, 12);
                lemma_march_year_bounds(yg1);
            }
            return None;
        }
        let mut gnd = self.gnd;
        let day_carry = gnd.add_months(months);
        proof {
            lemma_normalized_leap_matches(
                gnd.cycle as int,
                gnd.century as int,
                gnd.quadrennium as int,
                gnd.year as int,
            );
            lemma_march_year_start(gnd);
            lemma_month_of_year_day(gnd.day as int);
        }
        if !is_in_range(&gnd) {
            return None;
        }
        let (second, seconds_carry) = self.spill_eod_second_overflow(&gnd, self.second);
        let result = DateTime {
            precision: self.precision,
            gnd,
            second,
            nanosecond: self.nanosecond,
            chronology: self.chronology.clone(),
        };
        Some(
            DateTimeWithCarry(
                result,
                Carry { days: day_carry as u32, seconds: seconds_carry as u64 },
            ),
        )
    }

    /// The date-time a number of months later; the result must stay in
    /// range.
    pub fn add_months(&self, months: i32) -> (r: DateTimeWithCarry)
        requires
            self.wf(),
            ({
                let m0 = month_of_year_day(self.gnd_spec().day as int);
                let din = self.gnd_spec().day - year_day_of_month(m0);
                let t = m0 + months;
                let yg1 = self.gnd_spec().year_group() + t / 12;
                let m1 = t % 12;
                let len = if m1 == 11 {
                    if spec_is_leap_year(yg1 + 1) {
                        29int
                    } else {
                        28int
                    }
                } else {
                    year_day_of_month(m1 + 1) - year_day_of_month(m1)
                };
                let dcarry = if din + 1 > len {
                    din + 1 - len
                } else {
                    0int
                };
                let day_in_year = year_day_of_month(m1) + din - dcarry;
                MIN_FIXED_DAY <= march_year_start_day(yg1) + day_in_year <= MAX_FIXED_DAY
            }),
        ensures
            ({
                let m0 = month_of_year_day(self.gnd_spec().day as int);
                let din = self.gnd_spec().day - year_day_of_month(m0);
                let t = m0 + months;
                let yg1 = self.gnd_spec().year_group() + t / 12;
                let m1 = t % 12;
                let len = if m1 == 11 {
                    if spec_is_leap_year(yg1 + 1) {
                        29int
                    } else {
                        28int
                    }
                } else {
                    year_day_of_month(m1 + 1) - year_day_of_month(m1)
                };
                let dcarry = if din + 1 > len {
                    din + 1 - len
                } else {
                    0int
                };
                let day_in_year = year_day_of_month(m1) + din - dcarry;
                let d1 = march_year_start_day(yg1) + day_in_year;
                let sp = spilled(self.segs(), d1, self.second_spec());
                let dt = r.date_time_spec();
                &&& dt.wf()
                &&& dt.gnd_spec().year_group() == yg1
                &&& dt.day_spec() == d1
                &&& dt.second_spec() == sp.0
                &&& r.seconds_carry_spec() == sp.1
                &&& r.days_carry_spec() == dcarry
                &&& dt.precision_spec() == self.precision_spec()
                &&& dt.nanosecond_spec() == self.nanosecond_spec()
                &&& dt.chronology_spec() == self.chronology_spec()
            }),
    {
        match self.checked_add_months(months) {
            Some(w) => w,
            None => vstd::pervasive::unreached(),
        }
    }
}


impl DateTime {
    /// The date-time a number of minutes later. Minutes are counted on the
    /// wall clock: the day is split into 1440 minutes, the count moves
    /// across days, and leap seconds surface only when the resulting
    /// minute is the final minute of a segment's final day. A second of
    /// minute that no longer fits is clamped with a carry of the excess.
    pub fn checked_add_minutes(&self, minutes: i64) -> (r: Option<DateTimeWithCarry>)
        requires
            self.wf(),
        ensures
            ({
                let s_of_day = self.second_spec();
                let minute0 = if s_of_day / 60 <= 1439 {
                    s_of_day / 60
                } else {
                    1439int
                };
                let som = s_of_day - 60 * minute0;
                let day_delta = (minute0 + minutes) / 1440;
                let minute1 = (minute0 + minutes) % 1440;
                let d1 = self.day_spec() + day_delta;
                &&& (r is Some <==> MIN_FIXED_DAY <= d1 <= MAX_FIXED_DAY)
                &&& r matches Some(w) ==> {
                    let dt = w.date_time_spec();
                    &&& dt.wf()
                    &&& dt.day_spec() == d1
                    &&& w.days_carry_spec() == 0
                    &&& (if minute1 < 1439 {
                        if som < 60 {
                            dt.second_spec() == minute1 * 60 + som && w.seconds_carry_spec()
                                == 0
                        } else {
                            dt.second_spec() == minute1 * 60 + 59 && w.seconds_carry_spec()
                                == som - 59
                        }
                    } else {
                        let sp = spilled(self.segs(), d1, 86340 + som);
                        dt.second_spec() == sp.0 && w.seconds_carry_spec() == sp.1
                    })
                    &&& dt.precision_spec() == self.precision_spec()
                    &&& dt.nanosecond_spec() == self.nanosecond_spec()
                    &&& dt.chronology_spec() == self.chronology_spec()
                }
            }),
    {
        let (minute0, som) = clamped_div_rem(
            self.second as i64,
            crate::iso8601::SECONDS_PER_MINUTE as i64,
            crate::iso8601::MINUTES_PER_DAY as i64 - 1,
        );
        if minutes > 6_000_000_000 || minutes < -6_000_000_000 {
            proof {
                let t = minute0 + minutes;
                vstd::arithmetic::div_mod::lemma_fundamental_div_mod(t as int, 1440);
                vstd::arithmetic::div_mod::lemma_mod_bound(t as int, 1440);
            }
            return None;
        }
        let (day_delta, minute1) = div_mod_floor(
            minute0 + minutes,
            crate::iso8601::MINUTES_PER_DAY as i64,
        );
        if day_delta < i32::MIN as i64 || day_delta > i32::MAX as i64 {
            return None;
        }
        let mut gnd = self.gnd;
        match gnd.add_days(day_delta as i32) {
            Ok(_) => {},
            Err(_) => {
                return None;
            },
        }
        if !is_in_range(&gnd) {
            return None;
        }
        let (seconds_into_day, seconds_carry): (u32, u32) = if minute1
            < crate::iso8601::MINUTES_PER_DAY as i64 - 1 {
            // Not the last minute of the day: it is exactly 60 seconds
            // long.
            if som < crate::iso8601::SECONDS_PER_MINUTE as i64 {
                ((minute1 * 60 + som) as u32, 0)
            } else {
                ((minute1 * 60 + 59) as u32, (som - 59) as u32)
            }
        } else {
            let seconds_into_day: u32 = (minute1 * 60 + som) as u32;
            self.spill_eod_second_overflow(&gnd, seconds_into_day)
        };
        let result = DateTime {
            precision: self.precision,
            gnd,
            second: seconds_into_day,
            nanosecond: self.nanosecond,
            chronology: self.chronology.clone(),
        };
        Some(
            DateTimeWithCarry(result, Carry { days: 0, seconds: seconds_carry as u64 }),
        )
    }

    /// The date-time a number of minutes later; the result must stay in
    /// range.
    pub fn add_minutes(&self, minutes: i64) -> (r: DateTimeWithCarry)
        requires
            self.wf(),
            ({
                let s_of_day = self.second_spec();
                let minute0 = if s_of_day / 60 <= 1439 {
                    s_of_day / 60
                } else {
                    1439int
                };
                MIN_FIXED_DAY <= self.day_spec() + (minute0 + minutes) / 1440 <= MAX_FIXED_DAY
            }),
        ensures
            ({
                let s_of_day = self.second_spec();
                let minute0 = if s_of_day / 60 <= 1439 {
                    s_of_day / 60
                } else {
                    1439int
                };
                let som = s_of_day - 60 * minute0;
                let day_delta = (minute0 + minutes) / 1440;
                let minute1 = (minute0 + minutes) % 1440;
                let d1 = self.day_spec() + day_delta;
                let dt = r.date_time_spec();
                &&& dt.wf()
                &&& dt.day_spec() == d1
                &&& r.days_carry_spec() == 0
                &&& (if minute1 < 1439 {
                    if som < 60 {
                        dt.second_spec() == minute1 * 60 + som && r.seconds_carry_spec() == 0
                    } else {
                        dt.second_spec() == minute1 * 60 + 59 && r.seconds_carry_spec() == som
                            - 59
                    }
                } else {
                    let sp = spilled(self.segs(), d1, 86340 + som);
                    dt.second_spec() == sp.0 && r.seconds_carry_spec() == sp.1
                })
                &&& dt.precision_spec() == self.precision_spec()
                &&& dt.nanosecond_spec() == self.nanosecond_spec()
                &&& dt.chronology_spec() == self.chronology_spec()
            }),
    {
        match self.checked_add_minutes(minutes) {
            Some(w) => w,
            None => vstd::pervasive::unreached(),
        }
    }

    /// The date-time a number of hours later: sixty minutes to the hour.
    pub fn checked_add_hours(&self, hours: i32) -> (r: Option<DateTimeWithCarry>)
        requires
            self.wf(),
        ensures
            ({
                let minutes = hours * 60;
                let s_of_day = self.second_spec();
                let minute0 = if s_of_day / 60 <= 1439 {
                    s_of_day / 60
                } else {
                    1439int
                };
                let som = s_of_day - 60 * minute0;
                let day_delta = (minute0 + minutes) / 1440;
                let minute1 = (minute0 + minutes) % 1440;
                let d1 = self.day_spec() + day_delta;
                &&& (r is Some <==> MIN_FIXED_DAY <= d1 <= MAX_FIXED_DAY)
                &&& r matches Some(w) ==> {
                    let dt = w.date_time_spec();
                    &&& dt.wf()
                    &&& dt.day_spec() == d1
                    &&& w.days_carry_spec() == 0
                    &&& (if minute1 < 1439 {
                        if som < 60 {
                            dt.second_spec() == minute1 * 60 + som && w.seconds_carry_spec()
                                == 0
                        } else {
                            dt.second_spec() == minute1 * 60 + 59 && w.seconds_carry_spec()
                                == som - 59
                        }
                    } else {
                        let sp = spilled(self.segs(), d1, 86340 + som);
                        dt.second_spec() == sp.0 && w.seconds_carry_spec() == sp.1
                    })
                    &&& dt.precision_spec() == self.precision_spec()
                    &&& dt.nanosecond_spec() == self.nanosecond_spec()
                    &&& dt.chronology_spec() == self.chronology_spec()
                }
            }),
    {
        self.checked_add_minutes(hours as i64 * crate::iso8601::MINUTES_PER_HOUR as i64)
    }

    /// The date-time a number of hours later; the result must stay in
    /// range.
    pub fn add_hours(&self, hours: i32) -> (r: DateTimeWithCarry)
        requires
            self.wf(),
            ({
                let s_of_day = self.second_spec();
                let minute0 = if s_of_day / 60 <= 1439 {
                    s_of_day / 60
                } else {
                    1439int
                };
                MIN_FIXED_DAY <= self.day_spec() + (minute0 + hours * 60) / 1440
                    <= MAX_FIXED_DAY
            }),
        ensures
            r.date_time_spec().wf(),
            r.date_time_spec().precision_spec() == self.precision_spec(),
            r.date_time_spec().nanosecond_spec() == self.nanosecond_spec(),
            r.date_time_spec().chronology_spec() == self.chronology_spec(),
            ({
                let minutes = hours * 60;
                let s_of_day = self.second_spec();
                let minute0 = if s_of_day / 60 <= 1439 {
                    s_of_day / 60
                } else {
                    1439int
                };
                let som = s_of_day - 60 * minute0;
                let day_delta = (minute0 + minutes) / 1440;
                let minute1 = (minute0 + minutes) % 1440;
                let d1 = self.day_spec() + day_delta;
                let dt = r.date_time_spec();
                &&& dt.day_spec() == d1
                &&& r.days_carry_spec() == 0
                &&& (if minute1 < 1439 {
                    if som < 60 {
                        dt.second_spec() == minute1 * 60 + som && r.seconds_carry_spec() == 0
                    } else {
                        dt.second_spec() == minute1 * 60 + 59 && r.seconds_carry_spec() == som
                            - 59
                    }
                } else {
                    let sp = spilled(self.segs(), d1, 86340 + som);
                    dt.second_spec() == sp.0 && r.seconds_carry_spec() == sp.1
                })
            }),
    {
        match self.checked_add_hours(hours) {
            Some(w) => w,
            None => vstd::pervasive::unreached(),
        }
    }
}


impl DateTimeWithCarry {
    /// Re-injects the carry into the date-time: the days are added first
    /// (any end-of-day overflow joining the seconds), then the seconds.
    pub fn checked_apply_carry(&self) -> (r: Option<DateTime>)
        requires
            self.date_time_spec().wf(),
        ensures
            ({
                let dt0 = self.date_time_spec();
                let d1 = dt0.day_spec() + self.days_carry_spec();
                let sp = spilled(dt0.segs(), d1, dt0.second_spec());
                let delta = self.seconds_carry_spec() + sp.1;
                let t = instant_of_day_second(dt0.segs(), d1, sp.0) + delta;
                &&& (r is Some <==> {
                    &&& MIN_FIXED_DAY <= d1 <= MAX_FIXED_DAY
                    &&& delta <= i64::MAX
                    &&& i64::MIN <= t <= i64::MAX
                    &&& MIN_FIXED_DAY <= day_of_instant(dt0.segs(), t) <= MAX_FIXED_DAY
                })
                &&& r matches Some(dt) ==> {
                    &&& dt.wf()
                    &&& dt.canonical()
                    &&& dt.instant_spec() == t
                    &&& dt.precision_spec() == dt0.precision_spec()
                    &&& dt.nanosecond_spec() == dt0.nanosecond_spec()
                    &&& dt.chronology_spec() == dt0.chronology_spec()
                }
            }),
    {
        if self.1.days > i32::MAX as u32 {
            return None;
        }
        let with_days = match self.0.checked_add_days(self.1.days as i32) {
            Some(w) => w,
            None => {
                return None;
            },
        };
        let day_overflow: u64 = with_days.seconds_carry();
        let total_seconds: u64 = match self.1.seconds.checked_add(day_overflow) {
            Some(t) => t,
            None => {
                return None;
            },
        };
        if total_seconds > i64::MAX as u64 {
            return None;
        }
        with_days.drop_carry().checked_add_seconds(total_seconds as i64)
    }

    /// Re-injects the carry; the result must stay in range.
    pub fn apply_carry(&self) -> (r: DateTime)
        requires
            self.date_time_spec().wf(),
            ({
                let dt0 = self.date_time_spec();
                let d1 = dt0.day_spec() + self.days_carry_spec();
                let sp = spilled(dt0.segs(), d1, dt0.second_spec());
                let delta = self.seconds_carry_spec() + sp.1;
                let t = instant_of_day_second(dt0.segs(), d1, sp.0) + delta;
                &&& MIN_FIXED_DAY <= d1 <= MAX_FIXED_DAY
                &&& delta <= i64::MAX
                &&& i64::MIN <= t <= i64::MAX
                &&& MIN_FIXED_DAY <= day_of_instant(dt0.segs(), t) <= MAX_FIXED_DAY
            }),
        ensures
            ({
                let dt0 = self.date_time_spec();
                let d1 = dt0.day_spec() + self.days_carry_spec();
                let sp = spilled(dt0.segs(), d1, dt0.second_spec());
                let t = instant_of_day_second(dt0.segs(), d1, sp.0) + self.seconds_carry_spec()
                    + sp.1;
                &&& r.wf()
                &&& r.canonical()
                &&& r.instant_spec() == t
                &&& r.precision_spec() == dt0.precision_spec()
                &&& r.nanosecond_spec() == dt0.nanosecond_spec()
                &&& r.chronology_spec() == dt0.chronology_spec()
            }),
    {
        match self.checked_apply_carry() {
            Some(dt) => dt,
            None => vstd::pervasive::unreached(),
        }
    }
}


/// Adding seconds twice is adding their sum: from one start, the value
/// reached through `d1` and then `d2` seconds equals the one reached
/// through `d1 + d2` seconds at once. The premises are exactly what
/// `checked_add_seconds` ensures of its inputs and results.
pub proof fn lemma_add_seconds_associative(
    a: DateTime,
    b: DateTime,
    c1: DateTime,
    c2: DateTime,
    d1: int,
    d2: int,
)
    requires
        a.wf(),
        b.wf(),
        c1.wf(),
        c2.wf(),
        c1.canonical(),
        c2.canonical(),
        b.chronology_spec() == a.chronology_spec(),
        c1.chronology_spec() == b.chronology_spec(),
        c2.chronology_spec() == a.chronology_spec(),
        c1.precision_spec() == b.precision_spec(),
        b.precision_spec() == a.precision_spec(),
        c2.precision_spec() == a.precision_spec(),
        c1.nanosecond_spec() == b.nanosecond_spec(),
        b.nanosecond_spec() == a.nanosecond_spec(),
        c2.nanosecond_spec() == a.nanosecond_spec(),
        b.instant_spec() == a.instant_spec() + d1,
        c1.instant_spec() == b.instant_spec() + d2,
        c2.instant_spec() == a.instant_spec() + d1 + d2,
    ensures
        c1 == c2,
{
    lemma_instant_order(
        c1.segs(),
        c1.day_spec(),
        c1.second_spec(),
        c2.day_spec(),
        c2.second_spec(),
    );
    lemma_to_day_injective(c1.gnd_spec(), c2.gnd_spec());
}

/// The order of two date-times on the leap-second timeline agrees with the
/// lexicographic order of their wall-clock (fixed day, second-of-day)
/// positions, with no exceptions, as long as both are in the canonical
/// form that second-level arithmetic produces.
pub proof fn lemma_instant_order_matches_wall_clock(a: DateTime, b: DateTime)
    requires
        a.wf(),
        b.wf(),
        a.canonical(),
        b.canonical(),
        a.chronology_spec() == b.chronology_spec(),
    ensures
        (a.instant_spec() < b.instant_spec()) <==> (a.day_spec() < b.day_spec() || (a.day_spec()
            == b.day_spec() && a.second_spec() < b.second_spec())),
        (a.instant_spec() == b.instant_spec()) <==> (a.day_spec() == b.day_spec()
            && a.second_spec() == b.second_spec()),
{
    lemma_instant_order(a.segs(), a.day_spec(), a.second_spec(), b.day_spec(), b.second_spec());
}

/// Only the second-of-day count 86400 reads as 23:59:60 on the wall
/// clock.
pub proof fn lemma_sixty_reading_unique(sec: int)
    requires
        0 <= sec <= MAX_SECOND_OF_DAY + 86400,
    ensures
        (spec_hour_of(sec) == 23 && spec_minute_of(sec) == 59 && spec_second_of(sec) == 60)
            <==> sec == 86400,
{
}

/// Around a segment that inserts one leap second: its final day is 86401
/// seconds long, so second-of-day 86400 - read as 23:59:60 - is a
/// representable position there; one second after 23:59:59 comes
/// 23:59:60, and one second after that, 00:00:00 of the next day.
pub proof fn lemma_leap_second_reading(s: Seq<ContinuousTimeSegment>, i: int)
    requires
        segments_wf(s),
        0 <= i < s.len(),
        s[i].leap_seconds == 1,
    ensures
        ({
            let d = s[i].end_day_spec() - 1;
            &&& day_length(s, d) == 86401
            &&& instant_of_day_second(s, d, 86400) == instant_of_day_second(s, d, 86399) + 1
            &&& instant_of_day_second(s, d + 1, 0) == instant_of_day_second(s, d, 86400) + 1
        }),
{
    let d = s[i].end_day_spec() - 1;
    assert(s[i].wf());
    lemma_leap_of_day_in_segment(s, i, d);
    lemma_adjustment_step(s, d);
}


/// The order of two canonical date-times on the leap-second timeline is
/// the lexicographic order of their calendar fields: year, month, day,
/// then second-of-day. Values carrying a leap second sort between the
/// ordinary second before them and the midnight after them.
pub proof fn lemma_instant_order_matches_calendar(a: DateTime, b: DateTime)
    requires
        a.wf(),
        b.wf(),
        a.canonical(),
        b.canonical(),
        a.chronology_spec() == b.chronology_spec(),
    ensures
        (a.instant_spec() < b.instant_spec()) <==> (date_lex_lt(
            a.gnd_spec().to_date_spec(),
            b.gnd_spec().to_date_spec(),
        ) || (a.gnd_spec().to_date_spec() == b.gnd_spec().to_date_spec() && a.second_spec()
            < b.second_spec())),
{
    lemma_instant_order(a.segs(), a.day_spec(), a.second_spec(), b.day_spec(), b.second_spec());
    lemma_date_order(a.gnd_spec(), b.gnd_spec());
    lemma_date_order(b.gnd_spec(), a.gnd_spec());
    if a.gnd_spec().to_date_spec() == b.gnd_spec().to_date_spec() {
        assert(a.day_spec() == b.day_spec());
    }
}

} // verus!
