//! Leap-second segments: maximal stretches of wall-clock time between
//! consecutive leap-second insertions, and lookups over them.
//!
//! All IANA time zones are based on UTC and IERS publishes a single
//! leap-second table, so one segment sequence serves every zone. A segment
//! sequence is derived from that table; the first segment starts at the Unix
//! epoch, each later one where its predecessor ends.
use vstd::prelude::*;
use vstd::arithmetic::div_mod::lemma_fundamental_div_mod;
use vstd::arithmetic::div_mod::lemma_mod_bound;
use std::sync::Arc;
use crate::instant::Instant;
use crate::scale::Scale;
use crate::scale::Seconds;

verus! {

/// One record of a leap-second table.
#[derive(Debug, PartialEq, Eq, Structural, Copy, Clone)]
pub struct LeapSecond {
    /// Unix timestamp at which a leap second occurs. NB: Unix timestamps
    /// assume days of 86400 seconds and do not include leap seconds.
    pub unix_timestamp: i64,
    /// Total number of leap seconds added up to and including this one.
    pub leap_second_count: i32,
}

/// A segment of time that ends with a leap-second adjustment on its last day.
#[derive(Debug, Copy, Clone)]
pub struct ContinuousTimeSegment {
    /// Instant at which this segment starts, leap seconds included.
    pub start_instant: Instant<Seconds>,
    /// Number of days since the Unix epoch that this segment starts on.
    pub start_day: u32,
    /// Total length of this segment in days.
    pub duration_days: u32,
    /// Number of leap seconds added to UTC at the end of this segment; a
    /// negative value makes the last day shorter than 86400 seconds.
    pub leap_seconds: i8,
    /// Leap seconds accumulated before the beginning of this segment.
    pub accumulated_leap_seconds: i32,
}

pub const SECONDS_PER_DAY_I64: i64 = 86_400;

impl ContinuousTimeSegment {
    /// First day after this segment.
    pub open spec fn end_day_spec(self) -> int {
        self.start_day + self.duration_days
    }

    /// First instant after this segment: its days plus its leap seconds.
    pub open spec fn end_instant_spec(self) -> int {
        self.start_instant@ + 86400 * self.duration_days + self.leap_seconds
    }

    /// A segment covers at least a day, ends within the day range, and its
    /// start instant agrees with its start day and the leap seconds before.
    pub open spec fn wf(self) -> bool {
        &&& self.duration_days >= 1
        &&& self.start_day + self.duration_days <= u32::MAX
        &&& self.start_instant@ == self.start_day * 86400 + self.accumulated_leap_seconds
    }

    /// First day after this segment.
    pub fn end_day(&self) -> (r: u32)
        requires
            self.wf(),
        ensures
            r == self.end_day_spec(),
    {
        self.start_day + self.duration_days
    }

    /// First instant after this segment.
    pub fn end_instant(&self) -> (r: Instant<Seconds>)
        requires
            self.wf(),
        ensures
            r@ == self.end_instant_spec(),
    {
        Instant::from_ticks_since_epoch(
            self.start_instant.ticks_since_epoch() + SECONDS_PER_DAY_I64
                * self.duration_days as i64 + self.leap_seconds as i64,
        )
    }
}

/// Segments are well formed, contiguous in days, start at the epoch, and
/// carry running leap-second totals.
pub open spec fn segments_wf(s: Seq<ContinuousTimeSegment>) -> bool {
    &&& (forall|i: int| 0 <= i < s.len() ==> (#[trigger] s[i]).wf())
    &&& (s.len() > 0 ==> s[0].start_day == 0 && s[0].accumulated_leap_seconds == 0)
    &&& (forall|i: int|
        1 <= i < s.len() ==> (#[trigger] s[i]).start_day == s[i - 1].start_day + s[i
            - 1].duration_days)
    &&& (forall|i: int|
        1 <= i < s.len() ==> (#[trigger] s[i]).accumulated_leap_seconds == s[i
            - 1].accumulated_leap_seconds + s[i - 1].leap_seconds)
}

/// Total leap seconds inserted before the start of a fixed day: the running
/// total of every segment that ends on or before it.
pub open spec fn leap_adjustment(s: Seq<ContinuousTimeSegment>, day: int) -> int
    decreases s.len(),
{
    if s.len() == 0 {
        0
    } else {
        let last = s[s.len() - 1];
        if day >= last.start_day + last.duration_days {
            last.accumulated_leap_seconds + last.leap_seconds
        } else if day >= last.start_day {
            last.accumulated_leap_seconds as int
        } else {
            leap_adjustment(s.drop_last(), day)
        }
    }
}

/// Leap seconds inserted at the end of a fixed day: the leap count of the
/// segment whose final day it is, and zero for every other day.
pub open spec fn leap_of_day(s: Seq<ContinuousTimeSegment>, day: int) -> int
    decreases s.len(),
{
    if s.len() == 0 {
        0
    } else {
        let last = s[s.len() - 1];
        if day == last.start_day + last.duration_days - 1 {
            last.leap_seconds as int
        } else if day >= last.start_day {
            0
        } else {
            leap_of_day(s.drop_last(), day)
        }
    }
}

/// Seconds-since-epoch of second `second` of fixed day `day`, leap seconds
/// included: the Unix arithmetic plus the leap seconds inserted before the
/// day.
pub open spec fn instant_of_day_second(s: Seq<ContinuousTimeSegment>, day: int, second: int) -> int {
    day * 86400 + second + leap_adjustment(s, day)
}

/// Number of seconds in a fixed day.
pub open spec fn day_length(s: Seq<ContinuousTimeSegment>, day: int) -> int {
    86400 + leap_of_day(s, day)
}

/// Whether some segment's day span contains the given fixed day.
pub open spec fn day_in_segments(s: Seq<ContinuousTimeSegment>, d: int) -> bool {
    exists|i: int|
        0 <= i < s.len() && (#[trigger] s[i]).start_day <= d < s[i].start_day
            + s[i].duration_days
}

/// The second-of-day and excess that remain after clamping a second count
/// to the true length of a day. Days that no segment covers are never
/// clamped: no leap-second table governs them.
pub open spec fn spilled(s: Seq<ContinuousTimeSegment>, d: int, second: int) -> (int, int) {
    if day_in_segments(s, d) {
        let len = day_length(s, d);
        if second >= len {
            (len, second - len)
        } else {
            (second, 0)
        }
    } else {
        (second, 0)
    }
}

/// Dropping the last segment keeps the sequence well formed.
pub proof fn lemma_segments_wf_prefix(s: Seq<ContinuousTimeSegment>)
    requires
        segments_wf(s),
        s.len() > 0,
    ensures
        segments_wf(s.drop_last()),
{
    let p = s.drop_last();
    assert forall|i: int| 0 <= i < p.len() implies (#[trigger] p[i]).wf() by {
        assert(p[i] == s[i]);
    }
    assert forall|i: int| 1 <= i < p.len() implies (#[trigger] p[i]).start_day == p[i
        - 1].start_day + p[i - 1].duration_days by {
        assert(p[i] == s[i] && p[i - 1] == s[i - 1]);
    }
    assert forall|i: int| 1 <= i < p.len() implies (#[trigger] p[i]).accumulated_leap_seconds
        == p[i - 1].accumulated_leap_seconds + p[i - 1].leap_seconds by {
        assert(p[i] == s[i] && p[i - 1] == s[i - 1]);
    }
}

/// Start days increase along the sequence; a later segment starts no earlier
/// than the end of an earlier one.
pub proof fn lemma_start_day_order(s: Seq<ContinuousTimeSegment>, i: int, j: int)
    requires
        segments_wf(s),
        0 <= i < j < s.len(),
    ensures
        s[i].start_day + s[i].duration_days <= s[j].start_day,
    decreases j - i,
{
    if j == i + 1 {
    } else {
        lemma_start_day_order(s, i, j - 1);
        assert(s[j - 1].wf());
    }
}

/// The leap seconds accumulated before a day inside a segment are that
/// segment's accumulated count.
pub proof fn lemma_adjustment_in_segment(s: Seq<ContinuousTimeSegment>, i: int, day: int)
    requires
        segments_wf(s),
        0 <= i < s.len(),
        s[i].start_day <= day < s[i].start_day + s[i].duration_days,
    ensures
        leap_adjustment(s, day) == s[i].accumulated_leap_seconds,
    decreases s.len(),
{
    if i == s.len() - 1 {
    } else {
        lemma_start_day_order(s, i, s.len() - 1);
        lemma_segments_wf_prefix(s);
        lemma_adjustment_in_segment(s.drop_last(), i, day);
    }
}

/// Before the first segment no leap seconds have accumulated.
pub proof fn lemma_adjustment_before(s: Seq<ContinuousTimeSegment>, day: int)
    requires
        segments_wf(s),
        s.len() == 0 || day < s[0].start_day,
    ensures
        leap_adjustment(s, day) == 0,
    decreases s.len(),
{
    if s.len() > 0 {
        lemma_segments_wf_prefix(s);
        if s.len() == 1 {
            assert(s.drop_last().len() == 0);
            assert(leap_adjustment(s.drop_last(), day) == 0);
        } else {
            lemma_start_day_order(s, 0, s.len() - 1);
            lemma_adjustment_before(s.drop_last(), day);
        }
    }
}

/// The accumulated counts and per-day leap counts agree: moving to the next
/// day adds exactly the leap seconds inserted at the end of the current day.
pub proof fn lemma_adjustment_step(s: Seq<ContinuousTimeSegment>, day: int)
    requires
        segments_wf(s),
    ensures
        leap_adjustment(s, day + 1) == leap_adjustment(s, day) + leap_of_day(s, day),
    decreases s.len(),
{
    if s.len() > 0 {
        let last = s[s.len() - 1];
        assert(last.wf());
        if day < last.start_day {
            lemma_segments_wf_prefix(s);
            lemma_adjustment_step(s.drop_last(), day);
            if day + 1 >= last.start_day {
                // day + 1 == last.start_day: the previous segment ends here.
                if s.len() == 1 {
                    lemma_adjustment_before(s.drop_last(), day);
                } else {
                    let prev = s[s.len() - 2];
                    assert(prev.wf());
                    assert(s.drop_last()[s.len() - 2] == prev);
                    lemma_segments_wf_prefix(s);
                }
            }
        }
    }
}

/// The leap count of any day is small: it fits the segment's own i8 field.
pub proof fn lemma_leap_of_day_bounds(s: Seq<ContinuousTimeSegment>, day: int)
    requires
        segments_wf(s),
    ensures
        -128 <= leap_of_day(s, day) <= 127,
    decreases s.len(),
{
    if s.len() > 0 {
        lemma_segments_wf_prefix(s);
        lemma_leap_of_day_bounds(s.drop_last(), day);
    }
}

/// The accumulated adjustment of any day is bounded by the i32 fields that
/// carry the running totals.
pub proof fn lemma_adjustment_bounds(s: Seq<ContinuousTimeSegment>, day: int)
    requires
        segments_wf(s),
    ensures
        i32::MIN - 128 <= leap_adjustment(s, day) <= i32::MAX + 127,
    decreases s.len(),
{
    if s.len() > 0 {
        lemma_segments_wf_prefix(s);
        lemma_adjustment_bounds(s.drop_last(), day);
    }
}


/// Instants grow with days: each day adds its full length.
pub proof fn lemma_instant_day_mono(s: Seq<ContinuousTimeSegment>, a: int, b: int)
    requires
        segments_wf(s),
        a <= b,
    ensures
        instant_of_day_second(s, a, 0) <= instant_of_day_second(s, b, 0),
        a < b ==> instant_of_day_second(s, a, 0) + day_length(s, a) <= instant_of_day_second(
            s,
            b,
            0,
        ),
    decreases b - a,
{
    if a < b {
        lemma_adjustment_step(s, a);
        lemma_leap_of_day_bounds(s, a);
        lemma_instant_day_mono(s, a + 1, b);
        lemma_leap_of_day_bounds(s, a + 1);
    }
}

/// Instant order agrees with the order of (day, second-of-day) pairs, as
/// long as each second lies within its day's true length.
pub proof fn lemma_instant_order(
    s: Seq<ContinuousTimeSegment>,
    d1: int,
    s1: int,
    d2: int,
    s2: int,
)
    requires
        segments_wf(s),
        0 <= s1 < day_length(s, d1),
        0 <= s2 < day_length(s, d2),
    ensures
        (instant_of_day_second(s, d1, s1) < instant_of_day_second(s, d2, s2)) <==> (d1 < d2 || (d1
            == d2 && s1 < s2)),
        (instant_of_day_second(s, d1, s1) == instant_of_day_second(s, d2, s2)) <==> (d1 == d2 && s1
            == s2),
{
    if d1 < d2 {
        lemma_instant_day_mono(s, d1, d2);
    } else if d2 < d1 {
        lemma_instant_day_mono(s, d2, d1);
    }
}

/// A three-way lookup result: the day or instant lies before all segments,
/// inside one, or after them all; the carried segment is the first, the
/// containing one, or the last, respectively.
pub enum SegmentLookupResult {
    BeforeFirst(ContinuousTimeSegment),
    In(ContinuousTimeSegment),
    AfterLast(ContinuousTimeSegment),
}

/// The ordered segment sequence derived from a leap-second table, behind a
/// shared-ownership handle: clones share one allocation.
#[derive(Debug)]
pub struct LeapSecondChronology(pub Arc<Vec<ContinuousTimeSegment>>);

impl Clone for LeapSecondChronology {
    fn clone(&self) -> (r: Self)
        ensures
            r == *self,
    {
        LeapSecondChronology(crate::clone_arc_vec(&self.0))
    }
}

impl View for LeapSecondChronology {
    type V = Seq<ContinuousTimeSegment>;

    open spec fn view(&self) -> Seq<ContinuousTimeSegment> {
        self.0@
    }
}

impl LeapSecondChronology {
    /// The segment sequence is well formed.
    pub open spec fn wf(self) -> bool {
        segments_wf(self@)
    }

    /// Finds the segment whose day span holds the given fixed day, by
    /// binary search over the half-open spans `[start_day, end_day)`.
    pub fn by_day(&self, day: i64) -> (r: SegmentLookupResult)
        requires
            self.wf(),
            self@.len() > 0,
        ensures
            match r {
                SegmentLookupResult::BeforeFirst(seg) => seg == self@[0] && day
                    < seg.start_day,
                SegmentLookupResult::In(seg) => exists|i: int|
                    0 <= i < self@.len() && seg == self@[i] && seg.start_day <= day
                        < seg.start_day + seg.duration_days,
                SegmentLookupResult::AfterLast(seg) => seg == self@[self@.len() - 1] && day
                    >= seg.start_day + seg.duration_days,
            },
    {
        let segments: &Vec<ContinuousTimeSegment> = &self.0;
        let n: usize = segments.len();
        let first = segments[0];
        if day < first.start_day as i64 {
            return SegmentLookupResult::BeforeFirst(first);
        }
        let last = segments[n - 1];
        proof {
            assert(self@[n - 1].wf());
        }
        if day >= last.start_day as i64 + last.duration_days as i64 {
            return SegmentLookupResult::AfterLast(last);
        }
        let mut lo: usize = 0;
        let mut hi: usize = n - 1;
        while lo < hi
            invariant
                segments_wf(segments@),
                n == segments@.len(),
                0 <= lo <= hi < n,
                segments@[lo as int].start_day <= day,
                day < segments@[hi as int].start_day + segments@[hi as int].duration_days,
            decreases hi - lo,
        {
            let mid: usize = lo + (hi - lo + 1) / 2;
            proof {
                assert(segments@[mid as int].wf());
                assert(segments@[mid as int].start_day == segments@[mid - 1].start_day
                    + segments@[mid - 1].duration_days);
            }
            if day >= segments[mid].start_day as i64 {
                lo = mid;
            } else {
                hi = mid - 1;
            }
        }
        SegmentLookupResult::In(segments[lo])
    }

    /// Finds the segment whose instant span holds the given instant, by
    /// binary search over the half-open spans `[start_instant, end_instant)`.
    /// Instants finer than seconds are floored to seconds first.
    pub fn by_instant<S: Scale>(&self, instant: Instant<S>) -> (r: SegmentLookupResult)
        requires
            self.wf(),
            self@.len() > 0,
            S::ticks_per_second_spec() >= 1,
        ensures
            ({
                let t = instant@ / (S::ticks_per_second_spec() as int);
                match r {
                    SegmentLookupResult::BeforeFirst(seg) => seg == self@[0] && t
                        < seg.start_instant@,
                    SegmentLookupResult::In(seg) => exists|i: int|
                        0 <= i < self@.len() && seg == self@[i] && seg.start_instant@ <= t
                            < seg.end_instant_spec(),
                    SegmentLookupResult::AfterLast(seg) => seg == self@[self@.len() - 1] && t
                        >= seg.end_instant_spec(),
                }
            }),
    {
        let seconds: Instant<Seconds> = instant.floor();
        let t: i64 = seconds.ticks_since_epoch();
        let segments: &Vec<ContinuousTimeSegment> = &self.0;
        let n: usize = segments.len();
        let first = segments[0];
        if t < first.start_instant.ticks_since_epoch() {
            return SegmentLookupResult::BeforeFirst(first);
        }
        let last = segments[n - 1];
        proof {
            assert(self@[n - 1].wf());
        }
        if t >= last.end_instant().ticks_since_epoch() {
            return SegmentLookupResult::AfterLast(last);
        }
        let mut lo: usize = 0;
        let mut hi: usize = n - 1;
        while lo < hi
            invariant
                segments_wf(segments@),
                n == segments@.len(),
                0 <= lo <= hi < n,
                segments@[lo as int].start_instant@ <= t,
                t < segments@[hi as int].end_instant_spec(),
            decreases hi - lo,
        {
            let mid: usize = lo + (hi - lo + 1) / 2;
            proof {
                assert(segments@[mid as int].wf());
                assert(segments@[mid - 1].wf());
                assert(segments@[mid as int].start_day == segments@[mid - 1].start_day
                    + segments@[mid - 1].duration_days);
                assert(segments@[mid as int].accumulated_leap_seconds == segments@[mid
                    - 1].accumulated_leap_seconds + segments@[mid - 1].leap_seconds);
                assert(segments@[mid as int].start_instant@ == segments@[mid
                    - 1].end_instant_spec());
            }
            if t >= segments[mid].start_instant.ticks_since_epoch() {
                lo = mid;
            } else {
                hi = mid - 1;
            }
        }
        SegmentLookupResult::In(segments[lo])
    }
}


/// A usable leap-second table: timestamps at least one day after the epoch,
/// strictly increasing by day, within the day range, with per-entry leap
/// counts that fit a signed byte.
pub open spec fn leap_table_valid(t: Seq<LeapSecond>) -> bool {
    forall|i: int|
        0 <= i < t.len() ==> {
            let rec = #[trigger] t[i];
            &&& 86400 <= rec.unix_timestamp
            &&& rec.unix_timestamp / 86400 <= u32::MAX
            &&& (i > 0 ==> rec.unix_timestamp / 86400 > t[i - 1].unix_timestamp / 86400)
            &&& -128 <= rec.leap_second_count - (if i > 0 {
                t[i - 1].leap_second_count as int
            } else {
                0int
            }) <= 127
        }
}

/// Builds the contiguous segment sequence a leap-second table describes:
/// each record closes the segment ending on the day of its timestamp, and
/// the running totals carry the accumulated leap seconds along. Rejects a
/// table that is not valid.
pub fn leap_segments_from_table(table: &Vec<LeapSecond>) -> (r: Option<
    Vec<ContinuousTimeSegment>,
>)
    ensures
        r is Some <==> leap_table_valid(table@),
        r matches Some(v) ==> {
            &&& segments_wf(v@)
            &&& v@.len() == table@.len()
            &&& forall|i: int|
                0 <= i < v@.len() ==> {
                    &&& (#[trigger] v@[i]).start_day + v@[i].duration_days == table@[i].unix_timestamp
                        / 86400
                    &&& v@[i].accumulated_leap_seconds + v@[i].leap_seconds
                        == table@[i].leap_second_count
                }
        },
{
    let mut segments: Vec<ContinuousTimeSegment> = Vec::new();
    let mut start_day: u32 = 0;
    let mut start_instant: i64 = 0;
    let mut previous_total: i32 = 0;
    let n: usize = table.len();
    let mut i: usize = 0;
    while i < n
        invariant
            n == table@.len(),
            0 <= i <= n,
            segments@.len() == i,
            segments_wf(segments@),
            forall|j: int|
                0 <= j < i ==> {
                    let rec = #[trigger] table@[j];
                    &&& 86400 <= rec.unix_timestamp
                    &&& rec.unix_timestamp / 86400 <= u32::MAX
                    &&& (j > 0 ==> rec.unix_timestamp / 86400 > table@[j - 1].unix_timestamp
                        / 86400)
                    &&& -128 <= rec.leap_second_count - (if j > 0 {
                        table@[j - 1].leap_second_count as int
                    } else {
                        0int
                    }) <= 127
                },
            forall|j: int|
                0 <= j < i ==> {
                    &&& (#[trigger] segments@[j]).start_day + segments@[j].duration_days
                        == table@[j].unix_timestamp / 86400
                    &&& segments@[j].accumulated_leap_seconds + segments@[j].leap_seconds
                        == table@[j].leap_second_count
                },
            start_day == if i > 0 {
                table@[i - 1].unix_timestamp / 86400
            } else {
                0int
            },
            previous_total == if i > 0 {
                table@[i - 1].leap_second_count as int
            } else {
                0int
            },
            start_instant == start_day * 86400 + previous_total,
        decreases n - i,
    {
        let rec = table[i];
        if rec.unix_timestamp < 86400 {
            return None;
        }
        let end_day64: i64 = rec.unix_timestamp / 86400;
        if end_day64 > u32::MAX as i64 || end_day64 <= start_day as i64 {
            return None;
        }
        let delta64: i64 = rec.leap_second_count as i64 - previous_total as i64;
        if delta64 < -128 || delta64 > 127 {
            return None;
        }
        let end_day: u32 = end_day64 as u32;
        let duration_days: u32 = end_day - start_day;
        let leap_seconds: i8 = delta64 as i8;
        let segment = ContinuousTimeSegment {
            start_instant: Instant::from_ticks_since_epoch(start_instant),
            start_day,
            duration_days,
            leap_seconds,
            accumulated_leap_seconds: previous_total,
        };
        segments.push(segment);
        start_instant = start_instant + duration_days as i64 * SECONDS_PER_DAY_I64
            + leap_seconds as i64;
        start_day = end_day;
        previous_total = rec.leap_second_count;
        i = i + 1;
    }
    Some(segments)
}

/// The leap-second records a TZif file holds, as (timestamp, total) pairs.
pub uninterp spec fn leap_records_of(data: Seq<u8>) -> Seq<(i64, i32)>;

/// Whether a byte vector decodes as a TZif file within the parser's
/// standing limits.
pub uninterp spec fn tzif_leap_parses(data: Seq<u8>) -> bool;

/// Relies on zoneinfo_compiled::parser::parse: decodes the sections of a
/// binary TZif file in memory, returning an error on any malformed input;
/// with the parser's standing limits, both the outcome and the leap-second
/// records are a function of the bytes alone.
#[verifier::external_body]
pub(crate) fn parse_leap_records(data: Vec<u8>) -> (r: Option<Vec<(i64, i32)>>)
    ensures
        r is Some <==> tzif_leap_parses(data@),
        r matches Some(v) ==> v@ == leap_records_of(data@),
{
    match zoneinfo_compiled::parser::parse(data, zoneinfo_compiled::parser::Limits::sensible()) {
        Ok(tz) => Some(
            tz.leap_seconds.iter().map(|ls| (ls.timestamp as i64, ls.leap_second_count)).collect(),
        ),
        Err(_) => None,
    }
}

/// Total leap seconds inserted before a Unix timestamp, taking its day to
/// be `unix_timestamp / 86400` rounded toward zero. Past the last segment
/// the last segment's starting total is reported.
pub fn get_leap_second_adjustment(leap_seconds: &LeapSecondChronology, unix_timestamp: i64) -> (r:
    i32)
    requires
        leap_seconds.wf(),
    ensures
        ({
            let day = if unix_timestamp >= 0 {
                unix_timestamp as int / 86400
            } else {
                -((-(unix_timestamp as int)) / 86400)
            };
            if leap_seconds@.len() == 0 {
                r == 0
            } else if day >= leap_seconds@[leap_seconds@.len() - 1].end_day_spec() {
                r == leap_seconds@[leap_seconds@.len() - 1].accumulated_leap_seconds
            } else {
                r == leap_adjustment(leap_seconds@, day)
            }
        }),
{
    if leap_seconds.0.len() == 0 {
        return 0;
    }
    let day: i64 = unix_timestamp / 86400;
    match leap_seconds.by_day(day) {
        SegmentLookupResult::BeforeFirst(_) => {
            proof {
                lemma_adjustment_before(leap_seconds@, day as int);
            }
            0
        },
        SegmentLookupResult::In(segment) => {
            proof {
                let i = choose|i: int|
                    0 <= i < leap_seconds@.len() && segment == leap_seconds@[i]
                        && segment.start_day <= day < segment.start_day + segment.duration_days;
                lemma_adjustment_in_segment(leap_seconds@, i, day as int);
                if i < leap_seconds@.len() - 1 {
                    lemma_start_day_order(leap_seconds@, i, leap_seconds@.len() - 1);
                }
            }
            segment.accumulated_leap_seconds
        },
        SegmentLookupResult::AfterLast(segment) => segment.accumulated_leap_seconds,
    }
}

/// The tail of the segment sequence from the segment containing the given
/// day on, or from the first segment when all of them start after it.
pub fn get_leap_second_segments_since_day(leap_seconds: &LeapSecondChronology, day: u32) -> (r: Vec<
    ContinuousTimeSegment,
>)
    requires
        leap_seconds.wf(),
    ensures
        ({
            let s = leap_seconds@;
            let k = s.len() - r@.len();
            &&& 0 <= k <= s.len()
            &&& r@ == s.skip(k as int)
            &&& (forall|j: int| 0 <= j < k ==> (#[trigger] s[j]).start_day <= day)
            &&& (forall|j: int| k + 1 <= j < s.len() ==> (#[trigger] s[j]).start_day > day)
            &&& (k > 0 ==> s[k as int].start_day <= day)
        }),
{
    let segments: &Vec<ContinuousTimeSegment> = &leap_seconds.0;
    let n: usize = segments.len();
    let mut idx: usize = 0;
    while idx < n && segments[idx].start_day <= day
        invariant
            n == segments@.len(),
            0 <= idx <= n,
            forall|j: int| 0 <= j < idx ==> (#[trigger] segments@[j]).start_day <= day,
        decreases n - idx,
    {
        idx = idx + 1;
    }
    proof {
        assert forall|j: int|
            idx <= j < segments@.len() implies (#[trigger] segments@[j]).start_day > day by {
            if j > idx {
                lemma_start_day_order(segments@, idx as int, j);
                assert(segments@[idx as int].wf());
            }
        }
    }
    let from: usize = if idx == 0 {
        0
    } else {
        idx - 1
    };
    let mut r: Vec<ContinuousTimeSegment> = Vec::new();
    let mut k: usize = from;
    while k < n
        invariant
            n == segments@.len(),
            from <= k <= n,
            r@ == segments@.subrange(from as int, k as int),
        decreases n - k,
    {
        r.push(segments[k]);
        proof {
            assert(r@ == segments@.subrange(from as int, k + 1));
        }
        k = k + 1;
    }
    proof {
        assert(r@ == segments@.skip(from as int));
    }
    r
}


/// The leap seconds of a day inside a segment: the segment's count on its
/// final day, zero on the others.
pub proof fn lemma_leap_of_day_in_segment(s: Seq<ContinuousTimeSegment>, i: int, day: int)
    requires
        segments_wf(s),
        0 <= i < s.len(),
        s[i].start_day <= day < s[i].start_day + s[i].duration_days,
    ensures
        leap_of_day(s, day) == if day == s[i].start_day + s[i].duration_days - 1 {
            s[i].leap_seconds as int
        } else {
            0int
        },
    decreases s.len(),
{
    if i == s.len() - 1 {
    } else {
        lemma_start_day_order(s, i, s.len() - 1);
        lemma_segments_wf_prefix(s);
        lemma_leap_of_day_in_segment(s.drop_last(), i, day);
    }
}

/// A day before the first segment or at or past the end of the last one
/// has no leap second at its end.
pub proof fn lemma_leap_of_day_outside(s: Seq<ContinuousTimeSegment>, day: int)
    requires
        segments_wf(s),
        s.len() == 0 || day < s[0].start_day || day >= s[s.len() - 1].start_day + s[s.len()
            - 1].duration_days,
    ensures
        leap_of_day(s, day) == 0,
    decreases s.len(),
{
    if s.len() > 0 {
        lemma_segments_wf_prefix(s);
        if day < s[0].start_day {
            if s.len() == 1 {
                assert(s.drop_last().len() == 0);
                assert(leap_of_day(s.drop_last(), day) == 0);
            } else {
                lemma_start_day_order(s, 0, s.len() - 1);
                lemma_leap_of_day_outside(s.drop_last(), day);
            }
        }
    }
}

/// When a day is before the first segment or past the last, no segment
/// contains it, and the other way round.
pub proof fn lemma_no_segment_contains(s: Seq<ContinuousTimeSegment>, day: int)
    requires
        segments_wf(s),
        s.len() == 0 || day < s[0].start_day || day >= s[s.len() - 1].start_day + s[s.len()
            - 1].duration_days,
    ensures
        !(exists|i: int|
            0 <= i < s.len() && (#[trigger] s[i]).start_day <= day < s[i].start_day
                + s[i].duration_days),
        leap_of_day(s, day) == 0,
{
    lemma_leap_of_day_outside(s, day);
    assert forall|i: int| 0 <= i < s.len() implies !((#[trigger] s[i]).start_day <= day
        < s[i].start_day + s[i].duration_days) by {
        if s.len() > 0 && day < s[0].start_day {
            if i > 0 {
                lemma_start_day_order(s, 0, i);
            }
        } else if s.len() > 0 {
            if i < s.len() - 1 {
                lemma_start_day_order(s, i, s.len() - 1);
            }
        }
    }
}

/// The fixed day containing an instant: days are read off the segment that
/// holds the instant, and plain 86400-second days extend the timeline on
/// both sides. Within a segment the leap seconds of the final day spill
/// into that day rather than opening a new one.
pub open spec fn day_of_instant(s: Seq<ContinuousTimeSegment>, t: int) -> int
    decreases s.len(),
{
    if s.len() == 0 {
        t / 86400
    } else {
        let last = s[s.len() - 1];
        if t >= last.end_instant_spec() {
            last.start_day + last.duration_days + (t - last.end_instant_spec()) / 86400
        } else if t >= last.start_instant@ {
            if (t - last.start_instant@) / 86400 <= last.duration_days - 1 {
                last.start_day + (t - last.start_instant@) / 86400
            } else {
                last.start_day + last.duration_days - 1
            }
        } else {
            day_of_instant(s.drop_last(), t)
        }
    }
}

/// The second of its day at which an instant falls.
pub open spec fn second_of_instant(s: Seq<ContinuousTimeSegment>, t: int) -> int {
    t - instant_of_day_second(s, day_of_instant(s, t), 0)
}

/// Reading a day and second off an instant inverts the instant formula,
/// and lands strictly inside the day's true length.
pub proof fn lemma_instant_inverse(s: Seq<ContinuousTimeSegment>, t: int)
    requires
        segments_wf(s),
    ensures
        ({
            let d = day_of_instant(s, t);
            let sec = second_of_instant(s, t);
            &&& 0 <= sec < day_length(s, d)
            &&& instant_of_day_second(s, d, sec) == t
        }),
    decreases s.len(),
{
    let d = day_of_instant(s, t);
    if s.len() == 0 {
        lemma_fundamental_div_mod(t, 86400);
        lemma_mod_bound(t, 86400);
        assert(leap_adjustment(s, d) == 0);
        assert(leap_of_day(s, d) == 0);
    } else {
        let last = s[s.len() - 1];
        assert(last.wf());
        let end_day = last.start_day + last.duration_days;
        let end_inst = last.end_instant_spec();
        if t >= end_inst {
            let k = (t - end_inst) / 86400;
            lemma_fundamental_div_mod(t - end_inst, 86400);
            lemma_mod_bound(t - end_inst, 86400);
            assert(k >= 0);
            assert(d == end_day + k);
            assert(leap_adjustment(s, d) == last.accumulated_leap_seconds + last.leap_seconds);
            assert(leap_of_day(s, d) == 0) by {
                assert(d >= last.start_day);
                assert(d != end_day - 1);
            }
            assert(end_inst == end_day * 86400 + last.accumulated_leap_seconds
                + last.leap_seconds);
        } else if t >= last.start_instant@ {
            let q = (t - last.start_instant@) / 86400;
            lemma_fundamental_div_mod(t - last.start_instant@, 86400);
            lemma_mod_bound(t - last.start_instant@, 86400);
            assert(0 <= q);
            assert(q * 86400 <= t - last.start_instant@);
            assert(leap_adjustment(s, d) == last.accumulated_leap_seconds) by {
                assert(last.start_day <= d < end_day);
                lemma_adjustment_in_segment(s, s.len() - 1, d);
            }
            lemma_leap_of_day_in_segment(s, s.len() - 1, d);
            if q <= last.duration_days - 1 {
                assert(d == last.start_day + q);
                if d == end_day - 1 {
                    assert(t < end_inst);
                } else {
                }
            } else {
                // The leap seconds of the final day pushed q one past it.
                assert(d == end_day - 1);
                assert(q >= last.duration_days);
                assert(q * 86400 >= last.duration_days * 86400) by (nonlinear_arith)
                    requires
                        q >= last.duration_days,
                ;
                assert(q <= last.duration_days) by {
                    if q >= last.duration_days + 1 {
                        assert(q * 86400 >= (last.duration_days + 1) * 86400)
                            by (nonlinear_arith)
                            requires
                                q >= last.duration_days + 1,
                        ;
                        assert(t - last.start_instant@ >= (last.duration_days + 1) * 86400);
                        assert(t >= end_inst);
                    }
                }
                assert(q == last.duration_days);
            }
        } else {
            lemma_segments_wf_prefix(s);
            lemma_instant_inverse(s.drop_last(), t);
            let p = s.drop_last();
            let dp = day_of_instant(p, t);
            assert(d == dp);
            // The inverse of the prefix stays below this segment's start.
            assert(dp < last.start_day) by {
                if dp >= last.start_day {
                    if s.len() == 1 {
                        assert(p.len() == 0);
                        lemma_fundamental_div_mod(t, 86400);
                        lemma_mod_bound(t, 86400);
                        assert(instant_of_day_second(p, dp, 0) <= t);
                        assert(leap_adjustment(p, dp) == 0);
                        assert(last.start_day == 0 && last.accumulated_leap_seconds == 0);
                        assert(last.start_instant@ == 0);
                        assert(t >= 0);
                        assert(false);
                    } else {
                        let prev = s[s.len() - 2];
                        assert(prev == p[p.len() - 1]);
                        assert(prev.wf());
                        assert(last.start_day == prev.start_day + prev.duration_days);
                        assert(last.start_instant@ == prev.end_instant_spec()) by {
                            assert(last.accumulated_leap_seconds
                                == prev.accumulated_leap_seconds + prev.leap_seconds);
                        }
                        // Instants at the prefix grow with days.
                        lemma_instant_day_mono(p, last.start_day as int, dp);
                        assert(instant_of_day_second(p, last.start_day as int, 0) <= t) by {
                            assert(instant_of_day_second(p, dp, 0) <= t);
                        }
                        assert(leap_adjustment(p, last.start_day as int)
                            == prev.accumulated_leap_seconds + prev.leap_seconds);
                        assert(false);
                    }
                }
            }
            // Below the last segment's start the full sequence agrees with
            // the prefix.
            assert(leap_adjustment(s, dp) == leap_adjustment(p, dp)) by {
                assert(dp < last.start_day);
            }
            assert(leap_of_day(s, dp) == leap_of_day(p, dp)) by {
                assert(dp < last.start_day);
                assert(dp != last.start_day + last.duration_days - 1);
            }
        }
    }
}

/// A canonical (day, second) pair is the unique one its instant denotes.
pub proof fn lemma_canonical_unique(s: Seq<ContinuousTimeSegment>, d: int, sec: int)
    requires
        segments_wf(s),
        0 <= sec < day_length(s, d),
    ensures
        day_of_instant(s, instant_of_day_second(s, d, sec)) == d,
        second_of_instant(s, instant_of_day_second(s, d, sec)) == sec,
{
    let t = instant_of_day_second(s, d, sec);
    lemma_instant_inverse(s, t);
    let d2 = day_of_instant(s, t);
    let sec2 = second_of_instant(s, t);
    lemma_instant_order(s, d, sec, d2, sec2);
}

} // verus!
