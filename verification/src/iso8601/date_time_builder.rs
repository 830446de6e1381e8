//! Builds a date-time from optional calendar fields, validating them
//! against the calendar and the leap-second timeline.
use vstd::prelude::*;
use crate::gregorian_normalized_date::GregorianNormalizedDate;
use crate::gregorian_normalized_date::valid_date_spec;
use crate::iso8601::chronology::Chronology;
use crate::iso8601::date_time::DateTime;
use crate::iso8601::date_time::gnd_in_range;
use crate::iso8601::date_time::lemma_year_bounds_in_range;
use crate::iso8601::precision::Precision;
use crate::zoneinfo::SegmentLookupResult;
use crate::zoneinfo::leap_of_day;
use crate::zoneinfo::lemma_leap_of_day_in_segment;
use crate::zoneinfo::lemma_no_segment_contains;

verus! {

/// Rejection reasons for a set of date-time fields.
#[derive(Debug, PartialEq, Eq, Structural, Clone, Copy)]
pub enum Error {
    InvalidDateTime,
    DateTimeOutOfBounds,
}

/// The finer of an optional precision and a given one.
pub open spec fn opt_max_spec(lhs: Option<Precision>, rhs: Precision) -> Precision {
    match lhs {
        Some(x) => if x.rank_spec() >= rhs.rank_spec() {
            x
        } else {
            rhs
        },
        None => rhs,
    }
}

/// The finer of an optional precision and a given one.
pub fn opt_max(lhs: Option<Precision>, rhs: Precision) -> (r: Option<Precision>)
    ensures
        r == Some(opt_max_spec(lhs, rhs)),
{
    Some(
        match lhs {
            Some(x) => if x.rank() >= rhs.rank() {
                x
            } else {
                rhs
            },
            None => rhs,
        },
    )
}

/// Accumulates optional calendar fields; `build` validates them. The
/// precision of the result is the finest any supplied field implies.
pub struct DateTimeBuilder {
    pub chronology: Option<Chronology>,
    pub precision: Option<Precision>,
    pub year: Option<u16>,
    pub month: Option<u8>,
    pub day: Option<u8>,
    pub hour: Option<u8>,
    pub minute: Option<u8>,
    pub second: Option<u8>,
    pub millisecond: Option<u16>,
    pub microsecond: Option<u16>,
    pub nanosecond: Option<u16>,
    pub offset_hour: Option<u8>,
    pub offset_minute: Option<u8>,
}

impl DateTimeBuilder {
    /// A builder with no fields supplied.
    pub fn new() -> (r: Self)
        ensures
            r.chronology is None,
            r.precision is None,
            r.year is None,
            r.month is None,
            r.day is None,
            r.hour is None,
            r.minute is None,
            r.second is None,
            r.millisecond is None,
            r.microsecond is None,
            r.nanosecond is None,
            r.offset_hour is None,
            r.offset_minute is None,
    {
        DateTimeBuilder {
            chronology: None,
            precision: None,
            year: None,
            month: None,
            day: None,
            hour: None,
            minute: None,
            second: None,
            millisecond: None,
            microsecond: None,
            nanosecond: None,
            offset_hour: None,
            offset_minute: None,
        }
    }

    /// Supplies the chronology the date-time will consult.
    pub fn chronology(self, chronology: &Chronology) -> (r: Self)
        ensures
            r == (Self { chronology: Some(*chronology), ..self }),
    {
        Self { chronology: Some(chronology.clone()), ..self }
    }

    pub fn year(self, year: u16) -> (r: Self)
        ensures
            r == (Self {
                year: Some(year),
                precision: Some(opt_max_spec(self.precision, Precision::Years)),
                ..self
            }),
    {
        let precision = opt_max(self.precision, Precision::Years);
        Self { year: Some(year), precision, ..self }
    }

    pub fn month(self, month: u8) -> (r: Self)
        ensures
            r == (Self {
                month: Some(month),
                precision: Some(opt_max_spec(self.precision, Precision::Months)),
                ..self
            }),
    {
        let precision = opt_max(self.precision, Precision::Months);
        Self { month: Some(month), precision, ..self }
    }

    pub fn day(self, day: u8) -> (r: Self)
        ensures
            r == (Self {
                day: Some(day),
                precision: Some(opt_max_spec(self.precision, Precision::Days)),
                ..self
            }),
    {
        let precision = opt_max(self.precision, Precision::Days);
        Self { day: Some(day), precision, ..self }
    }

    pub fn hour(self, hour: u8) -> (r: Self)
        ensures
            r == (Self {
                hour: Some(hour),
                precision: Some(opt_max_spec(self.precision, Precision::Hours)),
                ..self
            }),
    {
        let precision = opt_max(self.precision, Precision::Hours);
        Self { hour: Some(hour), precision, ..self }
    }

    pub fn minute(self, minute: u8) -> (r: Self)
        ensures
            r == (Self {
                minute: Some(minute),
                precision: Some(opt_max_spec(self.precision, Precision::Minutes)),
                ..self
            }),
    {
        let precision = opt_max(self.precision, Precision::Minutes);
        Self { minute: Some(minute), precision, ..self }
    }

    pub fn second(self, second: u8) -> (r: Self)
        ensures
            r == (Self {
                second: Some(second),
                precision: Some(opt_max_spec(self.precision, Precision::Seconds)),
                ..self
            }),
    {
        let precision = opt_max(self.precision, Precision::Seconds);
        Self { second: Some(second), precision, ..self }
    }

    pub fn millisecond(self, millisecond: u16) -> (r: Self)
        ensures
            r == (Self {
                millisecond: Some(millisecond),
                precision: Some(opt_max_spec(self.precision, Precision::Milliseconds)),
                ..self
            }),
    {
        let precision = opt_max(self.precision, Precision::Milliseconds);
        Self { millisecond: Some(millisecond), precision, ..self }
    }

    pub fn microsecond(self, microsecond: u16) -> (r: Self)
        ensures
            r == (Self {
                microsecond: Some(microsecond),
                precision: Some(opt_max_spec(self.precision, Precision::Microseconds)),
                ..self
            }),
    {
        let precision = opt_max(self.precision, Precision::Microseconds);
        Self { microsecond: Some(microsecond), precision, ..self }
    }

    pub fn nanosecond(self, nanosecond: u16) -> (r: Self)
        ensures
            r == (Self {
                nanosecond: Some(nanosecond),
                precision: Some(opt_max_spec(self.precision, Precision::Nanoseconds)),
                ..self
            }),
    {
        let precision = opt_max(self.precision, Precision::Nanoseconds);
        Self { nanosecond: Some(nanosecond), precision, ..self }
    }

    pub fn offset_hour(self, offset_hour: u8) -> (r: Self)
        ensures
            r == (Self { offset_hour: Some(offset_hour), ..self }),
    {
        Self { offset_hour: Some(offset_hour), ..self }
    }

    pub fn offset_minute(self, offset_minute: u8) -> (r: Self)
        ensures
            r == (Self { offset_minute: Some(offset_minute), ..self }),
    {
        Self { offset_minute: Some(offset_minute), ..self }
    }

    /// The field values `build` will use: fields below the precision
    /// default to zero.
    pub open spec fn effective(self) -> (int, int, int, int, int, int, int, int, int) {
        let p = self.precision->0.rank_spec();
        (
            self.year->0 as int,
            if p >= 4 {
                self.month->0 as int
            } else {
                0
            },
            if p >= 6 {
                self.day->0 as int
            } else {
                0
            },
            if p >= 7 {
                self.hour->0 as int
            } else {
                0
            },
            if p >= 8 {
                self.minute->0 as int
            } else {
                0
            },
            if p >= 9 {
                self.second->0 as int
            } else {
                0
            },
            if p >= 10 {
                self.millisecond->0 as int
            } else {
                0
            },
            if p >= 11 {
                self.microsecond->0 as int
            } else {
                0
            },
            if p >= 12 {
                self.nanosecond->0 as int
            } else {
                0
            },
        )
    }

    /// Whether the effective fields name a representable wall-clock value:
    /// the date exists, the time fields are in range, and a second count
    /// of 60 or more is allowed only within the leap seconds at the end of
    /// a segment's final day.
    pub open spec fn fields_valid(self, chronology: Chronology) -> bool {
        let f = self.effective();
        let minute_length = if f.3 == 23 && f.4 == 59 {
            60 + leap_of_day(
                chronology.segments(),
                GregorianNormalizedDate::from_date_spec(f.0, f.1, f.2).to_day_spec(),
            )
        } else {
            60int
        };
        &&& valid_date_spec(f.0, f.1, f.2)
        &&& 0 <= f.3 <= 23
        &&& 0 <= f.4 <= 59
        &&& 0 <= f.5 < minute_length
        &&& 0 <= f.6 < 1000
        &&& 0 <= f.7 < 1000
        &&& 0 <= f.8 < 1000
    }

    /// Validates the fields and assembles the date-time.
    pub fn checked_build(&self) -> (r: Result<DateTime, Error>)
        requires
            self.precision is Some,
            self.year is Some,
            self.chronology matches Some(c) && c.wf(),
            self.precision->0.rank_spec() >= 4 ==> self.month is Some,
            self.precision->0.rank_spec() >= 6 ==> self.day is Some,
            self.precision->0.rank_spec() >= 7 ==> self.hour is Some,
            self.precision->0.rank_spec() >= 8 ==> self.minute is Some,
            self.precision->0.rank_spec() >= 9 ==> self.second is Some,
            self.precision->0.rank_spec() >= 10 ==> self.millisecond is Some,
            self.precision->0.rank_spec() >= 11 ==> self.microsecond is Some,
            self.precision->0.rank_spec() >= 12 ==> self.nanosecond is Some,
        ensures
            ({
                let f = self.effective();
                let c = self.chronology->0;
                &&& (r == Err::<DateTime, Error>(Error::DateTimeOutOfBounds) <==> f.0 > 9999)
                &&& (r == Err::<DateTime, Error>(Error::InvalidDateTime) <==> (f.0 <= 9999
                    && !self.fields_valid(c)))
                &&& r matches Ok(dt) ==> {
                    &&& f.0 <= 9999
                    &&& self.fields_valid(c)
                    &&& dt.wf()
                    &&& dt.precision_spec() == self.precision->0
                    &&& dt.chronology_spec() == c
                    &&& dt.gnd_spec() == GregorianNormalizedDate::from_date_spec(f.0, f.1, f.2)
                    &&& dt.gnd_spec().to_date_spec() == (f.0, f.1, f.2)
                    &&& dt.second_spec() == f.3 * 3600 + f.4 * 60 + f.5
                    &&& dt.nanosecond_spec() == f.6 * 1_000_000 + f.7 * 1_000 + f.8
                }
            }),
    {
        let precision = match &self.precision {
            Some(p) => *p,
            None => vstd::pervasive::unreached(),
        };
        let chronology = match &self.chronology {
            Some(c) => c.clone(),
            None => vstd::pervasive::unreached(),
        };
        let year: u16 = match self.year {
            Some(y) => y,
            None => vstd::pervasive::unreached(),
        };
        let month: u8 = if precision.at_least(Precision::Months) {
            match self.month {
                Some(v) => v,
                None => vstd::pervasive::unreached(),
            }
        } else {
            0
        };
        let day: u8 = if precision.at_least(Precision::Days) {
            match self.day {
                Some(v) => v,
                None => vstd::pervasive::unreached(),
            }
        } else {
            0
        };
        let hour: u8 = if precision.at_least(Precision::Hours) {
            match self.hour {
                Some(v) => v,
                None => vstd::pervasive::unreached(),
            }
        } else {
            0
        };
        let minute: u8 = if precision.at_least(Precision::Minutes) {
            match self.minute {
                Some(v) => v,
                None => vstd::pervasive::unreached(),
            }
        } else {
            0
        };
        let second: u8 = if precision.at_least(Precision::Seconds) {
            match self.second {
                Some(v) => v,
                None => vstd::pervasive::unreached(),
            }
        } else {
            0
        };
        let millisecond: u16 = if precision.at_least(Precision::Milliseconds) {
            match self.millisecond {
                Some(v) => v,
                None => vstd::pervasive::unreached(),
            }
        } else {
            0
        };
        let microsecond: u16 = if precision.at_least(Precision::Microseconds) {
            match self.microsecond {
                Some(v) => v,
                None => vstd::pervasive::unreached(),
            }
        } else {
            0
        };
        let nanosecond: u16 = if precision.at_least(Precision::Nanoseconds) {
            match self.nanosecond {
                Some(v) => v,
                None => vstd::pervasive::unreached(),
            }
        } else {
            0
        };
        if year > 9999 {
            return Err(Error::DateTimeOutOfBounds);
        }
        let gnd = match GregorianNormalizedDate::from_date(year as i32, month, day) {
            Ok(g) => g,
            Err(e) => {
                proof {
                    assert(crate::gregorian_normalized_date::MIN_YEAR <= year as i32
                        <= crate::gregorian_normalized_date::MAX_YEAR);
                    assert(e == crate::gregorian_normalized_date::Error::InvalidDate);
                    assert(!valid_date_spec(year as int, month as int, day as int));
                }
                return Err(Error::InvalidDateTime);
            },
        };
        proof {
            lemma_year_bounds_in_range(gnd);
        }
        if hour >= 24 || minute >= 60 {
            return Err(Error::InvalidDateTime);
        }
        let minute_length: i32 = if hour != 23 || minute != 59 {
            60
        } else {
            let leap_seconds = chronology.leap_seconds();
            let fixed_day = gnd.to_day();
            if leap_seconds.0.len() == 0 {
                proof {
                    lemma_no_segment_contains(chronology.segments(), gnd.to_day_spec());
                }
                60
            } else {
                match leap_seconds.by_day(fixed_day as i64) {
                    SegmentLookupResult::In(segment) => {
                        proof {
                            let i = choose|i: int|
                                0 <= i < chronology.segments().len() && segment
                                    == chronology.segments()[i] && segment.start_day
                                    <= fixed_day < segment.start_day + segment.duration_days;
                            lemma_leap_of_day_in_segment(
                                chronology.segments(),
                                i,
                                gnd.to_day_spec(),
                            );
                        }
                        let day_in_segment: u32 = (fixed_day - segment.start_day as i32) as u32;
                        if day_in_segment == segment.duration_days - 1 {
                            60 + segment.leap_seconds as i32
                        } else {
                            60
                        }
                    },
                    SegmentLookupResult::BeforeFirst(_) => {
                        proof {
                            lemma_no_segment_contains(chronology.segments(), gnd.to_day_spec());
                        }
                        60
                    },
                    SegmentLookupResult::AfterLast(_) => {
                        proof {
                            lemma_no_segment_contains(chronology.segments(), gnd.to_day_spec());
                        }
                        60
                    },
                }
            }
        };
        if second as i32 >= minute_length || millisecond >= 1000 || microsecond >= 1000
            || nanosecond >= 1000 {
            return Err(Error::InvalidDateTime);
        }
        let second_of_day: u32 = hour as u32 * 3600 + minute as u32 * 60 + second as u32;
        let nanosecond_of_second: u32 = millisecond as u32 * 1_000_000 + microsecond as u32
            * 1_000 + nanosecond as u32;
        Ok(DateTime::new(chronology, precision, gnd, second_of_day, nanosecond_of_second))
    }

    /// Validates the fields and assembles the date-time; they must name a
    /// representable value.
    pub fn build(&self) -> (r: DateTime)
        requires
            self.precision is Some,
            self.year is Some,
            self.chronology matches Some(c) && c.wf(),
            self.precision->0.rank_spec() >= 4 ==> self.month is Some,
            self.precision->0.rank_spec() >= 6 ==> self.day is Some,
            self.precision->0.rank_spec() >= 7 ==> self.hour is Some,
            self.precision->0.rank_spec() >= 8 ==> self.minute is Some,
            self.precision->0.rank_spec() >= 9 ==> self.second is Some,
            self.precision->0.rank_spec() >= 10 ==> self.millisecond is Some,
            self.precision->0.rank_spec() >= 11 ==> self.microsecond is Some,
            self.precision->0.rank_spec() >= 12 ==> self.nanosecond is Some,
            self.effective().0 <= 9999,
            self.fields_valid(self.chronology->0),
        ensures
            ({
                let f = self.effective();
                &&& r.wf()
                &&& r.precision_spec() == self.precision->0
                &&& r.chronology_spec() == self.chronology->0
                &&& r.gnd_spec() == GregorianNormalizedDate::from_date_spec(f.0, f.1, f.2)
                &&& r.gnd_spec().to_date_spec() == (f.0, f.1, f.2)
                &&& r.second_spec() == f.3 * 3600 + f.4 * 60 + f.5
                &&& r.nanosecond_spec() == f.6 * 1_000_000 + f.7 * 1_000 + f.8
            }),
    {
        match self.checked_build() {
            Ok(dt) => dt,
            Err(e) => {
                proof {
                    assert(e == Error::InvalidDateTime || e == Error::DateTimeOutOfBounds);
                }
                vstd::pervasive::unreached()
            },
        }
    }
}

} // verus!
