//! The chronology: an immutable, cheaply shareable view of the leap-second
//! timeline that date-times consult.
use vstd::prelude::*;
use std::sync::Arc;
use crate::zoneinfo::ContinuousTimeSegment;
use crate::zoneinfo::LeapSecond;
use crate::zoneinfo::LeapSecondChronology;
use crate::zoneinfo::leap_records_of;
use crate::zoneinfo::leap_segments_from_table;
use crate::zoneinfo::leap_table_valid;
use crate::zoneinfo::parse_leap_records;
use crate::zoneinfo::tzif_leap_parses;
use crate::zoneinfo::segments_wf;

verus! {

/// A leap-second table as plain records.
pub open spec fn records_to_table(recs: Seq<(i64, i32)>) -> Seq<LeapSecond> {
    recs.map_values(|p: (i64, i32)| LeapSecond { unix_timestamp: p.0, leap_second_count: p.1 })
}

/// The segments a chronology must hold for a leap-second table: one per
/// record, ending on the record's day, with the record's running total.
pub open spec fn segments_match_table(s: Seq<ContinuousTimeSegment>, t: Seq<LeapSecond>) -> bool {
    &&& s.len() == t.len()
    &&& forall|i: int|
        0 <= i < s.len() ==> {
            &&& (#[trigger] s[i]).start_day + s[i].duration_days == t[i].unix_timestamp / 86400
            &&& s[i].accumulated_leap_seconds + s[i].leap_seconds == t[i].leap_second_count
        }
}

/// An immutable leap-second timeline. Cloning shares the segment storage.
#[derive(Debug)]
pub struct Chronology {
    leap_seconds: LeapSecondChronology,
    leap_second_smearing: bool,
}

impl Chronology {
    /// The segment sequence this chronology holds.
    pub closed spec fn segments(self) -> Seq<ContinuousTimeSegment> {
        self.leap_seconds@
    }

    /// Whether leap-second smearing was requested (reserved; never set).
    pub closed spec fn smearing_spec(self) -> bool {
        self.leap_second_smearing
    }

    /// A usable chronology: well-formed segments and no smearing.
    pub open spec fn wf(self) -> bool {
        &&& segments_wf(self.segments())
        &&& !self.smearing_spec()
    }

    /// The leap-second segment store.
    pub fn leap_seconds(&self) -> (r: &LeapSecondChronology)
        ensures
            r@ == self.segments(),
    {
        &self.leap_seconds
    }

    /// Builds a chronology from a leap-second table. The smearing flag is
    /// reserved and must be false; an unusable table is rejected.
    pub fn from_leap_second_table(table: &Vec<LeapSecond>, leap_second_smearing: bool) -> (r:
        Option<Chronology>)
        ensures
            r is Some <==> (leap_table_valid(table@) && !leap_second_smearing),
            r matches Some(c) ==> {
                &&& c.wf()
                &&& segments_match_table(c.segments(), table@)
            },
    {
        if leap_second_smearing {
            return None;
        }
        match leap_segments_from_table(table) {
            Some(segments) => Some(
                Chronology {
                    leap_seconds: LeapSecondChronology(Arc::new(segments)),
                    leap_second_smearing: false,
                },
            ),
            None => None,
        }
    }

    /// Builds a chronology from the bytes of a binary TZif file, taking the
    /// leap-second records the file holds as the table. `None` exactly when
    /// smearing is requested, the bytes do not decode as a TZif file, or
    /// the table they hold is unusable.
    pub fn from_tzdata_bytes(data: Vec<u8>, leap_second_smearing: bool) -> (r: Option<Chronology>)
        ensures
            r is Some <==> {
                &&& !leap_second_smearing
                &&& tzif_leap_parses(data@)
                &&& leap_table_valid(records_to_table(leap_records_of(data@)))
            },
            r matches Some(c) ==> {
                &&& c.wf()
                &&& segments_match_table(c.segments(), records_to_table(leap_records_of(data@)))
            },
    {
        if leap_second_smearing {
            return None;
        }
        let records = match parse_leap_records(data) {
            Some(records) => records,
            None => {
                return None;
            },
        };
        let mut table: Vec<LeapSecond> = Vec::new();
        let mut i: usize = 0;
        let n: usize = records.len();
        while i < n
            invariant
                n == records@.len(),
                0 <= i <= n,
                table@ == records_to_table(records@).take(i as int),
            decreases n - i,
        {
            let rec = records[i];
            table.push(LeapSecond { unix_timestamp: rec.0, leap_second_count: rec.1 });
            proof {
                assert(table@ == records_to_table(records@).take(i + 1));
            }
            i = i + 1;
        }
        proof {
            assert(table@ == records_to_table(records@));
        }
        Chronology::from_leap_second_table(&table, false)
    }
}

/// Relies on std's Arc::clone via the segment store's own clone.
impl Clone for Chronology {
    fn clone(&self) -> (r: Self)
        ensures
            r == *self,
    {
        Chronology {
            leap_seconds: self.leap_seconds.clone(),
            leap_second_smearing: self.leap_second_smearing,
        }
    }
}

} // verus!
