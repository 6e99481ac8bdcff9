//! Personal-best records and the registry that keeps one record per
//! activity type and standard distance.
//!
//! `update` replaces a record only when the new time is strictly faster;
//! ties and slower times leave the registry untouched.

use vstd::prelude::*;
use vstd::string::StringExecFns;

use crate::activity::{spec_distance_name, spec_pace_milli_min, ActivityType};
use crate::fmt::{push_u64, push_u64_pad2, spec_dec, spec_dec2, spec_format_duration};
use crate::trig::{lemma_div_bound, lemma_mul_le};

verus! {

/// A personal best for one activity type and standard distance.
#[derive(Debug, Clone)]
pub struct PersonalBest {
    /// The activity type this record is for.
    pub activity_type: ActivityType,
    /// The standard distance in meters.
    pub distance_meters: u64,
    /// Best time to cover this distance, in milliseconds.
    pub time_ms: u64,
    /// Identifier of the activity that achieved this record.
    pub activity_id: String,
    /// When this record was set, in epoch milliseconds.
    pub achieved_at: u64,
    /// Average pace of the record segment, in thousandths of a minute per
    /// kilometer.
    pub pace_min_per_km: u64,
}

impl PersonalBest {
    /// Creates a record, deriving its pace from the distance and time.
    pub fn new(
        activity_type: ActivityType,
        distance_meters: u64,
        time_ms: u64,
        activity_id: String,
        achieved_at: u64,
    ) -> (r: PersonalBest)
        requires
            time_ms < 10_000_000_000_000_000,
        ensures
            r.activity_type == activity_type,
            r.distance_meters == distance_meters,
            r.time_ms == time_ms,
            r.activity_id == activity_id,
            r.achieved_at == achieved_at,
            r.pace_min_per_km == spec_pace_milli_min(distance_meters as int, time_ms as int),
    {
        let pace_min_per_km: u64 = if distance_meters == 0 {
            0
        } else {
            proof {
                lemma_mul_le(time_ms as int, 1_000, 10_000_000_000_000_000, 1_000);
                assert(time_ms as int * 1_000 / (60 * distance_meters as int) <= time_ms as int
                    * 1_000 / 60) by (nonlinear_arith)
                    requires
                        distance_meters >= 1,
                ;
                lemma_div_bound(time_ms as int * 1_000, 10_000_000_000_000_000int * 1_000, 60);
            }
            ((time_ms as u128) * 1_000 / (60 * distance_meters as u128)) as u64
        };
        PersonalBest {
            activity_type,
            distance_meters,
            time_ms,
            activity_id,
            achieved_at,
            pace_min_per_km,
        }
    }

    /// An owned copy of this record, field for field.
    pub fn duplicate(&self) -> (r: PersonalBest)
        ensures
            r == *self,
    {
        PersonalBest {
            activity_type: self.activity_type,
            distance_meters: self.distance_meters,
            time_ms: self.time_ms,
            activity_id: self.activity_id.clone(),
            achieved_at: self.achieved_at,
            pace_min_per_km: self.pace_min_per_km,
        }
    }

    /// Renders the record time as `H:MM:SS` from one hour upward and
    /// `M:SS` below.
    pub fn format_time(&self) -> (r: String)
        ensures
            r@ == spec_format_duration(self.time_ms as int),
    {
        crate::fmt::format_duration(self.time_ms)
    }

    /// Renders the record pace as `M:SS /km`.
    pub fn format_pace(&self) -> (r: String)
        ensures
            r@ == spec_format_pace_km(self.pace_min_per_km as int),
    {
        proof {
            reveal_strlit(":");
            reveal_strlit(" /km");
            crate::trig::lemma_mul_le(self.pace_min_per_km as int, 60, u64::MAX as int, 60);
            crate::trig::lemma_mul_div_le(self.pace_min_per_km as int, 60, 1, 1_000);
            crate::trig::lemma_div_bound(
                self.pace_min_per_km as int * 60,
                u64::MAX as int * 60,
                1_000,
            );
        }
        let total_seconds: u64 = ((self.pace_min_per_km as u128) * 60 / 1_000) as u64;
        let mut s = String::new();
        push_u64(&mut s, total_seconds / 60);
        s.append(":");
        push_u64_pad2(&mut s, total_seconds % 60);
        s.append(" /km");
        assert(s@ =~= spec_format_pace_km(self.pace_min_per_km as int));
        s
    }

    /// The display name of the record's distance.
    pub fn distance_name(&self) -> (r: &'static str)
        ensures
            r@ == spec_distance_name(self.distance_meters as int),
    {
        ActivityType::distance_name(self.distance_meters)
    }
}

/// `M:SS /km` from a pace in thousandths of a minute per kilometer.
pub open spec fn spec_format_pace_km(pace_milli_min: int) -> Seq<char> {
    let total_seconds = pace_milli_min * 60 / 1_000;
    spec_dec(total_seconds / 60) + seq![':'] + spec_dec2(total_seconds % 60) + seq![
        ' ',
        '/',
        'k',
        'm',
    ]
}

/// First index at or after `i` holding a record for the given activity
/// type and distance; `-1` when there is none.
pub open spec fn spec_find_pb(s: Seq<PersonalBest>, t: ActivityType, d: int, i: nat) -> int
    decreases s.len() - i,
{
    if i >= s.len() {
        -1
    } else if s[i as int].activity_type == t && s[i as int].distance_meters == d {
        i as int
    } else {
        spec_find_pb(s, t, d, i + 1)
    }
}

/// The records of the first `i` entries whose activity id is not `id`.
pub open spec fn spec_remove_pb_id(s: Seq<PersonalBest>, id: Seq<char>, i: int) -> Seq<PersonalBest>
    decreases i,
{
    if i <= 0 {
        Seq::empty()
    } else if s[i - 1].activity_id@ == id {
        spec_remove_pb_id(s, id, i - 1)
    } else {
        spec_remove_pb_id(s, id, i - 1).push(s[i - 1])
    }
}

/// The records of the first `i` entries whose type is `t`.
pub open spec fn spec_pbs_for_type(s: Seq<PersonalBest>, t: ActivityType, i: int) -> Seq<
    PersonalBest,
>
    decreases i,
{
    if i <= 0 {
        Seq::empty()
    } else if s[i - 1].activity_type == t {
        spec_pbs_for_type(s, t, i - 1).push(s[i - 1])
    } else {
        spec_pbs_for_type(s, t, i - 1)
    }
}

/// The collection of all personal bests, keyed by activity type and
/// distance.
#[derive(Debug, Clone)]
pub struct PersonalBests {
    /// All records, one per key.
    pub records: Vec<PersonalBest>,
}

impl PersonalBests {
    /// Creates an empty collection.
    pub fn new() -> (r: PersonalBests)
        ensures
            r.records@.len() == 0,
    {
        PersonalBests { records: Vec::new() }
    }

    /// An owned copy of the collection, record for record.
    pub fn duplicate(&self) -> (r: PersonalBests)
        ensures
            r.records@ == self.records@,
    {
        let n: usize = self.records.len();
        let mut out: Vec<PersonalBest> = Vec::new();
        let mut i: usize = 0;
        while i < n
            invariant
                0 <= i <= n,
                n == self.records@.len(),
                out@ =~= self.records@.take(i as int),
            decreases n - i,
        {
            out.push(self.records[i].duplicate());
            proof {
                assert(self.records@.take(i + 1) =~= self.records@.take(i as int).push(
                    self.records@[i as int],
                ));
            }
            i = i + 1;
        }
        proof {
            assert(self.records@.take(n as int) =~= self.records@);
        }
        PersonalBests { records: out }
    }

    /// The record for the given activity type and distance, if any.
    pub fn get(&self, activity_type: ActivityType, distance_meters: u64) -> (r: Option<
        &PersonalBest,
    >)
        ensures
            match r {
                Some(pb) => {
                    &&& spec_find_pb(self.records@, activity_type, distance_meters as int, 0) >= 0
                    &&& *pb == self.records@[spec_find_pb(
                        self.records@,
                        activity_type,
                        distance_meters as int,
                        0,
                    )]
                },
                None => spec_find_pb(self.records@, activity_type, distance_meters as int, 0) < 0,
            },
    {
        let ghost s = self.records@;
        let n: usize = self.records.len();
        let mut i: usize = 0;
        while i < n
            invariant
                0 <= i <= n,
                n == s.len(),
                self.records@ == s,
                spec_find_pb(s, activity_type, distance_meters as int, 0) == spec_find_pb(
                    s,
                    activity_type,
                    distance_meters as int,
                    i as nat,
                ),
            decreases n - i,
        {
            if self.records[i].activity_type == activity_type && self.records[i].distance_meters
                == distance_meters {
                return Some(&self.records[i]);
            }
            i = i + 1;
        }
        None
    }

    /// All records of the given activity type, in registry order.
    pub fn get_for_type(&self, activity_type: ActivityType) -> (r: Vec<&PersonalBest>)
        ensures
            r@.len() == spec_pbs_for_type(
                self.records@,
                activity_type,
                self.records@.len() as int,
            ).len(),
            forall|k: int|
                0 <= k < r@.len() ==> *(#[trigger] r@[k]) == spec_pbs_for_type(
                    self.records@,
                    activity_type,
                    self.records@.len() as int,
                )[k],
    {
        let ghost s = self.records@;
        let n: usize = self.records.len();
        let mut out: Vec<&PersonalBest> = Vec::new();
        let mut i: usize = 0;
        while i < n
            invariant
                0 <= i <= n,
                n == s.len(),
                self.records@ == s,
                out@.len() == spec_pbs_for_type(s, activity_type, i as int).len(),
                forall|k: int|
                    0 <= k < out@.len() ==> *(#[trigger] out@[k]) == spec_pbs_for_type(
                        s,
                        activity_type,
                        i as int,
                    )[k],
            decreases n - i,
        {
            if self.records[i].activity_type == activity_type {
                out.push(&self.records[i]);
            }
            i = i + 1;
        }
        out
    }

    /// Inserts or replaces the record for `pb`'s key: a missing key is
    /// added, a strictly faster time replaces the stored record, anything
    /// else leaves the collection unchanged.  Returns whether the
    /// collection changed.
    pub fn update(&mut self, pb: PersonalBest) -> (r: bool)
        ensures
            ({
                let s = old(self).records@;
                let j = spec_find_pb(s, pb.activity_type, pb.distance_meters as int, 0);
                &&& (j < 0 ==> final (self).records@ == s.push(pb) && r == true)
                &&& (j >= 0 && pb.time_ms < s[j].time_ms ==> final (self).records@ == s.update(
                    j,
                    pb,
                ) && r == true)
                &&& (j >= 0 && pb.time_ms >= s[j].time_ms ==> final (self).records@ == s && r
                    == false)
            }),
    {
        let ghost s = self.records@;
        let n: usize = self.records.len();
        let mut i: usize = 0;
        while i < n
            invariant
                0 <= i <= n,
                n == s.len(),
                self.records@ == s,
                spec_find_pb(s, pb.activity_type, pb.distance_meters as int, 0) == spec_find_pb(
                    s,
                    pb.activity_type,
                    pb.distance_meters as int,
                    i as nat,
                ),
            decreases n - i,
        {
            if self.records[i].activity_type == pb.activity_type && self.records[i].distance_meters
                == pb.distance_meters {
                if pb.time_ms < self.records[i].time_ms {
                    self.records.set(i, pb);
                    return true;
                }
                return false;
            }
            i = i + 1;
        }
        self.records.push(pb);
        true
    }

    /// Removes every record set by the given activity, keeping the order
    /// of the rest.
    pub fn remove_for_activity(&mut self, activity_id: &str)
        ensures
            final (self).records@ == spec_remove_pb_id(
                old(self).records@,
                activity_id@,
                old(self).records@.len() as int,
            ),
    {
        let ghost s = self.records@;
        let id_owned: String = activity_id.to_owned();
        let n: usize = self.records.len();
        let mut kept: Vec<PersonalBest> = Vec::new();
        let mut i: usize = 0;
        while i < n
            invariant
                0 <= i <= n,
                n == s.len(),
                self.records@ == s,
                kept@ == spec_remove_pb_id(s, activity_id@, i as int),
                id_owned@ == activity_id@,
            decreases n - i,
        {
            if !(self.records[i].activity_id == id_owned) {
                kept.push(self.records[i].duplicate());
                assert(self.records@[i as int].activity_id@ != activity_id@);
            }
            i = i + 1;
        }
        self.records = kept;
    }
}

} // verus!
