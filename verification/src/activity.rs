//! Activity types, activity records and the activity index.
//!
//! An activity owns one recorded track and its derived totals.  The
//! standard-distance table per activity type drives the personal-best
//! search.  Pace is carried in thousandths of a minute per kilometer and
//! speed in thousandths of a kilometer per hour.

use vstd::prelude::*;

use crate::geo::MAX_GEO_DISTANCE;
use crate::point::{spec_pcum, spec_ptotal, valid_ptrack, Point};
use crate::trig::{lemma_div_bound, lemma_mul_le};

verus! {

/// Tracks longer than this are refused, as in `geo`.
pub const MAX_ACTIVITY_POINTS: usize = 0xFFFF_FFFF;

/// Supported activity types.
#[derive(Debug, Clone, Copy, PartialEq, Eq, Hash, Structural)]
pub enum ActivityType {
    Run,
    Walk,
    Cycle,
    RollerSkate,
}

/// The standard distances of an activity type, in meters, ascending.
pub open spec fn spec_pb_distances(t: ActivityType) -> Seq<u64> {
    match t {
        ActivityType::Cycle => seq![10_000u64, 25_000u64, 50_000u64, 100_000u64],
        _ => seq![1_000u64, 5_000u64, 10_000u64, 21_098u64, 42_195u64],
    }
}

/// The display name of a standard distance.
pub open spec fn spec_distance_name(distance_m: int) -> Seq<char> {
    if distance_m == 1_000 {
        "1K"@
    } else if distance_m == 5_000 {
        "5K"@
    } else if distance_m == 10_000 {
        "10K"@
    } else if distance_m == 21_097 || distance_m == 21_098 {
        "Half Marathon"@
    } else if distance_m == 42_195 {
        "Marathon"@
    } else if distance_m == 25_000 {
        "25K"@
    } else if distance_m == 50_000 {
        "50K"@
    } else if distance_m == 100_000 {
        "100K"@
    } else {
        "Custom"@
    }
}

impl ActivityType {
    /// The standard distances for this activity type, in meters: 1K to the
    /// marathon for foot-borne types, 10K to 100K for cycling.  The half
    /// marathon is 21097.5 m, rounded here to the nearest meter.
    pub fn pb_distances(&self) -> (r: Vec<u64>)
        ensures
            r@ == spec_pb_distances(*self),
            forall|i: int, j: int| 0 <= i < j < r@.len() ==> r@[i] < r@[j],
            forall|i: int| 0 <= i < r@.len() ==> 1 <= #[trigger] r@[i],
    {
        let r: Vec<u64> = match self {
            ActivityType::Cycle => vec![10_000, 25_000, 50_000, 100_000],
            _ => vec![1_000, 5_000, 10_000, 21_098, 42_195],
        };
        assert(r@ =~= spec_pb_distances(*self));
        r
    }

    /// The display name of a standard distance, `Custom` for any other.
    pub fn distance_name(distance_m: u64) -> (r: &'static str)
        ensures
            r@ == spec_distance_name(distance_m as int),
    {
        if distance_m == 1_000 {
            "1K"
        } else if distance_m == 5_000 {
            "5K"
        } else if distance_m == 10_000 {
            "10K"
        } else if distance_m == 21_097 || distance_m == 21_098 {
            "Half Marathon"
        } else if distance_m == 42_195 {
            "Marathon"
        } else if distance_m == 25_000 {
            "25K"
        } else if distance_m == 50_000 {
            "50K"
        } else if distance_m == 100_000 {
            "100K"
        } else {
            "Custom"
        }
    }

    /// The activity type encoded by an integer, if any: 0 is `Run`, 1 is
    /// `Walk`, 2 is `Cycle`, 3 is `RollerSkate`.
    pub fn from_int(value: i32) -> (r: Option<ActivityType>)
        ensures
            r == (if value == 0 {
                Some(ActivityType::Run)
            } else if value == 1 {
                Some(ActivityType::Walk)
            } else if value == 2 {
                Some(ActivityType::Cycle)
            } else if value == 3 {
                Some(ActivityType::RollerSkate)
            } else {
                None::<ActivityType>
            }),
    {
        match value {
            0 => Some(ActivityType::Run),
            1 => Some(ActivityType::Walk),
            2 => Some(ActivityType::Cycle),
            3 => Some(ActivityType::RollerSkate),
            _ => None,
        }
    }

    /// The integer encoding of this activity type; the inverse of
    /// `from_int`.
    pub fn to_int(&self) -> (r: i32)
        ensures
            r == (match *self {
                ActivityType::Run => 0int,
                ActivityType::Walk => 1int,
                ActivityType::Cycle => 2int,
                ActivityType::RollerSkate => 3int,
            }),
            Self::from_int_spec(r as int) == Some(*self),
    {
        match self {
            ActivityType::Run => 0,
            ActivityType::Walk => 1,
            ActivityType::Cycle => 2,
            ActivityType::RollerSkate => 3,
        }
    }
}

impl ActivityType {
    /// What `from_int` returns, as a spec-level map.
    pub open spec fn from_int_spec(value: int) -> Option<ActivityType> {
        if value == 0 {
            Some(ActivityType::Run)
        } else if value == 1 {
            Some(ActivityType::Walk)
        } else if value == 2 {
            Some(ActivityType::Cycle)
        } else if value == 3 {
            Some(ActivityType::RollerSkate)
        } else {
            None
        }
    }
}

/// Duration of a track: the time between its first and last point, zero
/// for fewer than two points or clock runback.
pub open spec fn spec_track_duration(s: Seq<Point>) -> int {
    if s.len() < 2 {
        0
    } else if s[s.len() - 1].timestamp_ms >= s[0].timestamp_ms {
        s[s.len() - 1].timestamp_ms - s[0].timestamp_ms
    } else {
        0
    }
}

/// Average pace in thousandths of a minute per kilometer; 0 when the
/// distance is zero.
pub open spec fn spec_pace_milli_min(distance_m: int, duration_ms: int) -> int {
    if distance_m <= 0 {
        0
    } else {
        duration_ms * 1_000 / (60 * distance_m)
    }
}

/// Average speed in thousandths of a kilometer per hour; 0 when the
/// duration is zero.
pub open spec fn spec_speed_milli_kmh(distance_m: int, duration_ms: int) -> int {
    if duration_ms <= 0 {
        0
    } else {
        distance_m * 3_600_000 / duration_ms
    }
}

/// A complete record of one activity.
#[derive(Debug, Clone)]
pub struct Activity {
    /// Unique identifier of the activity.
    pub id: String,
    /// Human-readable name of the activity.
    pub name: String,
    /// Type of activity.
    pub activity_type: ActivityType,
    /// The recorded track.
    pub coordinates: Vec<Point>,
    /// Total distance in meters, derived from the track.
    pub total_distance_meters: u64,
    /// Total duration in milliseconds, derived from the track.
    pub duration_ms: u64,
    /// When the activity was recorded, in epoch milliseconds.
    pub recorded_at: u64,
}

impl Activity {
    /// The derived fields agree with the track, and the track is valid.
    pub open spec fn wf(self) -> bool {
        &&& valid_ptrack(self.coordinates@)
        &&& self.coordinates@.len() <= MAX_ACTIVITY_POINTS
        &&& self.total_distance_meters == spec_ptotal(self.coordinates@)
        &&& self.duration_ms == spec_track_duration(self.coordinates@)
    }

    /// Creates an activity from a recorded track, deriving its total
    /// distance and duration.
    pub fn new(
        id: String,
        name: String,
        activity_type: ActivityType,
        coordinates: Vec<Point>,
        recorded_at: u64,
    ) -> (r: Activity)
        requires
            valid_ptrack(coordinates@),
            coordinates@.len() <= MAX_ACTIVITY_POINTS,
        ensures
            r.wf(),
            r.id == id,
            r.name == name,
            r.activity_type == activity_type,
            r.coordinates == coordinates,
            r.recorded_at == recorded_at,
    {
        let total_distance_meters = Self::calculate_total_distance(&coordinates);
        let duration_ms = Self::calculate_duration(&coordinates);
        Activity {
            id,
            name,
            activity_type,
            coordinates,
            total_distance_meters,
            duration_ms,
            recorded_at,
        }
    }

    /// The time between the first and last point; zero for fewer than two
    /// points.
    fn calculate_duration(points: &Vec<Point>) -> (r: u64)
        ensures
            r == spec_track_duration(points@),
    {
        if points.len() < 2 {
            return 0;
        }
        let first: u64 = points[0].timestamp_ms;
        let last: u64 = points[points.len() - 1].timestamp_ms;
        if last >= first {
            last - first
        } else {
            0
        }
    }

    /// The sum of the consecutive pairwise distances of the track.
    fn calculate_total_distance(points: &Vec<Point>) -> (r: u64)
        requires
            valid_ptrack(points@),
            points@.len() <= MAX_ACTIVITY_POINTS,
        ensures
            r == spec_ptotal(points@),
    {
        if points.len() < 2 {
            return 0;
        }
        let n: usize = points.len();
        let mut acc: u64 = 0;
        let mut i: usize = 1;
        while i < n
            invariant
                1 <= i <= n,
                acc == spec_pcum(points@, i - 1),
                acc <= (i - 1) * MAX_GEO_DISTANCE,
            decreases n - i,
        {
            let seg: u64 = points[i - 1].distance_to(&points[i]);
            proof {
                assert((i - 1) * MAX_GEO_DISTANCE + MAX_GEO_DISTANCE == i * MAX_GEO_DISTANCE)
                    by (nonlinear_arith);
                assert(i * MAX_GEO_DISTANCE <= 0xFFFF_FFFFint * MAX_GEO_DISTANCE)
                    by (nonlinear_arith)
                    requires
                        0 <= i <= 0xFFFF_FFFF,
                ;
            }
            acc = acc + seg;
            i = i + 1;
        }
        acc
    }

    /// Average pace over the whole activity, in thousandths of a minute
    /// per kilometer; 0 for a zero distance.
    pub fn average_pace_min_per_km(&self) -> (r: u64)
        requires
            self.duration_ms < 10_000_000_000_000_000,
        ensures
            r == spec_pace_milli_min(
                self.total_distance_meters as int,
                self.duration_ms as int,
            ),
    {
        if self.total_distance_meters == 0 {
            return 0;
        }
        proof {
            lemma_mul_le(self.duration_ms as int, 1_000, 10_000_000_000_000_000, 1_000);
            assert(self.duration_ms as int * 1_000 / (60 * self.total_distance_meters as int)
                <= self.duration_ms as int * 1_000 / 60) by (nonlinear_arith)
                requires
                    self.total_distance_meters >= 1,
            ;
            lemma_div_bound(
                self.duration_ms as int * 1_000,
                10_000_000_000_000_000int * 1_000,
                60,
            );
        }
        let num: u128 = (self.duration_ms as u128) * 1_000;
        let den: u128 = 60 * (self.total_distance_meters as u128);
        (num / den) as u64
    }

    /// Average speed over the whole activity, in thousandths of a
    /// kilometer per hour; 0 for a zero duration.
    pub fn average_speed_kmh(&self) -> (r: u64)
        requires
            self.total_distance_meters < 1_000_000_000_000,
        ensures
            r == spec_speed_milli_kmh(
                self.total_distance_meters as int,
                self.duration_ms as int,
            ),
    {
        if self.duration_ms == 0 {
            return 0;
        }
        proof {
            lemma_mul_le(
                self.total_distance_meters as int,
                3_600_000,
                1_000_000_000_000,
                3_600_000,
            );
            lemma_div_bound(
                self.total_distance_meters as int * 3_600_000,
                1_000_000_000_000int * 3_600_000,
                self.duration_ms as int,
            );
        }
        let num: u128 = (self.total_distance_meters as u128) * 3_600_000;
        (num / (self.duration_ms as u128)) as u64
    }

    /// The summary of this activity: every scalar field, without the
    /// coordinates.
    pub fn to_summary(&self) -> (r: ActivitySummary)
        requires
            self.duration_ms < 10_000_000_000_000_000,
        ensures
            r.id == self.id,
            r.name == self.name,
            r.activity_type == self.activity_type,
            r.total_distance_meters == self.total_distance_meters,
            r.duration_ms == self.duration_ms,
            r.recorded_at == self.recorded_at,
            r.pace_min_per_km == spec_pace_milli_min(
                self.total_distance_meters as int,
                self.duration_ms as int,
            ),
    {
        ActivitySummary {
            id: self.id.clone(),
            name: self.name.clone(),
            activity_type: self.activity_type,
            total_distance_meters: self.total_distance_meters,
            duration_ms: self.duration_ms,
            recorded_at: self.recorded_at,
            pace_min_per_km: self.average_pace_min_per_km(),
        }
    }
}

/// A lightweight activity summary for list display.
#[derive(Debug, Clone)]
pub struct ActivitySummary {
    /// Unique identifier of the activity.
    pub id: String,
    /// Human-readable name of the activity.
    pub name: String,
    /// Type of activity.
    pub activity_type: ActivityType,
    /// Total distance in meters.
    pub total_distance_meters: u64,
    /// Total duration in milliseconds.
    pub duration_ms: u64,
    /// When the activity was recorded, in epoch milliseconds.
    pub recorded_at: u64,
    /// Average pace in thousandths of a minute per kilometer.
    pub pace_min_per_km: u64,
}

impl ActivitySummary {
    /// An owned copy of this summary, field for field.
    pub fn duplicate(&self) -> (r: ActivitySummary)
        ensures
            r == *self,
    {
        ActivitySummary {
            id: self.id.clone(),
            name: self.name.clone(),
            activity_type: self.activity_type,
            total_distance_meters: self.total_distance_meters,
            duration_ms: self.duration_ms,
            recorded_at: self.recorded_at,
            pace_min_per_km: self.pace_min_per_km,
        }
    }
}

/// The subsequence of `s` whose first `i` elements do not carry `id`.
pub open spec fn spec_remove_id(s: Seq<ActivitySummary>, id: Seq<char>, i: int) -> Seq<
    ActivitySummary,
>
    decreases i,
{
    if i <= 0 {
        Seq::empty()
    } else if s[i - 1].id@ == id {
        spec_remove_id(s, id, i - 1)
    } else {
        spec_remove_id(s, id, i - 1).push(s[i - 1])
    }
}

/// The subsequence of the first `i` elements of `s` whose type is `t`.
pub open spec fn spec_filter_type(s: Seq<ActivitySummary>, t: ActivityType, i: int) -> Seq<
    ActivitySummary,
>
    decreases i,
{
    if i <= 0 {
        Seq::empty()
    } else if s[i - 1].activity_type == t {
        spec_filter_type(s, t, i - 1).push(s[i - 1])
    } else {
        spec_filter_type(s, t, i - 1)
    }
}

/// The sequence is sorted by recording time, most recent first.
pub open spec fn sorted_by_date_desc(s: Seq<ActivitySummary>) -> bool {
    forall|i: int, j: int|
        0 <= i <= j < s.len() ==> #[trigger] s[i].recorded_at >= #[trigger] s[j].recorded_at
}

/// An index of activity summaries for list display.
#[derive(Debug, Clone)]
pub struct ActivityIndex {
    /// The indexed summaries, in insertion order.
    pub activities: Vec<ActivitySummary>,
}

impl ActivityIndex {
    /// Creates an empty index.
    pub fn new() -> (r: ActivityIndex)
        ensures
            r.activities@.len() == 0,
    {
        ActivityIndex { activities: Vec::new() }
    }

    /// Appends a summary to the index.
    pub fn add(&mut self, summary: ActivitySummary)
        ensures
            final(self).activities@ == old(self).activities@.push(summary),
    {
        self.activities.push(summary);
    }

    /// Removes every summary carrying the given activity id, keeping the
    /// order of the rest.
    pub fn remove(&mut self, id: &str)
        ensures
            final(self).activities@ == spec_remove_id(
                old(self).activities@,
                id@,
                old(self).activities@.len() as int,
            ),
    {
        let ghost s = self.activities@;
        let id_owned: String = id.to_owned();
        let n: usize = self.activities.len();
        let mut kept: Vec<ActivitySummary> = Vec::new();
        let mut i: usize = 0;
        while i < n
            invariant
                0 <= i <= n,
                n == s.len(),
                self.activities@ == s,
                kept@ == spec_remove_id(s, id@, i as int),
                id_owned@ == id@,
            decreases n - i,
        {
            if !(self.activities[i].id == id_owned) {
                kept.push(self.activities[i].duplicate());
                assert(self.activities@[i as int].id@ != id@);
            }
            i = i + 1;
        }
        self.activities = kept;
    }

    /// The summaries sorted by recording time, most recent first: a
    /// permutation of the index, sorted descending.
    pub fn sorted_by_date(&self) -> (r: Vec<ActivitySummary>)
        ensures
            r@.to_multiset() == self.activities@.to_multiset(),
            sorted_by_date_desc(r@),
    {
        let n: usize = self.activities.len();
        let mut out: Vec<ActivitySummary> = Vec::new();
        proof {
            assert(out@ =~= self.activities@.take(0));
        }
        let mut i: usize = 0;
        while i < n
            invariant
                0 <= i <= n,
                n == self.activities@.len(),
                out@.to_multiset() == self.activities@.take(i as int).to_multiset(),
                sorted_by_date_desc(out@),
            decreases n - i,
        {
            let item = self.activities[i].duplicate();
            let mut j: usize = out.len();
            while j > 0 && out[j - 1].recorded_at < item.recorded_at
                invariant
                    0 <= j <= out@.len(),
                    forall|k: int|
                        j <= k < out@.len() ==> (#[trigger] out@[k]).recorded_at
                            < item.recorded_at,
                decreases j,
            {
                j = j - 1;
            }
            proof {
                let t = out@.insert(j as int, item);
                assert(t[j as int] == item);
                assert(t.remove(j as int) =~= out@);
                t.to_multiset_ensures();
                out@.to_multiset_ensures();
                assert(t.remove(j as int).to_multiset() =~= t.to_multiset().remove(t[j as int]));
                assert(t.contains(item));
                assert(t.to_multiset() =~= out@.to_multiset().insert(item));
                assert(self.activities@.take(i + 1) =~= self.activities@.take(i as int).push(
                    self.activities@[i as int],
                ));
                self.activities@.take(i as int).to_multiset_ensures();
            }
            out.insert(j, item);
            i = i + 1;
        }
        proof {
            assert(self.activities@.take(n as int) =~= self.activities@);
        }
        out
    }

    /// The summaries of the given activity type, in index order.
    pub fn filter_by_type(&self, activity_type: ActivityType) -> (r: Vec<ActivitySummary>)
        ensures
            r@ == spec_filter_type(
                self.activities@,
                activity_type,
                self.activities@.len() as int,
            ),
    {
        let n: usize = self.activities.len();
        let mut out: Vec<ActivitySummary> = Vec::new();
        let mut i: usize = 0;
        while i < n
            invariant
                0 <= i <= n,
                n == self.activities@.len(),
                out@ == spec_filter_type(self.activities@, activity_type, i as int),
            decreases n - i,
        {
            if self.activities[i].activity_type == activity_type {
                out.push(self.activities[i].duplicate());
            }
            i = i + 1;
        }
        out
    }
}

} // verus!
