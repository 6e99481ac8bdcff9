//! A recorded run in the form the persistence layer stores and loads.

use vstd::prelude::*;
use vstd::string::StringExecFns;

use crate::activity::{spec_pace_milli_min, spec_speed_milli_kmh};
use crate::geo::MAX_GEO_DISTANCE;
use crate::point::{spec_pcum, spec_ptotal, valid_ptrack, Point};
use crate::trig::{lemma_div_bound, lemma_mul_le};

verus! {

/// Tracks longer than this are refused, as in `geo`.
pub const MAX_RUN_POINTS: usize = 0xFFFF_FFFF;

/// A complete record of a run.
#[derive(Debug, Clone)]
pub struct RunRecord {
    /// Unique identifier of the run.
    pub id: String,
    /// Human-readable name of the run.
    pub name: String,
    /// The recorded track, with timestamps relative to the run start.
    pub coordinates: Vec<Point>,
    /// Total distance in meters, derived from the track.
    pub total_distance_meters: u64,
    /// Duration in milliseconds: the timestamp of the last point.
    pub duration_ms: u64,
    /// When the run was recorded, in epoch milliseconds.
    pub recorded_at: u64,
}

impl RunRecord {
    /// The derived fields agree with the track, and the track is valid.
    pub open spec fn wf(self) -> bool {
        &&& valid_ptrack(self.coordinates@)
        &&& self.coordinates@.len() <= MAX_RUN_POINTS
        &&& self.total_distance_meters == spec_ptotal(self.coordinates@)
        &&& self.duration_ms == if self.coordinates@.len() == 0 {
            0int
        } else {
            self.coordinates@[self.coordinates@.len() - 1].timestamp_ms as int
        }
    }

    /// Creates a record from a recorded track, deriving its total distance
    /// and its duration (the last point's timestamp).
    pub fn new(id: String, name: String, coordinates: Vec<Point>, recorded_at: u64) -> (r:
        RunRecord)
        requires
            valid_ptrack(coordinates@),
            coordinates@.len() <= MAX_RUN_POINTS,
        ensures
            r.wf(),
            r.id == id,
            r.name == name,
            r.coordinates == coordinates,
            r.recorded_at == recorded_at,
    {
        let total_distance_meters = Self::calculate_total_distance(&coordinates);
        let duration_ms: u64 = if coordinates.len() == 0 {
            0
        } else {
            coordinates[coordinates.len() - 1].timestamp_ms
        };
        RunRecord { id, name, coordinates, total_distance_meters, duration_ms, recorded_at }
    }

    /// An owned copy of this record, field for field.
    pub fn duplicate(&self) -> (r: RunRecord)
        ensures
            r.id == self.id,
            r.name == self.name,
            r.coordinates@ == self.coordinates@,
            r.total_distance_meters == self.total_distance_meters,
            r.duration_ms == self.duration_ms,
            r.recorded_at == self.recorded_at,
    {
        let n: usize = self.coordinates.len();
        let mut coords: Vec<Point> = Vec::new();
        let mut i: usize = 0;
        while i < n
            invariant
                0 <= i <= n,
                n == self.coordinates@.len(),
                coords@ =~= self.coordinates@.take(i as int),
            decreases n - i,
        {
            coords.push(self.coordinates[i]);
            proof {
                assert(self.coordinates@.take(i + 1) =~= self.coordinates@.take(i as int).push(
                    self.coordinates@[i as int],
                ));
            }
            i = i + 1;
        }
        proof {
            assert(self.coordinates@.take(n as int) =~= self.coordinates@);
        }
        RunRecord {
            id: self.id.clone(),
            name: self.name.clone(),
            coordinates: coords,
            total_distance_meters: self.total_distance_meters,
            duration_ms: self.duration_ms,
            recorded_at: self.recorded_at,
        }
    }

    /// The sum of the consecutive pairwise distances of the track.
    fn calculate_total_distance(points: &Vec<Point>) -> (r: u64)
        requires
            valid_ptrack(points@),
            points@.len() <= MAX_RUN_POINTS,
        ensures
            r == spec_ptotal(points@),
    {
        if points.len() < 2 {
            return 0;
        }
        let n: usize = points.len();
        let mut acc: u64 = 0;
        let mut i: usize = 1;
        while i < n
            invariant
                1 <= i <= n,
                acc == spec_pcum(points@, i - 1),
                acc <= (i - 1) * MAX_GEO_DISTANCE,
            decreases n - i,
        {
            let seg: u64 = points[i - 1].distance_to(&points[i]);
            proof {
                assert((i - 1) * MAX_GEO_DISTANCE + MAX_GEO_DISTANCE == i * MAX_GEO_DISTANCE)
                    by (nonlinear_arith);
                assert(i * MAX_GEO_DISTANCE <= 0xFFFF_FFFFint * MAX_GEO_DISTANCE)
                    by (nonlinear_arith)
                    requires
                        0 <= i <= 0xFFFF_FFFF,
                ;
            }
            acc = acc + seg;
            i = i + 1;
        }
        acc
    }

    /// Average pace over the run, in thousandths of a minute per
    /// kilometer; 0 for a zero distance.
    pub fn average_pace_min_per_km(&self) -> (r: u64)
        requires
            self.duration_ms < 10_000_000_000_000_000,
        ensures
            r == spec_pace_milli_min(self.total_distance_meters as int, self.duration_ms as int),
    {
        if self.total_distance_meters == 0 {
            return 0;
        }
        proof {
            lemma_mul_le(self.duration_ms as int, 1_000, 10_000_000_000_000_000, 1_000);
            assert(self.duration_ms as int * 1_000 / (60 * self.total_distance_meters as int)
                <= self.duration_ms as int * 1_000 / 60) by (nonlinear_arith)
                requires
                    self.total_distance_meters >= 1,
            ;
            lemma_div_bound(self.duration_ms as int * 1_000, 10_000_000_000_000_000int * 1_000, 60);
        }
        let num: u128 = (self.duration_ms as u128) * 1_000;
        let den: u128 = 60 * (self.total_distance_meters as u128);
        (num / den) as u64
    }

    /// Average speed over the run, in thousandths of a kilometer per hour;
    /// 0 for a zero duration.
    pub fn average_speed_kmh(&self) -> (r: u64)
        requires
            self.total_distance_meters < 1_000_000_000_000,
        ensures
            r == spec_speed_milli_kmh(self.total_distance_meters as int, self.duration_ms as int),
    {
        if self.duration_ms == 0 {
            return 0;
        }
        proof {
            lemma_mul_le(
                self.total_distance_meters as int,
                3_600_000,
                1_000_000_000_000,
                3_600_000,
            );
            lemma_div_bound(
                self.total_distance_meters as int * 3_600_000,
                1_000_000_000_000int * 3_600_000,
                self.duration_ms as int,
            );
        }
        let num: u128 = (self.total_distance_meters as u128) * 3_600_000;
        (num / (self.duration_ms as u128)) as u64
    }
}

} // verus!
