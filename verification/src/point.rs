//! The plain GPS coordinate used by sessions, activities and the
//! personal-best search: a fixed-point position and a millisecond offset
//! from the start of the recording.

use vstd::prelude::*;

use crate::geo::{
    lemma_haversine_self_zero, lemma_haversine_symmetric, spec_haversine, valid_coords,
    MAX_GEO_DISTANCE,
};

verus! {

/// A GPS coordinate with a timestamp relative to the start of its run.
#[derive(Debug, Clone, Copy, PartialEq, Eq, Structural)]
pub struct Point {
    /// Latitude in microdegrees, `-90_000_000 ..= 90_000_000`.
    pub lat_udeg: i64,
    /// Longitude in microdegrees, `-180_000_000 ..= 180_000_000`.
    pub lon_udeg: i64,
    /// Milliseconds since the start of the run.
    pub timestamp_ms: u64,
}

/// The great-circle distance between two points.
pub open spec fn spec_pdist(a: Point, b: Point) -> int {
    spec_haversine(a.lat_udeg as int, a.lon_udeg as int, b.lat_udeg as int, b.lon_udeg as int)
}

/// Distance along the point sequence from its start to point `i`.
pub open spec fn spec_pcum(s: Seq<Point>, i: int) -> int
    decreases i,
{
    if i <= 0 {
        0
    } else {
        spec_pcum(s, i - 1) + spec_pdist(s[i - 1], s[i])
    }
}

/// Total distance of the point sequence; zero for fewer than two points.
pub open spec fn spec_ptotal(s: Seq<Point>) -> int {
    if s.len() == 0 {
        0
    } else {
        spec_pcum(s, s.len() - 1)
    }
}

/// Every point of the sequence has in-range coordinates.
pub open spec fn valid_ptrack(s: Seq<Point>) -> bool {
    forall|i: int| 0 <= i < s.len() ==> #[trigger] s[i].wf()
}

impl Point {
    /// A point is well formed when its coordinates are in range.
    pub open spec fn wf(self) -> bool {
        valid_coords(self.lat_udeg as int, self.lon_udeg as int)
    }

    /// Creates a new point from fixed-point coordinates and a timestamp.
    pub fn new(lat_udeg: i64, lon_udeg: i64, timestamp_ms: u64) -> (r: Point)
        ensures
            r == (Point { lat_udeg, lon_udeg, timestamp_ms }),
    {
        Point { lat_udeg, lon_udeg, timestamp_ms }
    }

    /// The great-circle distance in meters to another point.
    pub fn distance_to(&self, other: &Point) -> (r: u64)
        requires
            self.wf(),
            other.wf(),
        ensures
            r == spec_pdist(*self, *other),
            r <= MAX_GEO_DISTANCE,
    {
        crate::geo::haversine_distance(
            self.lat_udeg,
            self.lon_udeg,
            other.lat_udeg,
            other.lon_udeg,
        )
    }
}

/// The distance from a point to itself is zero.
pub proof fn lemma_pdist_self_zero(p: Point)
    ensures
        spec_pdist(p, p) == 0,
{
    lemma_haversine_self_zero(p.lat_udeg as int, p.lon_udeg as int);
}

/// The distance between two points does not depend on their order.
pub proof fn lemma_pdist_symmetric(a: Point, b: Point)
    ensures
        spec_pdist(a, b) == spec_pdist(b, a),
{
    lemma_haversine_symmetric(
        a.lat_udeg as int,
        a.lon_udeg as int,
        b.lat_udeg as int,
        b.lon_udeg as int,
    );
}

} // verus!
