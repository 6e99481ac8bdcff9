//! The pacing session: a live run compared against a stored reference run
//! (the "banshee").
//!
//! A session wraps the reference coordinates and caches their total distance
//! at construction.  Queries compare the banshee's distance-from-start at
//! the elapsed time against the runner's distance-from-start, which is
//! approximated as the distance along the reference path to its vertex
//! nearest the runner (nearest-vertex projection, not a true perpendicular
//! projection).

use vstd::prelude::*;

use crate::geo::MAX_GEO_DISTANCE;
use crate::point::{spec_pcum, spec_pdist, spec_ptotal, valid_ptrack, Point};
use crate::trig::{lemma_div_bound, lemma_mul_le, lemma_mul_le_right};

verus! {

/// Tracks longer than this are refused, as in `geo`.
pub const MAX_SESSION_POINTS: usize = 0xFFFF_FFFF;

/// Result of a pacing comparison.
#[derive(Debug, Clone, Copy, PartialEq, Eq, Structural)]
pub enum PacingStatus {
    /// Runner is ahead of the banshee.
    Ahead,
    /// Runner is behind the banshee.
    Behind,
    /// Cannot determine: the reference track is empty.
    Unknown,
}

/// A session comparing the current run against a previous best run.
#[derive(Debug, Clone)]
pub struct BansheeSession {
    /// The coordinates of the best run.
    pub best_run_coords: Vec<Point>,
    /// Total distance of the best run, cached at construction.
    pub best_run_total_distance: u64,
}

/// First index at or after `i` whose timestamp is at least `elapsed`;
/// `-1` when there is none.
pub open spec fn spec_first_time_ge(s: Seq<Point>, elapsed: int, i: nat) -> int
    decreases s.len() - i,
{
    if i >= s.len() {
        -1
    } else if s[i as int].timestamp_ms >= elapsed {
        i as int
    } else {
        spec_first_time_ge(s, elapsed, i + 1)
    }
}

/// The banshee's distance from its start at the given elapsed time:
/// interpolated inside the first segment whose end timestamp has been
/// reached; the whole distance when the run is over.
pub open spec fn spec_banshee_dist_at(s: Seq<Point>, elapsed: int) -> int {
    if s.len() == 0 {
        0
    } else {
        let k = spec_first_time_ge(s, elapsed, 0);
        if k == 0 {
            0
        } else if k > 0 {
            let den = s[k].timestamp_ms - s[k - 1].timestamp_ms;
            if den > 0 {
                spec_pcum(s, k - 1) + spec_pdist(s[k - 1], s[k]) * (elapsed - s[k
                    - 1].timestamp_ms) / den
            } else {
                spec_pcum(s, k - 1)
            }
        } else {
            spec_ptotal(s)
        }
    }
}

/// First index at or after `i` (at least 1) whose cumulative distance
/// reaches `d`; `-1` when there is none.
pub open spec fn spec_first_cum_ge(s: Seq<Point>, d: int, i: nat) -> int
    decreases s.len() - i,
{
    if i >= s.len() {
        -1
    } else if spec_pcum(s, i as int) >= d {
        i as int
    } else {
        spec_first_cum_ge(s, d, i + 1)
    }
}

/// The banshee's timestamp on reaching distance `d`: interpolated inside
/// the first segment whose cumulative distance reaches `d`; the final
/// timestamp when the run is shorter than `d`.
pub open spec fn spec_banshee_time_at(s: Seq<Point>, d: int) -> int {
    if s.len() == 0 {
        0
    } else {
        let k = spec_first_cum_ge(s, d, 1);
        if k >= 1 {
            let seg = spec_pcum(s, k) - spec_pcum(s, k - 1);
            if seg > 0 {
                let td = if s[k].timestamp_ms >= s[k - 1].timestamp_ms {
                    s[k].timestamp_ms - s[k - 1].timestamp_ms
                } else {
                    0
                };
                s[k - 1].timestamp_ms + td * (d - spec_pcum(s, k - 1)) / seg
            } else {
                s[k - 1].timestamp_ms as int
            }
        } else {
            s[s.len() - 1].timestamp_ms as int
        }
    }
}

/// The index of the reference vertex nearest to `p`, scanning from `i` with
/// the best candidate so far; the earliest strictly-nearest vertex wins.
pub open spec fn spec_nearest_from(s: Seq<Point>, p: Point, i: nat, best_i: int, best_d: int) -> int
    decreases s.len() - i,
{
    if i >= s.len() {
        best_i
    } else {
        let di = spec_pdist(p, s[i as int]);
        if di < best_d {
            spec_nearest_from(s, p, i + 1, i as int, di)
        } else {
            spec_nearest_from(s, p, i + 1, best_i, best_d)
        }
    }
}

/// The runner's distance from the start of the reference run, approximated
/// as the distance along the reference path to its nearest vertex.
pub open spec fn spec_dist_from_start(s: Seq<Point>, p: Point) -> int {
    if s.len() == 0 {
        0
    } else {
        spec_pcum(s, spec_nearest_from(s, p, 0, 0, 0xFFFF_FFFF_FFFF_FFFF))
    }
}

/// Every timestamp of the sequence fits a signed 64-bit difference.
pub open spec fn times_fit_i64(s: Seq<Point>) -> bool {
    forall|i: int| 0 <= i < s.len() ==> #[trigger] s[i].timestamp_ms <= 0x7FFF_FFFF_FFFF_FFFF
}

impl BansheeSession {
    /// The cached total equals the reference track's distance, and the
    /// track is valid and short enough for cumulative sums.
    pub open spec fn wf(self) -> bool {
        &&& valid_ptrack(self.best_run_coords@)
        &&& self.best_run_coords@.len() <= MAX_SESSION_POINTS
        &&& self.best_run_total_distance == spec_ptotal(self.best_run_coords@)
    }

    /// Creates a session around the given best-run coordinates, computing
    /// their total distance once.
    pub fn new(best_run_coords: Vec<Point>) -> (r: BansheeSession)
        requires
            valid_ptrack(best_run_coords@),
            best_run_coords@.len() <= MAX_SESSION_POINTS,
        ensures
            r.wf(),
            r.best_run_coords == best_run_coords,
    {
        let best_run_total_distance = Self::calculate_total_distance(&best_run_coords);
        BansheeSession { best_run_coords, best_run_total_distance }
    }

    /// Total distance of a point sequence: the sum of its consecutive
    /// pairwise distances.
    fn calculate_total_distance(points: &Vec<Point>) -> (r: u64)
        requires
            valid_ptrack(points@),
            points@.len() <= MAX_SESSION_POINTS,
        ensures
            r == spec_ptotal(points@),
    {
        if points.len() < 2 {
            return 0;
        }
        let n: usize = points.len();
        let mut acc: u64 = 0;
        let mut i: usize = 1;
        while i < n
            invariant
                1 <= i <= n,
                acc == spec_pcum(points@, i - 1),
                acc <= (i - 1) * MAX_GEO_DISTANCE,
            decreases n - i,
        {
            let seg: u64 = points[i - 1].distance_to(&points[i]);
            proof {
                assert((i - 1) * MAX_GEO_DISTANCE + MAX_GEO_DISTANCE == i * MAX_GEO_DISTANCE)
                    by (nonlinear_arith);
                assert(i * MAX_GEO_DISTANCE <= 0xFFFF_FFFFint * MAX_GEO_DISTANCE)
                    by (nonlinear_arith)
                    requires
                        0 <= i <= 0xFFFF_FFFF,
                ;
            }
            acc = acc + seg;
            i = i + 1;
        }
        acc
    }

    /// The total distance of the best run in meters.
    pub fn best_run_distance(&self) -> (r: u64)
        requires
            self.wf(),
        ensures
            r == spec_ptotal(self.best_run_coords@),
    {
        self.best_run_total_distance
    }

    /// The duration of the best run in milliseconds: the timestamp of its
    /// last point, or 0 for an empty run.
    pub fn best_run_duration_ms(&self) -> (r: u64)
        ensures
            r == if self.best_run_coords@.len() == 0 {
                0int
            } else {
                self.best_run_coords@[self.best_run_coords@.len() - 1].timestamp_ms as int
            },
    {
        let n: usize = self.best_run_coords.len();
        if n == 0 {
            0
        } else {
            self.best_run_coords[n - 1].timestamp_ms
        }
    }

    /// The banshee's distance from start at the elapsed time.
    fn get_banshee_distance_at_time(&self, elapsed_ms: u64) -> (r: u64)
        requires
            self.wf(),
        ensures
            r == spec_banshee_dist_at(self.best_run_coords@, elapsed_ms as int),
    {
        let ghost s = self.best_run_coords@;
        let n: usize = self.best_run_coords.len();
        if n == 0 {
            return 0;
        }
        let mut cum: u64 = 0;
        let mut i: usize = 0;
        while i < n
            invariant
                0 <= i <= n,
                n == s.len(),
                cum == spec_pcum(s, if i == 0 { 0int } else { i - 1 }),
                cum <= i * MAX_GEO_DISTANCE,
                spec_first_time_ge(s, elapsed_ms as int, 0) == spec_first_time_ge(
                    s,
                    elapsed_ms as int,
                    i as nat,
                ),
                forall|j: int| 0 <= j < i ==> #[trigger] s[j].timestamp_ms < elapsed_ms,
            decreases n - i,
        {
            if self.best_run_coords[i].timestamp_ms >= elapsed_ms {
                assert(spec_first_time_ge(s, elapsed_ms as int, i as nat) == i);
                if i == 0 {
                    return 0;
                }
                let prev = self.best_run_coords[i - 1];
                let curr = self.best_run_coords[i];
                let seg: u64 = prev.distance_to(&curr);
                if curr.timestamp_ms > prev.timestamp_ms {
                    let den: u64 = curr.timestamp_ms - prev.timestamp_ms;
                    let num: u64 = elapsed_ms - prev.timestamp_ms;
                    assert(num <= den);
                    proof {
                        lemma_mul_le(seg as int, num as int, MAX_GEO_DISTANCE as int, den as int);
                        lemma_mul_le_right(seg as int, num as int, den as int);
                        lemma_div_bound(
                            seg as int * num as int,
                            seg as int * den as int,
                            den as int,
                        );
                        crate::trig::lemma_mul_div_cancel(seg as int, den as int);
                    }
                    let inc: u64 = ((seg as u128) * (num as u128) / (den as u128)) as u64;
                    assert(inc <= seg);
                    return cum + inc;
                }
                return cum;
            }
            if i > 0 {
                let seg: u64 = self.best_run_coords[i - 1].distance_to(&self.best_run_coords[i]);
                proof {
                    assert((i - 1) * MAX_GEO_DISTANCE + MAX_GEO_DISTANCE == i * MAX_GEO_DISTANCE)
                        by (nonlinear_arith);
                    assert(i * MAX_GEO_DISTANCE + MAX_GEO_DISTANCE <= 0x1_0000_0000int
                        * MAX_GEO_DISTANCE) by (nonlinear_arith)
                        requires
                            0 <= i <= 0xFFFF_FFFF,
                    ;
                }
                cum = cum + seg;
            }
            i = i + 1;
        }
        assert(spec_first_time_ge(s, elapsed_ms as int, 0) == -1);
        self.best_run_total_distance
    }

    /// The banshee's timestamp on reaching the given distance.
    fn get_banshee_time_at_distance(&self, distance: u64) -> (r: u64)
        requires
            self.wf(),
        ensures
            r == spec_banshee_time_at(self.best_run_coords@, distance as int),
    {
        let ghost s = self.best_run_coords@;
        let n: usize = self.best_run_coords.len();
        if n == 0 {
            return 0;
        }
        let mut cum: u64 = 0;
        let mut i: usize = 1;
        while i < n
            invariant
                1 <= i <= n,
                n == s.len(),
                cum == spec_pcum(s, i - 1),
                cum <= (i - 1) * MAX_GEO_DISTANCE,
                cum <= distance,
                spec_first_cum_ge(s, distance as int, 1) == spec_first_cum_ge(
                    s,
                    distance as int,
                    i as nat,
                ),
            decreases n - i,
        {
            let prev = self.best_run_coords[i - 1];
            let curr = self.best_run_coords[i];
            let seg: u64 = prev.distance_to(&curr);
            proof {
                assert((i - 1) * MAX_GEO_DISTANCE + MAX_GEO_DISTANCE == i * MAX_GEO_DISTANCE)
                    by (nonlinear_arith);
                assert(i * MAX_GEO_DISTANCE <= 0xFFFF_FFFFint * MAX_GEO_DISTANCE)
                    by (nonlinear_arith)
                    requires
                        0 <= i <= 0xFFFF_FFFF,
                ;
            }
            let new_cum: u64 = cum + seg;
            if new_cum >= distance {
                assert(spec_first_cum_ge(s, distance as int, i as nat) == i);
                if seg > 0 {
                    let td: u64 = if curr.timestamp_ms >= prev.timestamp_ms {
                        curr.timestamp_ms - prev.timestamp_ms
                    } else {
                        0
                    };
                    let num: u64 = distance - cum;
                    assert(num <= seg);
                    proof {
                        lemma_mul_le(td as int, num as int, u64::MAX as int, u64::MAX as int);
                        lemma_mul_le_right(td as int, num as int, seg as int);
                        lemma_div_bound(td as int * num as int, td as int * seg as int, seg as int);
                        crate::trig::lemma_mul_div_cancel(td as int, seg as int);
                    }
                    let inc: u64 = ((td as u128) * (num as u128) / (seg as u128)) as u64;
                    assert(inc <= td);
                    return prev.timestamp_ms + inc;
                }
                return prev.timestamp_ms;
            }
            assert(spec_first_cum_ge(s, distance as int, i as nat) == spec_first_cum_ge(
                s,
                distance as int,
                (i + 1) as nat,
            ));
            cum = new_cum;
            i = i + 1;
        }
        assert(spec_first_cum_ge(s, distance as int, 1) == -1);
        self.best_run_coords[n - 1].timestamp_ms
    }

    /// The runner's distance from the start of the reference path, by the
    /// nearest-vertex approximation.
    fn calculate_distance_from_start(&self, current_pos: &Point) -> (r: u64)
        requires
            self.wf(),
            current_pos.wf(),
        ensures
            r == spec_dist_from_start(self.best_run_coords@, *current_pos),
    {
        let ghost s = self.best_run_coords@;
        let p = *current_pos;
        let n: usize = self.best_run_coords.len();
        if n == 0 {
            return 0;
        }
        let mut best_along: u64 = 0;
        let mut best_d: u64 = u64::MAX;
        let ghost mut best_i: int = 0;
        let mut cum: u64 = 0;
        let mut i: usize = 0;
        while i < n
            invariant
                0 <= i <= n,
                n == s.len(),
                cum == spec_pcum(s, if i == 0 { 0int } else { i - 1 }),
                cum <= i * MAX_GEO_DISTANCE,
                0 <= best_i < if i == 0 { 1int } else { i as int },
                best_along == spec_pcum(s, best_i),
                spec_nearest_from(s, p, 0, 0, 0xFFFF_FFFF_FFFF_FFFF) == spec_nearest_from(
                    s,
                    p,
                    i as nat,
                    best_i,
                    best_d as int,
                ),
            decreases n - i,
        {
            if i > 0 {
                let seg: u64 = self.best_run_coords[i - 1].distance_to(&self.best_run_coords[i]);
                proof {
                    assert((i - 1) * MAX_GEO_DISTANCE + MAX_GEO_DISTANCE == i * MAX_GEO_DISTANCE)
                        by (nonlinear_arith);
                    assert(i * MAX_GEO_DISTANCE <= 0xFFFF_FFFFint * MAX_GEO_DISTANCE)
                        by (nonlinear_arith)
                        requires
                            0 <= i <= 0xFFFF_FFFF,
                    ;
                }
                cum = cum + seg;
            }
            let point = self.best_run_coords[i];
            let d_to: u64 = current_pos.distance_to(&point);
            if d_to < best_d {
                best_d = d_to;
                best_along = cum;
                proof {
                    best_i = i as int;
                }
            }
            i = i + 1;
        }
        best_along
    }

    /// The pacing status at the given position and elapsed time: `Unknown`
    /// for an empty reference track; otherwise `Behind` exactly when the
    /// banshee's distance at that time exceeds the runner's approximate
    /// distance along the reference path, else `Ahead`.
    pub fn get_pacing_status(&self, current_pos: &Point, elapsed_ms: u64) -> (r: PacingStatus)
        requires
            self.wf(),
            current_pos.wf(),
        ensures
            self.best_run_coords@.len() == 0 <==> r == PacingStatus::Unknown,
            self.best_run_coords@.len() > 0 ==> (r == PacingStatus::Behind <==> spec_banshee_dist_at(
                self.best_run_coords@,
                elapsed_ms as int,
            ) > spec_dist_from_start(self.best_run_coords@, *current_pos)),
            self.best_run_coords@.len() > 0 ==> (r == PacingStatus::Ahead <==> spec_banshee_dist_at(
                self.best_run_coords@,
                elapsed_ms as int,
            ) <= spec_dist_from_start(self.best_run_coords@, *current_pos)),
    {
        if self.best_run_coords.len() == 0 {
            return PacingStatus::Unknown;
        }
        let banshee_distance: u64 = self.get_banshee_distance_at_time(elapsed_ms);
        let current_distance: u64 = self.calculate_distance_from_start(current_pos);
        if banshee_distance > current_distance {
            PacingStatus::Behind
        } else {
            PacingStatus::Ahead
        }
    }

    /// Whether the runner is behind the banshee: the `Behind` case of
    /// `get_pacing_status`.
    pub fn is_behind(&self, current_pos: &Point, elapsed_ms: u64) -> (r: bool)
        requires
            self.wf(),
            current_pos.wf(),
        ensures
            r <==> (self.best_run_coords@.len() > 0 && spec_banshee_dist_at(
                self.best_run_coords@,
                elapsed_ms as int,
            ) > spec_dist_from_start(self.best_run_coords@, *current_pos)),
    {
        let status = self.get_pacing_status(current_pos, elapsed_ms);
        match status {
            PacingStatus::Behind => true,
            _ => false,
        }
    }

    /// The elapsed time minus the banshee's time at the runner's distance:
    /// positive when the runner is behind schedule, 0 for an empty
    /// reference track.
    pub fn get_time_difference_ms(&self, current_pos: &Point, elapsed_ms: u64) -> (r: i64)
        requires
            self.wf(),
            current_pos.wf(),
            elapsed_ms <= 0x7FFF_FFFF_FFFF_FFFF,
            times_fit_i64(self.best_run_coords@),
        ensures
            self.best_run_coords@.len() == 0 ==> r == 0,
            self.best_run_coords@.len() > 0 ==> r == elapsed_ms - spec_banshee_time_at(
                self.best_run_coords@,
                spec_dist_from_start(self.best_run_coords@, *current_pos),
            ),
    {
        let ghost s = self.best_run_coords@;
        let n: usize = self.best_run_coords.len();
        if n == 0 {
            return 0;
        }
        let current_distance: u64 = self.calculate_distance_from_start(current_pos);
        let banshee_time: u64 = self.get_banshee_time_at_distance(current_distance);
        proof {
            lemma_banshee_time_bounds(s, current_distance as int);
        }
        (elapsed_ms as i64) - (banshee_time as i64)
    }
}

/// A found first-reach index lies inside the sequence, reaches the target,
/// and no earlier index from the scan start does.
proof fn lemma_first_cum_ge_props(s: Seq<Point>, d: int, i: nat)
    requires
        spec_first_cum_ge(s, d, i) >= 0,
    ensures
        i <= spec_first_cum_ge(s, d, i) < s.len(),
        spec_pcum(s, spec_first_cum_ge(s, d, i)) >= d,
        forall|j: int| i <= j < spec_first_cum_ge(s, d, i) ==> #[trigger] spec_pcum(s, j) < d,
    decreases s.len() - i,
{
    if i < s.len() && !(spec_pcum(s, i as int) >= d) {
        lemma_first_cum_ge_props(s, d, i + 1);
    }
}

/// The banshee's time at a nonnegative distance is a timestamp of the
/// track or an interpolant between two of them, so it stays inside the
/// range that every timestamp of the track fits.
proof fn lemma_banshee_time_bounds(s: Seq<Point>, d: int)
    requires
        s.len() > 0,
        times_fit_i64(s),
        d >= 0,
    ensures
        0 <= spec_banshee_time_at(s, d) <= 0x7FFF_FFFF_FFFF_FFFF,
{
    let k = spec_first_cum_ge(s, d, 1);
    if k >= 1 {
        lemma_first_cum_ge_props(s, d, 1);
        let seg = spec_pcum(s, k) - spec_pcum(s, k - 1);
        let num = d - spec_pcum(s, k - 1);
        if k == 1 {
            assert(spec_pcum(s, 0) == 0);
        } else {
            assert(spec_pcum(s, k - 1) < d);
        }
        assert(num >= 0);
        if seg > 0 {
            let td = if s[k].timestamp_ms >= s[k - 1].timestamp_ms {
                s[k].timestamp_ms - s[k - 1].timestamp_ms
            } else {
                0int
            };
            assert(num <= seg);
            assert(0 <= td * num / seg <= td) by (nonlinear_arith)
                requires
                    seg > 0,
                    td >= 0,
                    0 <= num <= seg,
            ;
            if s[k].timestamp_ms >= s[k - 1].timestamp_ms {
                assert(s[k - 1].timestamp_ms + td == s[k].timestamp_ms);
            }
        }
    }
}

} // verus!
