//! The personal-best segment finder: a sliding-window search for the
//! fastest sub-segment covering each standard distance, and the update
//! rule that folds its results into the registry.
//!
//! Both window ends only ever move forward, so the search is linear in the
//! number of points; the exact end time of each window is interpolated
//! inside the segment that crosses the target cumulative distance.

use vstd::prelude::*;
use vstd::string::StringExecFns;

use crate::activity::{
    spec_pace_milli_min, spec_pb_distances, spec_speed_milli_kmh, Activity, ActivityType,
};
use crate::fmt::{push_u64, push_u64_pad2, spec_dec, spec_dec2};
use crate::geo::MAX_GEO_DISTANCE;
use crate::personal_best::{spec_find_pb, PersonalBest, PersonalBests};
use crate::point::{spec_pcum, valid_ptrack, Point};
use crate::trig::{lemma_div_bound, lemma_mul_le, lemma_mul_le_right};

verus! {

/// Tracks longer than this are refused, as in `geo`.
pub const MAX_PB_POINTS: usize = 0xFFFF_FFFF;

/// The best time found for one standard distance.
#[derive(Debug, Clone, Copy, PartialEq, Eq, Structural)]
pub struct SegmentTime {
    /// The target distance in meters.
    pub distance_meters: u64,
    /// The best time to cover this distance, in milliseconds.
    pub time_ms: u64,
    /// Index of the window start in the coordinate array.
    pub start_idx: usize,
    /// Index of the window end in the coordinate array.
    pub end_idx: usize,
}

/// Every timestamp of the sequence is below `bound`.
pub open spec fn times_below(s: Seq<Point>, bound: int) -> bool {
    forall|i: int| 0 <= i < s.len() ==> #[trigger] s[i].timestamp_ms < bound
}

/// The cumulative array agrees with the track (for nonempty tracks), is
/// monotone, and each entry is bounded by its number of segments.
pub open spec fn cum_matches(s: Seq<Point>, c: Seq<u64>) -> bool {
    &&& c.len() == if s.len() == 0 {
        1int
    } else {
        s.len() as int
    }
    &&& forall|i: int| 0 <= i < c.len() ==> #[trigger] c[i] == spec_pcum(s, i)
    &&& forall|i: int, j: int| 0 <= i <= j < c.len() ==> #[trigger] c[i] <= #[trigger] c[j]
    &&& forall|i: int| 0 <= i < c.len() ==> #[trigger] c[i] <= i * MAX_GEO_DISTANCE
}

/// First index at or after `i` whose cumulative distance reaches `tc`
/// through a segment of positive length; `-1` when there is none.
pub open spec fn spec_first_cum_pos(s: Seq<Point>, tc: int, i: nat) -> int
    decreases s.len() - i,
{
    if i >= s.len() {
        -1
    } else if spec_pcum(s, i as int) >= tc && spec_pcum(s, i as int) - spec_pcum(s, i as int - 1)
        > 0 {
        i as int
    } else {
        spec_first_cum_pos(s, tc, i + 1)
    }
}

/// First index at or after `i` whose cumulative distance reaches `tc`;
/// `-1` when there is none.
pub open spec fn spec_first_cum_reach(s: Seq<Point>, tc: int, i: nat) -> int
    decreases s.len() - i,
{
    if i >= s.len() {
        -1
    } else if spec_pcum(s, i as int) >= tc {
        i as int
    } else {
        spec_first_cum_reach(s, tc, i + 1)
    }
}

/// The timestamp at which the track reaches cumulative distance `tc`,
/// interpolated inside the first positive-length segment that crosses it,
/// scanning after `start`; `None` when the track never does.
pub open spec fn spec_interp_time_at(s: Seq<Point>, start: int, tc: int) -> Option<int> {
    let k = spec_first_cum_pos(s, tc, (start + 1) as nat);
    if k >= 1 {
        let seg = spec_pcum(s, k) - spec_pcum(s, k - 1);
        let num = if tc >= spec_pcum(s, k - 1) {
            tc - spec_pcum(s, k - 1)
        } else {
            0
        };
        let td = if s[k].timestamp_ms >= s[k - 1].timestamp_ms {
            s[k].timestamp_ms - s[k - 1].timestamp_ms
        } else {
            0
        };
        Some(s[k - 1].timestamp_ms + td * num / seg)
    } else {
        None
    }
}

/// The best window from `start` onward, carrying the best candidate so
/// far.  The search stops at the first start whose window cannot cover the
/// target any more.
pub open spec fn spec_find_best_from(
    s: Seq<Point>,
    target: int,
    start: int,
    best: Option<SegmentTime>,
) -> Option<SegmentTime>
    decreases s.len() - start,
{
    if start < 0 || start >= s.len() {
        best
    } else {
        let e = spec_first_cum_reach(s, spec_pcum(s, start) + target, 0);
        if e < 0 {
            best
        } else {
            match spec_interp_time_at(s, start, spec_pcum(s, start) + target) {
                None => spec_find_best_from(s, target, start + 1, best),
                Some(et) => {
                    let elapsed = if et >= s[start].timestamp_ms {
                        et - s[start].timestamp_ms
                    } else {
                        0
                    };
                    let better = match best {
                        None => true,
                        Some(b) => elapsed < b.time_ms,
                    };
                    let best2 = if better {
                        Some(
                            SegmentTime {
                                distance_meters: target as u64,
                                time_ms: elapsed as u64,
                                start_idx: start as usize,
                                end_idx: e as usize,
                            },
                        )
                    } else {
                        best
                    };
                    spec_find_best_from(s, target, start + 1, best2)
                },
            }
        }
    }
}

/// What `find_best_segment_time` returns.
pub open spec fn spec_find_best(s: Seq<Point>, target: int) -> Option<SegmentTime> {
    if s.len() < 2 {
        None
    } else if spec_pcum(s, s.len() - 1) < target {
        None
    } else {
        spec_find_best_from(s, target, 0, None)
    }
}

/// The segment times found for the standard distances of `t` from table
/// index `j` on: one entry per standard distance that the activity covers
/// and the window search resolves.
pub open spec fn spec_segment_times_from(
    s: Seq<Point>,
    total: int,
    t: ActivityType,
    j: int,
) -> Seq<SegmentTime>
    decreases spec_pb_distances(t).len() - j,
{
    let table = spec_pb_distances(t);
    if j < 0 || j >= table.len() {
        Seq::empty()
    } else if total >= table[j] {
        match spec_find_best(s, table[j] as int) {
            Some(seg) => seq![seg] + spec_segment_times_from(s, total, t, j + 1),
            None => spec_segment_times_from(s, total, t, j + 1),
        }
    } else {
        spec_segment_times_from(s, total, t, j + 1)
    }
}

/// The record written for one found segment.
pub open spec fn spec_new_pb(
    t: ActivityType,
    seg: SegmentTime,
    id: String,
    achieved_at: u64,
) -> PersonalBest {
    PersonalBest {
        activity_type: t,
        distance_meters: seg.distance_meters,
        time_ms: seg.time_ms,
        activity_id: id,
        achieved_at,
        pace_min_per_km: spec_pace_milli_min(
            seg.distance_meters as int,
            seg.time_ms as int,
        ) as u64,
    }
}

/// Folding the segment results from index `j` on into the registry:
/// a strictly faster time replaces the stored record and is reported, a
/// missing key is added and reported, anything else changes nothing.
pub open spec fn spec_apply_segments(
    recs: Seq<PersonalBest>,
    segs: Seq<SegmentTime>,
    j: int,
    t: ActivityType,
    id: String,
    achieved_at: u64,
) -> (Seq<PersonalBest>, Seq<PersonalBest>)
    decreases segs.len() - j,
{
    if j < 0 || j >= segs.len() {
        (recs, Seq::empty())
    } else {
        let seg = segs[j];
        let f = spec_find_pb(recs, t, seg.distance_meters as int, 0);
        let is_new = f < 0 || seg.time_ms < recs[f].time_ms;
        if is_new {
            let npb = spec_new_pb(t, seg, id, achieved_at);
            let recs2 = if f < 0 {
                recs.push(npb)
            } else {
                recs.update(f, npb)
            };
            let rest = spec_apply_segments(recs2, segs, j + 1, t, id, achieved_at);
            (rest.0, seq![npb] + rest.1)
        } else {
            spec_apply_segments(recs, segs, j + 1, t, id, achieved_at)
        }
    }
}

/// Calculates personal bests with the sliding-window search.
pub struct PBCalculator;

/// A first-reach scan that stopped at `e` with nothing qualifying before
/// it resolves the recursive first-reach index.
proof fn lemma_first_cum_reach_char(s: Seq<Point>, d: int, i: nat, e: int)
    requires
        i <= e <= s.len(),
        forall|j: int| i <= j < e ==> #[trigger] spec_pcum(s, j) < d,
        e < s.len() ==> spec_pcum(s, e) >= d,
    ensures
        spec_first_cum_reach(s, d, i) == if e == s.len() {
            -1int
        } else {
            e
        },
    decreases s.len() - i,
{
    if i < s.len() {
        if spec_pcum(s, i as int) >= d {
            assert(i == e);
        } else {
            lemma_first_cum_reach_char(s, d, i + 1, e);
        }
    }
}

impl PBCalculator {
    /// The cumulative-distance array of a track: entry 0 is zero (also for
    /// an empty track), entry `i` adds the segment ending at point `i`.
    pub fn build_cumulative_distances(points: &Vec<Point>) -> (r: Vec<u64>)
        requires
            valid_ptrack(points@),
            points@.len() <= MAX_PB_POINTS,
        ensures
            cum_matches(points@, r@),
    {
        let mut out: Vec<u64> = Vec::new();
        out.push(0);
        let n: usize = points.len();
        if n == 0 {
            return out;
        }
        let mut i: usize = 1;
        while i < n
            invariant
                1 <= i <= n,
                n == points@.len() <= MAX_PB_POINTS,
                valid_ptrack(points@),
                out@.len() == i,
                forall|j: int| 0 <= j < i ==> #[trigger] out@[j] == spec_pcum(points@, j),
                forall|j: int| 0 <= j < i ==> #[trigger] out@[j] <= j * MAX_GEO_DISTANCE,
                forall|j: int, k: int| 0 <= j <= k < i ==> #[trigger] out@[j] <= #[trigger] out@[k],
            decreases n - i,
        {
            let seg: u64 = points[i - 1].distance_to(&points[i]);
            let prev: u64 = out[i - 1];
            proof {
                assert((i - 1) * MAX_GEO_DISTANCE + MAX_GEO_DISTANCE == i * MAX_GEO_DISTANCE)
                    by (nonlinear_arith);
                assert(i * MAX_GEO_DISTANCE <= 0xFFFF_FFFFint * MAX_GEO_DISTANCE)
                    by (nonlinear_arith)
                    requires
                        0 <= i <= 0xFFFF_FFFF,
                ;
            }
            out.push(prev + seg);
            i = i + 1;
        }
        out
    }

    /// The timestamp at which the track reaches `target_cumulative`,
    /// interpolated inside the first positive-length segment after
    /// `start_idx` that crosses it.
    fn interpolate_time_at_distance(
        points: &Vec<Point>,
        cumulative: &Vec<u64>,
        start_idx: usize,
        target_cumulative: u64,
    ) -> (r: Option<u64>)
        requires
            points@.len() >= 2,
            cum_matches(points@, cumulative@),
            start_idx < points@.len(),
        ensures
            match r {
                Some(t) => spec_interp_time_at(
                    points@,
                    start_idx as int,
                    target_cumulative as int,
                ) == Some(t as int),
                None => spec_interp_time_at(points@, start_idx as int, target_cumulative as int)
                    is None,
            },
            times_below(points@, 10_000_000_000_000_000) && r is Some ==> r.unwrap()
                < 10_000_000_000_000_000,
    {
        let ghost s = points@;
        let ghost tc = target_cumulative as int;
        let n: usize = points.len();
        let mut i: usize = start_idx + 1;
        while i < n
            invariant
                start_idx + 1 <= i <= n,
                n == s.len(),
                points@ == s,
                cum_matches(s, cumulative@),
                spec_first_cum_pos(s, tc, (start_idx + 1) as nat) == spec_first_cum_pos(
                    s,
                    tc,
                    i as nat,
                ),
            decreases n - i,
        {
            assert(cumulative@[i as int] == spec_pcum(s, i as int));
            assert(cumulative@[i as int - 1] == spec_pcum(s, i as int - 1));
            let seg_ok: bool = cumulative[i] >= target_cumulative && cumulative[i] - cumulative[i
                - 1] > 0;
            if seg_ok {
                assert(spec_first_cum_pos(s, tc, i as nat) == i);
                let seg: u64 = cumulative[i] - cumulative[i - 1];
                let prev = points[i - 1];
                let curr = points[i];
                let num: u64 = if target_cumulative >= cumulative[i - 1] {
                    target_cumulative - cumulative[i - 1]
                } else {
                    0
                };
                assert(num <= seg);
                let td: u64 = if curr.timestamp_ms >= prev.timestamp_ms {
                    curr.timestamp_ms - prev.timestamp_ms
                } else {
                    0
                };
                proof {
                    lemma_mul_le(td as int, num as int, u64::MAX as int, u64::MAX as int);
                    lemma_mul_le_right(td as int, num as int, seg as int);
                    lemma_div_bound(td as int * num as int, td as int * seg as int, seg as int);
                    crate::trig::lemma_mul_div_cancel(td as int, seg as int);
                }
                let inc: u64 = ((td as u128) * (num as u128) / (seg as u128)) as u64;
                assert(inc <= td);
                return Some(prev.timestamp_ms + inc);
            }
            assert(spec_first_cum_pos(s, tc, i as nat) == spec_first_cum_pos(s, tc, (i + 1) as nat));
            i = i + 1;
        }
        assert(spec_first_cum_pos(s, tc, (start_idx + 1) as nat) == -1);
        None
    }

    /// The fastest window covering `target_distance_m`: for each start the
    /// end pointer only moves forward, the exact end time is interpolated
    /// at the target cumulative distance, and the minimum elapsed time
    /// wins.  `None` when the whole track is shorter than the target.
    pub fn find_best_segment_time(
        points: &Vec<Point>,
        cumulative: &Vec<u64>,
        target_distance_m: u64,
    ) -> (r: Option<SegmentTime>)
        requires
            points@.len() >= 2 ==> cum_matches(points@, cumulative@),
            points@.len() <= MAX_PB_POINTS,
        ensures
            r == spec_find_best(points@, target_distance_m as int),
            times_below(points@, 10_000_000_000_000_000) && r is Some ==> r.unwrap().time_ms
                < 10_000_000_000_000_000,
    {
        let ghost s = points@;
        let ghost tgt = target_distance_m as int;
        let n: usize = points.len();
        if n < 2 {
            return None;
        }
        let total: u64 = cumulative[n - 1];
        assert(total == spec_pcum(s, n - 1));
        if total < target_distance_m {
            return None;
        }
        let mut best: Option<SegmentTime> = None;
        let mut end: usize = 0;
        let mut start: usize = 0;
        while start < n
            invariant
                0 <= start <= n,
                0 <= end <= n,
                n == s.len() >= 2,
                points@ == s,
                cum_matches(s, cumulative@),
                target_distance_m <= total,
                total == spec_pcum(s, n - 1),
                start < n ==> (forall|j: int|
                    0 <= j < end ==> #[trigger] spec_pcum(s, j) < spec_pcum(s, start as int)
                        + tgt),
                spec_find_best_from(s, tgt, start as int, best) == spec_find_best_from(
                    s,
                    tgt,
                    0,
                    None,
                ),
                times_below(s, 10_000_000_000_000_000) && best is Some ==> best.unwrap().time_ms
                    < 10_000_000_000_000_000,
            decreases n - start,
        {
            assert(cumulative@[start as int] == spec_pcum(s, start as int));
            proof {
                lemma_mul_le(start as int, MAX_GEO_DISTANCE as int, 0xFFFF_FFFF, 20_015_087);
            }
            let tc: u64 = cumulative[start] + target_distance_m;
            while end < n && cumulative[end] < tc
                invariant
                    0 <= end <= n,
                    forall|j: int| 0 <= j < end ==> #[trigger] spec_pcum(s, j) < tc,
                decreases n - end,
            {
                assert(cumulative@[end as int] == spec_pcum(s, end as int));
                end = end + 1;
            }
            proof {
                if end < n {
                    assert(cumulative@[end as int] == spec_pcum(s, end as int));
                }
                lemma_first_cum_reach_char(s, tc as int, 0, end as int);
            }
            if end >= n {
                assert(spec_find_best_from(s, tgt, start as int, best) == best);
                return best;
            }
            let t_opt: Option<u64> = Self::interpolate_time_at_distance(
                points,
                cumulative,
                start,
                tc,
            );
            match t_opt {
                Some(et) => {
                    let start_t: u64 = points[start].timestamp_ms;
                    let elapsed: u64 = if et >= start_t {
                        et - start_t
                    } else {
                        0
                    };
                    let is_better: bool = match best {
                        Some(b) => elapsed < b.time_ms,
                        None => true,
                    };
                    if is_better {
                        best = Some(
                            SegmentTime {
                                distance_meters: target_distance_m,
                                time_ms: elapsed,
                                start_idx: start,
                                end_idx: end,
                            },
                        );
                    }
                },
                None => {},
            }
            proof {
                if start + 1 < n {
                    assert(cumulative@[start as int] == spec_pcum(s, start as int));
                    assert(cumulative@[start as int + 1] == spec_pcum(s, start as int + 1));
                    assert(cumulative@[start as int] <= cumulative@[start as int + 1]);
                }
            }
            start = start + 1;
        }
        best
    }

    /// The best time for every standard distance of the activity's type
    /// that the activity covers, in table order.
    pub fn calculate_segment_times(activity: &Activity) -> (r: Vec<SegmentTime>)
        requires
            activity.wf(),
        ensures
            r@ == spec_segment_times_from(
                activity.coordinates@,
                activity.total_distance_meters as int,
                activity.activity_type,
                0,
            ),
            times_below(activity.coordinates@, 10_000_000_000_000_000) ==> forall|k: int|
                0 <= k < r@.len() ==> (#[trigger] r@[k]).time_ms < 10_000_000_000_000_000,
    {
        let ghost s = activity.coordinates@;
        let ghost t = activity.activity_type;
        let ghost total = activity.total_distance_meters as int;
        let table: Vec<u64> = activity.activity_type.pb_distances();
        let cumulative: Vec<u64> = Self::build_cumulative_distances(&activity.coordinates);
        let mut out: Vec<SegmentTime> = Vec::new();
        let m: usize = table.len();
        let mut j: usize = 0;
        proof {
            assert(out@ + spec_segment_times_from(s, total, t, 0) =~= spec_segment_times_from(
                s,
                total,
                t,
                0,
            ));
        }
        while j < m
            invariant
                0 <= j <= m,
                m == spec_pb_distances(t).len(),
                table@ == spec_pb_distances(t),
                activity.wf(),
                s == activity.coordinates@,
                t == activity.activity_type,
                total == activity.total_distance_meters as int,
                cum_matches(s, cumulative@),
                out@ + spec_segment_times_from(s, total, t, j as int) == spec_segment_times_from(
                    s,
                    total,
                    t,
                    0,
                ),
                times_below(s, 10_000_000_000_000_000) ==> forall|k: int|
                    0 <= k < out@.len() ==> (#[trigger] out@[k]).time_ms < 10_000_000_000_000_000,
            decreases m - j,
        {
            let target: u64 = table[j];
            if activity.total_distance_meters >= target {
                let found: Option<SegmentTime> = Self::find_best_segment_time(
                    &activity.coordinates,
                    &cumulative,
                    target,
                );
                match found {
                    Some(seg) => {
                        let ghost old_out = out@;
                        out.push(seg);
                        proof {
                            assert(old_out.push(seg) + spec_segment_times_from(
                                s,
                                total,
                                t,
                                j + 1,
                            ) =~= old_out + (seq![seg] + spec_segment_times_from(
                                s,
                                total,
                                t,
                                j + 1,
                            )));
                        }
                    },
                    None => {},
                }
            }
            j = j + 1;
        }
        proof {
            assert(out@ + Seq::<SegmentTime>::empty() =~= out@);
        }
        out
    }

    /// Folds the activity's segment results into the registry: a strictly
    /// faster time replaces the stored record and is reported as newly
    /// achieved; ties and slower results change nothing.
    pub fn update_pbs(existing_pbs: &PersonalBests, activity: &Activity) -> (r: (
        PersonalBests,
        Vec<PersonalBest>,
    ))
        requires
            activity.wf(),
            times_below(activity.coordinates@, 10_000_000_000_000_000),
        ensures
            ({
                let segs = spec_segment_times_from(
                    activity.coordinates@,
                    activity.total_distance_meters as int,
                    activity.activity_type,
                    0,
                );
                let applied = spec_apply_segments(
                    existing_pbs.records@,
                    segs,
                    0,
                    activity.activity_type,
                    activity.id,
                    activity.recorded_at,
                );
                r.0.records@ == applied.0 && r.1@ == applied.1
            }),
    {
        let ghost t = activity.activity_type;
        let ghost id = activity.id;
        let ghost at = activity.recorded_at;
        let segment_times: Vec<SegmentTime> = Self::calculate_segment_times(activity);
        let ghost segs = segment_times@;
        let mut new_pbs: PersonalBests = existing_pbs.duplicate();
        let mut achieved: Vec<PersonalBest> = Vec::new();
        let m: usize = segment_times.len();
        let mut j: usize = 0;
        proof {
            let applied = spec_apply_segments(existing_pbs.records@, segs, 0, t, id, at);
            assert(achieved@ + applied.1 =~= applied.1);
        }
        while j < m
            invariant
                0 <= j <= m,
                m == segs.len(),
                segment_times@ == segs,
                t == activity.activity_type,
                id == activity.id,
                at == activity.recorded_at,
                forall|k: int| 0 <= k < segs.len() ==> (#[trigger] segs[k]).time_ms
                    < 10_000_000_000_000_000,
                spec_apply_segments(new_pbs.records@, segs, j as int, t, id, at).0
                    == spec_apply_segments(existing_pbs.records@, segs, 0, t, id, at).0,
                achieved@ + spec_apply_segments(new_pbs.records@, segs, j as int, t, id, at).1
                    == spec_apply_segments(existing_pbs.records@, segs, 0, t, id, at).1,
            decreases m - j,
        {
            let seg: SegmentTime = segment_times[j];
            let ghost recs_before = new_pbs.records@;
            let is_new: bool = match new_pbs.get(activity.activity_type, seg.distance_meters) {
                Some(pb) => seg.time_ms < pb.time_ms,
                None => true,
            };
            if is_new {
                let npb: PersonalBest = PersonalBest::new(
                    activity.activity_type,
                    seg.distance_meters,
                    seg.time_ms,
                    activity.id.clone(),
                    activity.recorded_at,
                );
                assert(npb == spec_new_pb(t, seg, id, at));
                let ghost old_achieved = achieved@;
                achieved.push(npb.duplicate());
                new_pbs.update(npb);
                proof {
                    let rest = spec_apply_segments(new_pbs.records@, segs, j + 1, t, id, at);
                    assert(old_achieved.push(npb) + rest.1 =~= old_achieved + (seq![npb] + rest.1));
                }
            }
            j = j + 1;
        }
        proof {
            assert(achieved@ + Seq::<PersonalBest>::empty() =~= achieved@);
        }
        (new_pbs, achieved)
    }

    /// The personal-best records an activity would set on an empty
    /// registry: one per found segment.
    pub fn calculate_pbs_for_activity(activity: &Activity) -> (r: Vec<PersonalBest>)
        requires
            activity.wf(),
            times_below(activity.coordinates@, 10_000_000_000_000_000),
        ensures
            ({
                let segs = spec_segment_times_from(
                    activity.coordinates@,
                    activity.total_distance_meters as int,
                    activity.activity_type,
                    0,
                );
                &&& r@.len() == segs.len()
                &&& forall|k: int|
                    0 <= k < segs.len() ==> #[trigger] r@[k] == spec_new_pb(
                        activity.activity_type,
                        segs[k],
                        activity.id,
                        activity.recorded_at,
                    )
            }),
    {
        let ghost t = activity.activity_type;
        let ghost id = activity.id;
        let ghost at = activity.recorded_at;
        let segment_times: Vec<SegmentTime> = Self::calculate_segment_times(activity);
        let ghost segs = segment_times@;
        let mut out: Vec<PersonalBest> = Vec::new();
        let m: usize = segment_times.len();
        let mut j: usize = 0;
        while j < m
            invariant
                0 <= j <= m,
                m == segs.len(),
                segment_times@ == segs,
                t == activity.activity_type,
                id == activity.id,
                at == activity.recorded_at,
                forall|k: int| 0 <= k < segs.len() ==> (#[trigger] segs[k]).time_ms
                    < 10_000_000_000_000_000,
                out@.len() == j,
                forall|k: int|
                    0 <= k < j ==> #[trigger] out@[k] == spec_new_pb(t, segs[k], id, at),
            decreases m - j,
        {
            let seg: SegmentTime = segment_times[j];
            let npb: PersonalBest = PersonalBest::new(
                activity.activity_type,
                seg.distance_meters,
                seg.time_ms,
                activity.id.clone(),
                activity.recorded_at,
            );
            out.push(npb);
            j = j + 1;
        }
        out
    }
}

/// `M:SS /km` for a distance and duration, `0:00 /km` when either is zero.
pub open spec fn spec_format_pace_of(distance_m: int, duration_ms: int) -> Seq<char> {
    if distance_m == 0 || duration_ms == 0 {
        seq!['0', ':', '0', '0', ' ', '/', 'k', 'm']
    } else {
        let ts = duration_ms / distance_m;
        spec_dec(ts / 60) + seq![':'] + spec_dec2(ts % 60) + seq![' ', '/', 'k', 'm']
    }
}

/// Renders the average pace over a distance and duration as `M:SS /km`,
/// `0:00 /km` for degenerate inputs.
pub fn format_pace(distance_meters: u64, duration_ms: u64) -> (r: String)
    ensures
        r@ == spec_format_pace_of(distance_meters as int, duration_ms as int),
{
    if distance_meters == 0 || duration_ms == 0 {
        let s = String::from_str("0:00 /km");
        proof {
            reveal_strlit("0:00 /km");
        }
        assert(s@ =~= spec_format_pace_of(distance_meters as int, duration_ms as int));
        return s;
    }
    proof {
        reveal_strlit(":");
        reveal_strlit(" /km");
        lemma_div_bound(duration_ms as int, u64::MAX as int, distance_meters as int);
    }
    let total_seconds: u64 = duration_ms / distance_meters;
    let mut s = String::new();
    push_u64(&mut s, total_seconds / 60);
    s.append(":");
    push_u64_pad2(&mut s, total_seconds % 60);
    s.append(" /km");
    assert(s@ =~= spec_format_pace_of(distance_meters as int, duration_ms as int));
    s
}

/// Average speed in thousandths of a kilometer per hour; 0 for a zero
/// duration.
pub fn calculate_speed_kmh(distance_meters: u64, duration_ms: u64) -> (r: u64)
    requires
        distance_meters < 1_000_000_000_000,
    ensures
        r == spec_speed_milli_kmh(distance_meters as int, duration_ms as int),
{
    if duration_ms == 0 {
        return 0;
    }
    proof {
        lemma_mul_le(distance_meters as int, 3_600_000, 1_000_000_000_000, 3_600_000);
        lemma_div_bound(
            distance_meters as int * 3_600_000,
            1_000_000_000_000int * 3_600_000,
            duration_ms as int,
        );
    }
    let num: u128 = (distance_meters as u128) * 3_600_000;
    (num / (duration_ms as u128)) as u64
}

/// Finding a key in a sequence extended at the end: an existing match is
/// unchanged; otherwise the pushed record is found exactly when it
/// carries the key.
proof fn lemma_find_pb_push(s: Seq<PersonalBest>, pb: PersonalBest, t: ActivityType, d: int, i: nat)
    requires
        i <= s.len(),
    ensures
        spec_find_pb(s.push(pb), t, d, i) == if spec_find_pb(s, t, d, i) >= 0 {
            spec_find_pb(s, t, d, i)
        } else if pb.activity_type == t && pb.distance_meters == d {
            s.len() as int
        } else {
            -1int
        },
    decreases s.len() - i,
{
    let s2 = s.push(pb);
    if i < s.len() {
        assert(s2[i as int] == s[i as int]);
        if !(s[i as int].activity_type == t && s[i as int].distance_meters == d) {
            lemma_find_pb_push(s, pb, t, d, i + 1);
        }
    } else {
        reveal_with_fuel(spec_find_pb, 3);
        assert(s2[i as int] == pb);
    }
}

/// Replacing a record with one of the same key leaves every key lookup
/// unchanged.
proof fn lemma_find_pb_update(
    s: Seq<PersonalBest>,
    f: int,
    pb: PersonalBest,
    t: ActivityType,
    d: int,
    i: nat,
)
    requires
        0 <= f < s.len(),
        s[f].activity_type == pb.activity_type,
        s[f].distance_meters == pb.distance_meters,
    ensures
        spec_find_pb(s.update(f, pb), t, d, i) == spec_find_pb(s, t, d, i),
    decreases s.len() - i,
{
    let s2 = s.update(f, pb);
    if i < s.len() {
        assert(s2[i as int].activity_type == s[i as int].activity_type && s2[i as int].distance_meters
            == s[i as int].distance_meters);
        if !(s[i as int].activity_type == t && s[i as int].distance_meters == d) {
            lemma_find_pb_update(s, f, pb, t, d, i + 1);
        }
    }
}

/// A found registry index lies inside the sequence and matches the key.
proof fn lemma_find_pb_found(s: Seq<PersonalBest>, t: ActivityType, d: int, i: nat)
    requires
        spec_find_pb(s, t, d, i) >= 0,
    ensures
        i <= spec_find_pb(s, t, d, i) < s.len(),
        s[spec_find_pb(s, t, d, i)].activity_type == t,
        s[spec_find_pb(s, t, d, i)].distance_meters == d,
    decreases s.len() - i,
{
    if i < s.len() && !(s[i as int].activity_type == t && s[i as int].distance_meters == d) {
        lemma_find_pb_found(s, t, d, i + 1);
    }
}

/// Folding segment results into a registry never slows a stored record
/// down: any key stored with a time within `bound` is still stored with a
/// time within `bound` afterwards.
pub proof fn lemma_apply_keeps_fast(
    recs: Seq<PersonalBest>,
    segs: Seq<SegmentTime>,
    j: int,
    t: ActivityType,
    id: String,
    achieved_at: u64,
    t0: ActivityType,
    d0: int,
    bound: int,
)
    requires
        spec_find_pb(recs, t0, d0, 0) >= 0,
        recs[spec_find_pb(recs, t0, d0, 0)].time_ms <= bound,
    ensures
        ({
            let r = spec_apply_segments(recs, segs, j, t, id, achieved_at).0;
            &&& spec_find_pb(r, t0, d0, 0) >= 0
            &&& r[spec_find_pb(r, t0, d0, 0)].time_ms <= bound
        }),
    decreases segs.len() - j,
{
    if j < 0 || j >= segs.len() {
    } else {
        let seg = segs[j];
        let f = spec_find_pb(recs, t, seg.distance_meters as int, 0);
        let is_new = f < 0 || seg.time_ms < recs[f].time_ms;
        if is_new {
            let npb = spec_new_pb(t, seg, id, achieved_at);
            let recs2 = if f < 0 {
                recs.push(npb)
            } else {
                recs.update(f, npb)
            };
            let g = spec_find_pb(recs, t0, d0, 0);
            lemma_find_pb_found(recs, t0, d0, 0);
            if f < 0 {
                lemma_find_pb_push(recs, npb, t0, d0, 0);
                assert(spec_find_pb(recs2, t0, d0, 0) == g);
                assert(recs2[g] == recs[g]);
            } else {
                lemma_find_pb_found(recs, t, seg.distance_meters as int, 0);
                lemma_find_pb_update(recs, f, npb, t0, d0, 0);
                assert(spec_find_pb(recs2, t0, d0, 0) == g);
                if t0 == t && d0 == seg.distance_meters as int {
                    assert(g == f);
                    assert(recs2[g] == npb);
                    assert(npb.time_ms < recs[f].time_ms);
                } else {
                    assert(g != f);
                    assert(recs2[g] == recs[g]);
                }
            }
            lemma_apply_keeps_fast(recs2, segs, j + 1, t, id, achieved_at, t0, d0, bound);
        } else {
            lemma_apply_keeps_fast(recs, segs, j + 1, t, id, achieved_at, t0, d0, bound);
        }
    }
}

/// After folding segment results into a registry, every one of those
/// results has a stored record at least as fast as itself.
proof fn lemma_apply_covers(
    recs: Seq<PersonalBest>,
    segs: Seq<SegmentTime>,
    j: int,
    t: ActivityType,
    id: String,
    achieved_at: u64,
)
    requires
        0 <= j,
    ensures
        ({
            let r = spec_apply_segments(recs, segs, j, t, id, achieved_at).0;
            forall|k: int|
                j <= k < segs.len() ==> {
                    let f = spec_find_pb(r, t, (#[trigger] segs[k]).distance_meters as int, 0);
                    f >= 0 && r[f].time_ms <= segs[k].time_ms
                }
        }),
    decreases segs.len() - j,
{
    if j >= segs.len() {
    } else {
        let seg = segs[j];
        let f = spec_find_pb(recs, t, seg.distance_meters as int, 0);
        let is_new = f < 0 || seg.time_ms < recs[f].time_ms;
        let recs2 = if is_new {
            let npb = spec_new_pb(t, seg, id, achieved_at);
            if f < 0 {
                recs.push(npb)
            } else {
                recs.update(f, npb)
            }
        } else {
            recs
        };
        lemma_apply_covers(recs2, segs, j + 1, t, id, achieved_at);
        let r = spec_apply_segments(recs, segs, j, t, id, achieved_at).0;
        assert(r == spec_apply_segments(recs2, segs, j + 1, t, id, achieved_at).0);
        if is_new {
            let npb = spec_new_pb(t, seg, id, achieved_at);
            if f < 0 {
                lemma_find_pb_push(recs, npb, t, seg.distance_meters as int, 0);
                assert(spec_find_pb(recs2, t, seg.distance_meters as int, 0) == recs.len());
                assert(recs2[recs.len() as int].time_ms == seg.time_ms);
            } else {
                lemma_find_pb_found(recs, t, seg.distance_meters as int, 0);
                lemma_find_pb_update(recs, f, npb, t, seg.distance_meters as int, 0);
                assert(spec_find_pb(recs2, t, seg.distance_meters as int, 0) == f);
                assert(recs2[f].time_ms == seg.time_ms);
            }
        } else {
            lemma_find_pb_found(recs, t, seg.distance_meters as int, 0);
        }
        let g2 = spec_find_pb(recs2, t, seg.distance_meters as int, 0);
        assert(g2 >= 0 && recs2[g2].time_ms <= seg.time_ms);
        lemma_apply_keeps_fast(
            recs2,
            segs,
            j + 1,
            t,
            id,
            achieved_at,
            t,
            seg.distance_meters as int,
            seg.time_ms as int,
        );
    }
}

/// A registry that already stores a record at least as fast as every
/// segment result is left untouched by folding them in, and nothing is
/// reported as newly achieved.
proof fn lemma_apply_noop(
    recs: Seq<PersonalBest>,
    segs: Seq<SegmentTime>,
    j: int,
    t: ActivityType,
    id: String,
    achieved_at: u64,
)
    requires
        0 <= j,
        forall|k: int|
            j <= k < segs.len() ==> {
                let f = spec_find_pb(recs, t, (#[trigger] segs[k]).distance_meters as int, 0);
                f >= 0 && recs[f].time_ms <= segs[k].time_ms
            },
    ensures
        spec_apply_segments(recs, segs, j, t, id, achieved_at) == (recs, Seq::<
            PersonalBest,
        >::empty()),
    decreases segs.len() - j,
{
    if j < segs.len() {
        assert(spec_find_pb(recs, t, segs[j].distance_meters as int, 0) >= 0);
        lemma_apply_noop(recs, segs, j + 1, t, id, achieved_at);
    }
}

/// Folding the same segment results into a registry twice changes nothing
/// the second time, and reports no newly achieved record: the update rule
/// is monotone, and a second identical activity can never improve on the
/// first.
pub proof fn lemma_update_pbs_idempotent(
    recs: Seq<PersonalBest>,
    segs: Seq<SegmentTime>,
    t: ActivityType,
    id: String,
    achieved_at: u64,
)
    ensures
        ({
            let once = spec_apply_segments(recs, segs, 0, t, id, achieved_at).0;
            spec_apply_segments(once, segs, 0, t, id, achieved_at) == (once, Seq::<
                PersonalBest,
            >::empty())
        }),
{
    lemma_apply_covers(recs, segs, 0, t, id, achieved_at);
    let once = spec_apply_segments(recs, segs, 0, t, id, achieved_at).0;
    lemma_apply_noop(once, segs, 0, t, id, achieved_at);
}

/// Cumulative distances grow linearly: segment `i` always adds `d`.
pub open spec fn uniform_cum(s: Seq<Point>, d: int) -> bool {
    forall|i: int| 0 <= i < s.len() ==> #[trigger] spec_pcum(s, i) == i * d
}

/// Timestamps grow linearly: point `i` is `i` steps of `st` after the
/// start.
pub open spec fn uniform_times(s: Seq<Point>, st: int) -> bool {
    forall|i: int|
        0 <= i < s.len() ==> (#[trigger] s[i]).timestamp_ms == s[0].timestamp_ms + i * st
}

/// A first positive-reach scan that stopped at `e` with nothing
/// qualifying before it resolves the recursive index.
proof fn lemma_first_cum_pos_char(s: Seq<Point>, tc: int, i: nat, e: int)
    requires
        i <= e <= s.len(),
        forall|j: int|
            i <= j < e ==> !(#[trigger] spec_pcum(s, j) >= tc && spec_pcum(s, j) - spec_pcum(
                s,
                j - 1,
            ) > 0),
        e < s.len() ==> (spec_pcum(s, e) >= tc && spec_pcum(s, e) - spec_pcum(s, e - 1) > 0),
    ensures
        spec_first_cum_pos(s, tc, i) == if e == s.len() {
            -1int
        } else {
            e
        },
    decreases s.len() - i,
{
    if i < s.len() {
        if spec_pcum(s, i as int) >= tc && spec_pcum(s, i as int) - spec_pcum(s, i as int - 1)
            > 0 {
            assert(i == e);
        } else {
            lemma_first_cum_pos_char(s, tc, i + 1, e);
        }
    }
}

/// The elapsed time of the window starting at `start` on a uniform
/// track: always `target * st / d`.
proof fn lemma_uniform_window(s: Seq<Point>, d: int, st: int, target: int, start: int)
    requires
        s.len() >= 2,
        1 <= d,
        1 <= st,
        uniform_cum(s, d),
        uniform_times(s, st),
        1 <= target,
        0 <= start < s.len(),
        start + (target + d - 1) / d < s.len(),
    ensures
        ({
            let tc = spec_pcum(s, start) + target;
            let e = start + (target + d - 1) / d;
            &&& spec_first_cum_reach(s, tc, 0) == e
            &&& spec_interp_time_at(s, start, tc) matches Some(et) && et
                >= s[start].timestamp_ms && et - s[start].timestamp_ms == target * st / d && et
                <= s[e].timestamp_ms
        }),
{
    let tc = spec_pcum(s, start) + target;
    let q = (target + d - 1) / d;
    let e = start + q;
    assert(spec_pcum(s, start) == start * d);
    assert(1 <= q && (q - 1) * d < target <= q * d) by (nonlinear_arith)
        requires
            d >= 1,
            target >= 1,
            q == (target + d - 1) / d,
    ;
    assert(spec_pcum(s, e) == e * d);
    assert(spec_pcum(s, e - 1) == (e - 1) * d);
    assert(e * d >= tc && (e - 1) * d < tc) by (nonlinear_arith)
        requires
            tc == start * d + target,
            (q - 1) * d < target <= q * d,
            e == start + q,
    ;
    assert forall|j: int| 0 <= j < e && j < s.len() implies !(#[trigger] spec_pcum(s, j)
        >= tc) by {
        assert(spec_pcum(s, j) == j * d);
        assert(j * d <= (e - 1) * d) by (nonlinear_arith)
            requires
                j <= e - 1,
                d >= 1,
        ;
    }
    lemma_first_cum_reach_char(s, tc, 0, e);
    assert(spec_pcum(s, e) - spec_pcum(s, e - 1) == d) by (nonlinear_arith)
        requires
            spec_pcum(s, e) == e * d,
            spec_pcum(s, e - 1) == (e - 1) * d,
    ;
    lemma_first_cum_pos_char(s, tc, (start + 1) as nat, e);
    assert(spec_first_cum_pos(s, tc, (start + 1) as nat) == e);
    let num = tc - spec_pcum(s, e - 1);
    assert(num == target - (q - 1) * d) by (nonlinear_arith)
        requires
            num == tc - (e - 1) * d,
            tc == start * d + target,
            e == start + q,
            spec_pcum(s, e - 1) == (e - 1) * d,
    ;
    assert(0 < num <= d);
    assert(s[e].timestamp_ms == s[0].timestamp_ms + e * st);
    assert(s[e - 1].timestamp_ms == s[0].timestamp_ms + (e - 1) * st);
    assert(s[start].timestamp_ms == s[0].timestamp_ms + start * st);
    assert(s[e].timestamp_ms - s[e - 1].timestamp_ms == st) by (nonlinear_arith)
        requires
            s[e].timestamp_ms == s[0].timestamp_ms + e * st,
            s[e - 1].timestamp_ms == s[0].timestamp_ms + (e - 1) * st,
    ;
    let et = spec_interp_time_at(s, start, tc).unwrap();
    assert(et == s[e - 1].timestamp_ms + st * num / d);
    assert(0 <= st * num / d <= st) by (nonlinear_arith)
        requires
            0 < num <= d,
            1 <= st,
            1 <= d,
    ;
    assert(s[e - 1].timestamp_ms >= s[start].timestamp_ms) by (nonlinear_arith)
        requires
            s[e - 1].timestamp_ms == s[0].timestamp_ms + (e - 1) * st,
            s[start].timestamp_ms == s[0].timestamp_ms + start * st,
            start <= e - 1,
            st >= 1,
    ;
    assert(et - s[start].timestamp_ms == (q - 1) * st + st * num / d) by (nonlinear_arith)
        requires
            et == s[e - 1].timestamp_ms + st * num / d,
            s[e - 1].timestamp_ms == s[0].timestamp_ms + (e - 1) * st,
            s[start].timestamp_ms == s[0].timestamp_ms + start * st,
            e == start + q,
    ;
    assert((q - 1) * st + st * num / d == target * st / d) by (nonlinear_arith)
        requires
            num == target - (q - 1) * d,
            0 < num <= d,
            1 <= st,
            1 <= d,
            1 <= q,
    ;
    assert(et <= s[e].timestamp_ms) by (nonlinear_arith)
        requires
            et == s[e - 1].timestamp_ms + st * num / d,
            st * num / d <= st,
            s[e].timestamp_ms == s[0].timestamp_ms + e * st,
            s[e - 1].timestamp_ms == s[0].timestamp_ms + (e - 1) * st,
    ;
}

/// On a uniform track every window start yields the same elapsed time,
/// so a best candidate with that time is never displaced.
proof fn lemma_find_best_from_uniform(
    s: Seq<Point>,
    d: int,
    st: int,
    target: int,
    start: int,
    best: Option<SegmentTime>,
)
    requires
        s.len() >= 2,
        1 <= d,
        1 <= st,
        uniform_cum(s, d),
        uniform_times(s, st),
        1 <= target,
        0 <= start,
        best matches Some(b) && b.time_ms == target * st / d,
    ensures
        spec_find_best_from(s, target, start, best) == best,
    decreases s.len() - start,
{
    if start >= s.len() {
    } else {
        let tc = spec_pcum(s, start) + target;
        let q = (target + d - 1) / d;
        let e = start + q;
        assert(spec_pcum(s, start) == start * d);
        assert(1 <= q && (q - 1) * d < target <= q * d) by (nonlinear_arith)
            requires
                d >= 1,
                target >= 1,
                q == (target + d - 1) / d,
        ;
        if e >= s.len() {
            assert(e * d >= tc && (e - 1) * d < tc) by (nonlinear_arith)
                requires
                    tc == start * d + target,
                    (q - 1) * d < target <= q * d,
                    e == start + q,
            ;
            assert forall|j: int| 0 <= j < s.len() implies !(#[trigger] spec_pcum(s, j)
                >= tc) by {
                assert(spec_pcum(s, j) == j * d);
                assert(j * d <= (e - 1) * d) by (nonlinear_arith)
                    requires
                        j <= e - 1,
                        d >= 1,
                ;
            }
            lemma_first_cum_reach_char(s, tc, 0, s.len() as int);
            assert(spec_first_cum_reach(s, tc, 0) == -1);
        } else {
            lemma_uniform_window(s, d, st, target, start);
            let et = spec_interp_time_at(s, start, tc).unwrap();
            let elapsed = et - s[start].timestamp_ms;
            assert(elapsed == target * st / d);
            let b = best.unwrap();
            assert(!(elapsed < b.time_ms));
            lemma_find_best_from_uniform(s, d, st, target, start + 1, best);
        }
    }
}

/// Sliding-window search on a track of uniform speed: the best time for a
/// covered target distance is exactly that distance at the track's pace,
/// `target * st / d` milliseconds for `st` milliseconds per `d` meters.
pub proof fn lemma_find_best_uniform(s: Seq<Point>, d: int, st: int, target: int)
    requires
        s.len() >= 2,
        1 <= d,
        1 <= st,
        uniform_cum(s, d),
        uniform_times(s, st),
        1 <= target <= (s.len() - 1) * d,
    ensures
        spec_find_best(s, target) matches Some(seg) && seg.time_ms == target * st / d,
{
    let q = (target + d - 1) / d;
    assert(1 <= q && (q - 1) * d < target <= q * d) by (nonlinear_arith)
        requires
            d >= 1,
            target >= 1,
            q == (target + d - 1) / d,
    ;
    assert(q <= s.len() - 1) by (nonlinear_arith)
        requires
            (q - 1) * d < target,
            target <= (s.len() - 1) * d,
            d >= 1,
    ;
    lemma_uniform_window(s, d, st, target, 0);
    assert(spec_pcum(s, 0) == 0int * d);
    assert(0int * d == 0) by (nonlinear_arith);
    let tc = spec_pcum(s, 0) + target;
    let et = spec_interp_time_at(s, 0, tc).unwrap();
    let elapsed = et - s[0].timestamp_ms;
    assert(elapsed == target * st / d);
    assert(et <= s[0int + q].timestamp_ms);
    assert(0 <= elapsed < 0x1_0000_0000_0000_0000);
    let candidate = SegmentTime {
        distance_meters: target as u64,
        time_ms: elapsed as u64,
        start_idx: 0 as usize,
        end_idx: (0 + q) as usize,
    };
    assert(spec_find_best_from(s, target, 0, None) == spec_find_best_from(
        s,
        target,
        1,
        Some(candidate),
    ));
    assert(candidate.time_ms == target * st / d);
    lemma_find_best_from_uniform(s, d, st, target, 1, Some(candidate));
    assert(spec_pcum(s, s.len() - 1) == (s.len() - 1) * d);
}

/// An activity shorter than the smallest standard distance of its type
/// yields no segment results at all.
pub proof fn lemma_segment_times_below_min(s: Seq<Point>, total: int, t: ActivityType, j: int)
    requires
        0 <= j,
        total < spec_pb_distances(t)[0],
    ensures
        spec_segment_times_from(s, total, t, j) == Seq::<SegmentTime>::empty(),
    decreases spec_pb_distances(t).len() - j,
{
    let table = spec_pb_distances(t);
    if j < table.len() {
        assert(table[0] <= table[j]);
        lemma_segment_times_below_min(s, total, t, j + 1);
    }
}

} // verus!
