//! Pace conversions, pace formatting, fixed-interval splits, and speed
//! estimates.
//!
//! Pace is seconds per kilometer; a duration in milliseconds divided by a
//! distance in meters is exactly that.  Degenerate inputs (zero distance or
//! duration) resolve to a sentinel pace of 0, which the formatter renders as
//! a placeholder.

use vstd::prelude::*;
use vstd::string::StringExecFns;

use crate::fmt::{push_u64, push_u64_pad2, spec_dec, spec_dec2};
use crate::geo::{
    cumulative_distances, haversine_distance_points, spec_cum_dist, spec_seg, spec_total_dist,
    valid_track, GpsPoint, MAX_GEO_DISTANCE, MAX_TRACK_POINTS,
};
use crate::interp::times_sorted;
use crate::trig::{lemma_div_bound, lemma_mul_le, lemma_mul_le_right};

verus! {

/// One fixed-distance segment of a track.
#[derive(Debug, Clone, Copy, PartialEq, Eq, Structural)]
pub struct Split {
    /// Split number, starting at 1.
    pub number: u32,
    /// Distance of this split in meters.
    pub distance_m: u64,
    /// Duration of this split in milliseconds.
    pub duration_ms: u64,
    /// Pace of this split in seconds per kilometer.
    pub pace_sec_per_km: u64,
    /// Distance from the track start at the end of this split.
    pub cumulative_distance_m: u64,
    /// Time from the track start at the end of this split.
    pub cumulative_time_ms: u64,
}

/// Pace in seconds per kilometer; 0 when either input is degenerate.
pub open spec fn spec_calculate_pace(distance_m: int, duration_ms: int) -> int {
    if distance_m <= 0 || duration_ms <= 0 {
        0
    } else {
        duration_ms / distance_m
    }
}

/// Pace in seconds per kilometer from a distance in meters and a duration
/// in milliseconds; 0 for a zero distance or duration.
pub fn calculate_pace(distance_m: u64, duration_ms: u64) -> (r: u64)
    ensures
        r == spec_calculate_pace(distance_m as int, duration_ms as int),
{
    if distance_m == 0 || duration_ms == 0 {
        return 0;
    }
    proof {
        lemma_div_bound(duration_ms as int, u64::MAX as int, distance_m as int);
    }
    duration_ms / distance_m
}

/// Pace in seconds per mile; 0 when either input is degenerate.  One mile
/// is 1609.344 meters.
pub open spec fn spec_calculate_pace_per_mile(distance_m: int, duration_ms: int) -> int {
    if distance_m <= 0 || duration_ms <= 0 {
        0
    } else {
        duration_ms * 1_609_344 / (distance_m * 1_000_000)
    }
}

/// Pace in seconds per mile from a distance in meters and a duration in
/// milliseconds; 0 for a zero distance or duration.
pub fn calculate_pace_per_mile(distance_m: u64, duration_ms: u64) -> (r: u64)
    requires
        duration_ms < 10_000_000_000_000_000,
    ensures
        r == spec_calculate_pace_per_mile(distance_m as int, duration_ms as int),
{
    if distance_m == 0 || duration_ms == 0 {
        return 0;
    }
    proof {
        lemma_mul_le(duration_ms as int, 1_609_344, 10_000_000_000_000_000, 1_609_344);
        lemma_mul_le(distance_m as int, 1_000_000, u64::MAX as int, 1_000_000);
        assert(duration_ms as int * 1_609_344 / (distance_m as int * 1_000_000) <= duration_ms as int
            * 1_609_344 / 1_000_000) by (nonlinear_arith)
            requires
                distance_m >= 1,
        ;
        lemma_div_bound(
            duration_ms as int * 1_609_344,
            10_000_000_000_000_000int * 1_609_344,
            1_000_000,
        );
    }
    let num: u128 = (duration_ms as u128) * 1_609_344;
    let den: u128 = (distance_m as u128) * 1_000_000;
    (num / den) as u64
}

/// `M:SS` for a positive pace in seconds per kilometer, the placeholder
/// `--:--` for the degenerate pace 0.
pub open spec fn spec_format_pace(pace_sec_per_km: int) -> Seq<char> {
    if pace_sec_per_km <= 0 {
        seq!['-', '-', ':', '-', '-']
    } else {
        spec_dec(pace_sec_per_km / 60) + seq![':'] + spec_dec2(pace_sec_per_km % 60)
    }
}

/// Renders a pace in seconds per kilometer as `M:SS`, or `--:--` for the
/// sentinel 0.
pub fn format_pace(pace_sec_per_km: u64) -> (r: String)
    ensures
        r@ == spec_format_pace(pace_sec_per_km as int),
{
    if pace_sec_per_km == 0 {
        let s = String::from_str("--:--");
        proof {
            reveal_strlit("--:--");
        }
        assert(s@ =~= spec_format_pace(0));
        return s;
    }
    proof {
        reveal_strlit(":");
    }
    let mut s = String::new();
    push_u64(&mut s, pace_sec_per_km / 60);
    s.append(":");
    push_u64_pad2(&mut s, pace_sec_per_km % 60);
    assert(s@ =~= spec_format_pace(pace_sec_per_km as int));
    s
}

/// The per-kilometer pace scaled to a mile: `pace * 1.60934`, truncated.
pub open spec fn spec_pace_to_mile(pace_sec_per_km: int) -> int {
    pace_sec_per_km * 160_934 / 100_000
}

/// Renders a per-kilometer pace as `M:SS` per mile.
pub fn format_pace_per_mile(pace_sec_per_km: u64) -> (r: String)
    requires
        pace_sec_per_km < 10_000_000_000_000_000,
    ensures
        r@ == spec_format_pace(spec_pace_to_mile(pace_sec_per_km as int)),
{
    proof {
        lemma_mul_le(pace_sec_per_km as int, 160_934, 10_000_000_000_000_000, 160_934);
        lemma_div_bound(
            pace_sec_per_km as int * 160_934,
            10_000_000_000_000_000int * 160_934,
            100_000,
        );
    }
    let per_mile: u64 = (((pace_sec_per_km as u128) * 160_934) / 100_000) as u64;
    format_pace(per_mile)
}

/// Speed to pace: `1_000_000 / speed`, 0 for a standstill.
pub open spec fn spec_speed_to_pace(speed_mmps: int) -> int {
    if speed_mmps <= 0 {
        0
    } else {
        1_000_000int / speed_mmps
    }
}

/// Converts a speed in millimeters per second to a pace in seconds per
/// kilometer; 0 for zero speed.
pub fn speed_to_pace(speed_mmps: u64) -> (r: u64)
    ensures
        r == spec_speed_to_pace(speed_mmps as int),
{
    if speed_mmps == 0 {
        0
    } else {
        1_000_000 / speed_mmps
    }
}

/// Pace to speed: `1_000_000 / pace`, 0 for the sentinel pace.
pub open spec fn spec_pace_to_speed(pace_sec_per_km: int) -> int {
    if pace_sec_per_km <= 0 {
        0
    } else {
        1_000_000int / pace_sec_per_km
    }
}

/// Converts a pace in seconds per kilometer to a speed in millimeters per
/// second; 0 for the sentinel pace.
pub fn pace_to_speed(pace_sec_per_km: u64) -> (r: u64)
    ensures
        r == spec_pace_to_speed(pace_sec_per_km as int),
{
    if pace_sec_per_km == 0 {
        0
    } else {
        1_000_000 / pace_sec_per_km
    }
}

/// Speed over the last `window_size` points, in millimeters per second:
/// crow-flight distance between the window ends over the elapsed time.
pub open spec fn spec_current_speed(s: Seq<GpsPoint>, window_size: int) -> int {
    if s.len() < 2 {
        0
    } else {
        let start = if window_size >= s.len() {
            0
        } else {
            s.len() - window_size
        };
        if s.len() - start < 2 {
            0
        } else {
            let first = s[start];
            let last = s[s.len() - 1];
            if last.timestamp_ms <= first.timestamp_ms {
                0
            } else {
                spec_seg(first, last) * 1_000_000 / (last.timestamp_ms - first.timestamp_ms)
            }
        }
    }
}

/// Estimates the current speed in millimeters per second from the last
/// `window_size` points; 0 when the window holds fewer than two points or
/// time does not advance across it.
pub fn current_speed(points: &Vec<GpsPoint>, window_size: usize) -> (r: u64)
    requires
        valid_track(points@),
    ensures
        r == spec_current_speed(points@, window_size as int),
{
    let n: usize = points.len();
    if n < 2 {
        return 0;
    }
    let start: usize = if window_size >= n {
        0
    } else {
        n - window_size
    };
    if n - start < 2 {
        return 0;
    }
    let first = points[start];
    let last = points[n - 1];
    if last.timestamp_ms <= first.timestamp_ms {
        return 0;
    }
    let dist: u64 = haversine_distance_points(&first, &last);
    let time_ms: u64 = last.timestamp_ms - first.timestamp_ms;
    proof {
        lemma_mul_le(dist as int, 1_000_000, MAX_GEO_DISTANCE as int, 1_000_000);
        lemma_div_bound(
            dist as int * 1_000_000,
            MAX_GEO_DISTANCE as int * 1_000_000,
            time_ms as int,
        );
    }
    dist * 1_000_000 / time_ms
}

/// Every segment of the track is at most `d` meters long.
pub open spec fn segs_at_most(s: Seq<GpsPoint>, d: int) -> bool {
    forall|j: int|
        1 <= j < s.len() ==> #[trigger] spec_cum_dist(s, j) - spec_cum_dist(s, j - 1) <= d
}

/// The boundary time of a split emitted at point `i`: the time offset at
/// which the track reaches `target` meters, interpolated inside the segment
/// ending at `i`.  A boundary that falls before the segment (because an
/// earlier segment carried several boundaries) snaps to the segment start;
/// a zero-length segment snaps to the time of point `i`.
pub open spec fn spec_split_time(s: Seq<GpsPoint>, i: int, target: int) -> int {
    let cprev = spec_cum_dist(s, i - 1);
    let seg = spec_cum_dist(s, i) - cprev;
    if seg > 0 {
        let numr = if target >= cprev {
            target - cprev
        } else {
            0
        };
        s[i - 1].timestamp_ms - s[0].timestamp_ms + (s[i].timestamp_ms - s[i
            - 1].timestamp_ms) * numr / seg
    } else {
        s[i].timestamp_ms - s[0].timestamp_ms
    }
}

/// The splits emitted from point `i` onward, with `num` the next split
/// number, `target` the next boundary distance and `prev_time` the time of
/// the previous boundary.
pub open spec fn spec_splits_from(
    s: Seq<GpsPoint>,
    d: int,
    i: int,
    num: int,
    target: int,
    prev_time: int,
) -> Seq<Split>
    decreases s.len() - i,
{
    if i < 1 || i >= s.len() {
        Seq::empty()
    } else if spec_cum_dist(s, i) >= target {
        let time = spec_split_time(s, i, target);
        let one = Split {
            number: num as u32,
            distance_m: d as u64,
            duration_ms: (time - prev_time) as u64,
            pace_sec_per_km: spec_calculate_pace(d, time - prev_time) as u64,
            cumulative_distance_m: target as u64,
            cumulative_time_ms: time as u64,
        };
        seq![one] + spec_splits_from(s, d, i + 1, num + 1, target + d, time)
    } else {
        spec_splits_from(s, d, i + 1, num, target, prev_time)
    }
}

/// What `calculate_splits` returns.
pub open spec fn spec_calculate_splits(s: Seq<GpsPoint>, d: int) -> Seq<Split> {
    if s.len() < 2 || d <= 0 || spec_total_dist(s) < d {
        Seq::empty()
    } else {
        spec_splits_from(s, d, 1, 1, d, 0)
    }
}

/// Walks the cumulative-distance array and emits one split at every
/// multiple of `split_distance_m`, interpolating each boundary time inside
/// the segment that crosses it.  A split's duration is the delta between
/// consecutive boundary times, so the splits tile the track without
/// overlap; a trailing partial split is not emitted.
///
/// When every segment is at most one split long, the number of splits is
/// exactly the total distance divided by the split distance.
#[verifier::rlimit(100)]
pub fn calculate_splits(points: &Vec<GpsPoint>, split_distance_m: u64) -> (r: Vec<Split>)
    requires
        valid_track(points@),
        points@.len() <= MAX_TRACK_POINTS,
        times_sorted(points@),
    ensures
        r@ == spec_calculate_splits(points@, split_distance_m as int),
        points@.len() < 2 || split_distance_m == 0 || spec_total_dist(points@)
            < split_distance_m ==> r@.len() == 0,
        forall|k: int|
            0 <= k < r@.len() ==> (#[trigger] r@[k]).number == k + 1 && r@[k].distance_m
                == split_distance_m && r@[k].cumulative_distance_m == (k + 1) * split_distance_m,
        forall|k: int|
            0 <= k < r@.len() ==> (#[trigger] r@[k]).cumulative_time_ms == r@[k].duration_ms + (
            if k == 0 {
                0
            } else {
                r@[k - 1].cumulative_time_ms as int
            }),
        (split_distance_m >= 1 && points@.len() >= 2 && spec_total_dist(points@)
            >= split_distance_m && segs_at_most(points@, split_distance_m as int)) ==> r@.len()
            == spec_total_dist(points@) / (split_distance_m as int),
{
    let ghost s = points@;
    let ghost d_spec = split_distance_m as int;
    let n: usize = points.len();
    if n < 2 || split_distance_m == 0 {
        return Vec::new();
    }
    let cum: Vec<u64> = cumulative_distances(points);
    let total: u64 = cum[n - 1];
    assert(total == spec_total_dist(s));
    if total < split_distance_m {
        return Vec::new();
    }
    let d: u64 = split_distance_m;
    let mut out: Vec<Split> = Vec::new();
    let mut target: u64 = d;
    let mut prev_time: u64 = 0;
    let mut num: u64 = 1;
    let mut i: usize = 1;
    proof {
        assert(out@ + spec_splits_from(s, d_spec, 1, 1, d_spec, 0) =~= spec_splits_from(
            s,
            d_spec,
            1,
            1,
            d_spec,
            0,
        ));
    }
    while i < n
        invariant
            1 <= i <= n,
            num == out@.len() + 1,
            num <= i,
            target == num * d,
            target <= total + d,
            prev_time <= s[i - 1].timestamp_ms - s[0].timestamp_ms,
            out@.len() > 0 ==> prev_time == out@[out@.len() - 1].cumulative_time_ms,
            out@.len() == 0 ==> prev_time == 0,
            out@ + spec_splits_from(s, d_spec, i as int, num as int, target as int, prev_time as int)
                == spec_calculate_splits(s, d_spec),
            forall|k: int|
                0 <= k < out@.len() ==> (#[trigger] out@[k]).number == k + 1 && out@[k].distance_m
                    == d && out@[k].cumulative_distance_m == (k + 1) * d,
            forall|k: int|
                0 <= k < out@.len() ==> (#[trigger] out@[k]).cumulative_time_ms
                    == out@[k].duration_ms + (
                if k == 0 {
                    0
                } else {
                    out@[k - 1].cumulative_time_ms as int
                }),
            out@.len() * d <= total,
            segs_at_most(s, d_spec) ==> spec_cum_dist(s, i - 1) < target,
        decreases n - i,
    {
        assert(cum@[i as int] == spec_cum_dist(s, i as int));
        assert(cum@[i as int - 1] == spec_cum_dist(s, i as int - 1));
        if cum[i] >= target {
            let ghost old_out = out@;
            let cprev: u64 = cum[i - 1];
            let seg: u64 = cum[i] - cprev;
            let time: u64 = if seg > 0 {
                let segt: u64 = points[i].timestamp_ms - points[i - 1].timestamp_ms;
                let numr: u64 = if target >= cprev {
                    target - cprev
                } else {
                    0
                };
                assert(numr <= seg);
                proof {
                    lemma_mul_le(segt as int, numr as int, u64::MAX as int, u64::MAX as int);
                    lemma_mul_le_right(segt as int, numr as int, seg as int);
                    lemma_div_bound(
                        segt as int * numr as int,
                        segt as int * seg as int,
                        seg as int,
                    );
                    crate::trig::lemma_mul_div_cancel(segt as int, seg as int);
                }
                let inc: u64 = ((segt as u128) * (numr as u128) / (seg as u128)) as u64;
                assert(inc <= segt);
                let base: u64 = points[i - 1].timestamp_ms - points[0].timestamp_ms;
                base + inc
            } else {
                points[i].timestamp_ms - points[0].timestamp_ms
            };
            assert(time == spec_split_time(s, i as int, target as int));
            assert(prev_time <= time);
            let dur: u64 = time - prev_time;
            let pace: u64 = calculate_pace(d, dur);
            let split = Split {
                number: num as u32,
                distance_m: d,
                duration_ms: dur,
                pace_sec_per_km: pace,
                cumulative_distance_m: target,
                cumulative_time_ms: time,
            };
            out.push(split);
            proof {
                assert(old_out.push(split) + spec_splits_from(
                    s,
                    d_spec,
                    i as int + 1,
                    num as int + 1,
                    target + d_spec,
                    time as int,
                ) =~= old_out + (seq![split] + spec_splits_from(
                    s,
                    d_spec,
                    i as int + 1,
                    num as int + 1,
                    target + d_spec,
                    time as int,
                )));
                assert(num * d + d == (num + 1) * d) by (nonlinear_arith);
            }
            prev_time = time;
            num = num + 1;
            target = target + d;
            proof {
                if segs_at_most(s, d_spec) {
                    assert(spec_cum_dist(s, i as int) - spec_cum_dist(s, i as int - 1) <= d_spec);
                }
            }
        } else {
            assert(spec_splits_from(s, d_spec, i as int, num as int, target as int, prev_time as int)
                == spec_splits_from(
                s,
                d_spec,
                i as int + 1,
                num as int,
                target as int,
                prev_time as int,
            ));
        }
        i = i + 1;
    }
    proof {
        assert(spec_splits_from(s, d_spec, n as int, num as int, target as int, prev_time as int)
            =~= Seq::<Split>::empty());
        assert(out@ + Seq::<Split>::empty() =~= out@);
        if split_distance_m >= 1 && s.len() >= 2 && spec_total_dist(s) >= split_distance_m
            && segs_at_most(s, d_spec) {
            assert(spec_cum_dist(s, n - 1) < target);
            assert(out@.len() * d_spec <= spec_total_dist(s) < (out@.len() + 1) * d_spec);
            assert(out@.len() == spec_total_dist(s) / d_spec) by (nonlinear_arith)
                requires
                    d_spec >= 1,
                    out@.len() * d_spec <= spec_total_dist(s) < (out@.len() + 1) * d_spec,
            ;
        }
    }
    out
}

} // verus!
