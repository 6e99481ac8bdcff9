//! Interpolation of a position or a time along a track.
//!
//! All four lookups share one bracketing scheme: a linear scan for the first
//! segment whose key interval (timestamps, or cumulative distances) contains
//! the target, followed by a linear interpolation inside that segment.  The
//! scan is linear on purpose: monotonicity of the key is a documented
//! precondition of the time-based lookups, not something the engine enforces,
//! and with corrupt data the first qualifying bracket wins.

use vstd::prelude::*;

use crate::geo::{
    cumulative_distances, spec_cum_dist, spec_seg, spec_total_dist, total_distance, valid_track,
    GpsPoint, MAX_TRACK_POINTS,
};
use crate::trig::{lemma_div_bound, lemma_mul_le, lemma_mul_le_right};

verus! {

/// Timestamps never decrease along the track.  Interpolation results are
/// only meaningful under this precondition; see the module comment.
pub open spec fn times_sorted(s: Seq<GpsPoint>) -> bool {
    forall|i: int, j: int|
        0 <= i <= j < s.len() ==> #[trigger] s[i].timestamp_ms <= #[trigger] s[j].timestamp_ms
}

/// Timestamps strictly increase along the track.
pub open spec fn times_strict(s: Seq<GpsPoint>) -> bool {
    forall|i: int, j: int|
        0 <= i < j < s.len() ==> #[trigger] s[i].timestamp_ms < #[trigger] s[j].timestamp_ms
}

/// Linear interpolation between `a` and `b` at fraction `num / den`,
/// evaluated without leaving the integers.
pub open spec fn spec_lerp(a: int, b: int, num: int, den: int) -> int {
    if b >= a {
        a + (b - a) * num / den
    } else {
        a - (a - b) * num / den
    }
}

/// The interpolant lies between its endpoints, and meets them at the ends of
/// the fraction range.
pub proof fn lemma_lerp_between(a: int, b: int, num: int, den: int)
    by (nonlinear_arith)
    requires
        0 <= num <= den,
        1 <= den,
    ensures
        a <= b ==> a <= spec_lerp(a, b, num, den) <= b,
        b <= a ==> b <= spec_lerp(a, b, num, den) <= a,
        num == 0 ==> spec_lerp(a, b, num, den) == a,
        num == den ==> spec_lerp(a, b, num, den) == b,
{
}

pub(crate) fn lerp_i64(a: i64, b: i64, num: u64, den: u64) -> (r: i64)
    requires
        num <= den,
        1 <= den,
    ensures
        r == spec_lerp(a as int, b as int, num as int, den as int),
{
    proof {
        lemma_lerp_between(a as int, b as int, num as int, den as int);
    }
    if b >= a {
        let delta: u128 = ((b as i128) - (a as i128)) as u128;
        proof {
            lemma_mul_le(delta as int, num as int, u64::MAX as int, u64::MAX as int);
            lemma_mul_le_right(delta as int, num as int, den as int);
            lemma_div_bound(delta as int * num as int, delta as int * den as int, den as int);
            crate::trig::lemma_mul_div_cancel(delta as int, den as int);
        }
        let add: u128 = delta * (num as u128) / (den as u128);
        assert(add <= delta);
        ((a as i128) + (add as i128)) as i64
    } else {
        let delta: u128 = ((a as i128) - (b as i128)) as u128;
        proof {
            lemma_mul_le(delta as int, num as int, u64::MAX as int, u64::MAX as int);
            lemma_mul_le_right(delta as int, num as int, den as int);
            lemma_div_bound(delta as int * num as int, delta as int * den as int, den as int);
            crate::trig::lemma_mul_div_cancel(delta as int, den as int);
        }
        let sub: u128 = delta * (num as u128) / (den as u128);
        assert(sub <= delta);
        ((a as i128) - (sub as i128)) as i64
    }
}

pub(crate) fn lerp_u64(a: u64, b: u64, num: u64, den: u64) -> (r: u64)
    requires
        num <= den,
        1 <= den,
    ensures
        r == spec_lerp(a as int, b as int, num as int, den as int),
{
    proof {
        lemma_lerp_between(a as int, b as int, num as int, den as int);
    }
    if b >= a {
        let delta: u128 = (b - a) as u128;
        proof {
            lemma_mul_le(delta as int, num as int, u64::MAX as int, u64::MAX as int);
            lemma_mul_le_right(delta as int, num as int, den as int);
            lemma_div_bound(delta as int * num as int, delta as int * den as int, den as int);
            crate::trig::lemma_mul_div_cancel(delta as int, den as int);
        }
        let add: u128 = delta * (num as u128) / (den as u128);
        assert(add <= delta);
        a + (add as u64)
    } else {
        let delta: u128 = (a - b) as u128;
        proof {
            lemma_mul_le(delta as int, num as int, u64::MAX as int, u64::MAX as int);
            lemma_mul_le_right(delta as int, num as int, den as int);
            lemma_div_bound(delta as int * num as int, delta as int * den as int, den as int);
            crate::trig::lemma_mul_div_cancel(delta as int, den as int);
        }
        let sub: u128 = delta * (num as u128) / (den as u128);
        assert(sub <= delta);
        a - (sub as u64)
    }
}

pub open spec fn spec_lerp_opt_i64(a: Option<i64>, b: Option<i64>, num: int, den: int) -> Option<
    i64,
> {
    match (a, b) {
        (Some(x), Some(y)) => Some(spec_lerp(x as int, y as int, num, den) as i64),
        (Some(x), None) => Some(x),
        (None, Some(y)) => Some(y),
        (None, None) => None,
    }
}

pub open spec fn spec_lerp_opt_u64(a: Option<u64>, b: Option<u64>, num: int, den: int) -> Option<
    u64,
> {
    match (a, b) {
        (Some(x), Some(y)) => Some(spec_lerp(x as int, y as int, num, den) as u64),
        (Some(x), None) => Some(x),
        (None, Some(y)) => Some(y),
        (None, None) => None,
    }
}

/// Pointwise interpolation of every interpolatable field; the accuracy of
/// the first point is kept.
pub open spec fn spec_lerp_point(p1: GpsPoint, p2: GpsPoint, num: int, den: int) -> GpsPoint {
    GpsPoint {
        lat_udeg: spec_lerp(p1.lat_udeg as int, p2.lat_udeg as int, num, den) as i64,
        lon_udeg: spec_lerp(p1.lon_udeg as int, p2.lon_udeg as int, num, den) as i64,
        timestamp_ms: spec_lerp(p1.timestamp_ms as int, p2.timestamp_ms as int, num, den) as u64,
        altitude_cm: spec_lerp_opt_i64(p1.altitude_cm, p2.altitude_cm, num, den),
        accuracy_cm: p1.accuracy_cm,
        speed_mmps: spec_lerp_opt_u64(p1.speed_mmps, p2.speed_mmps, num, den),
    }
}

fn interpolate_by_fraction(p1: &GpsPoint, p2: &GpsPoint, num: u64, den: u64) -> (r: GpsPoint)
    requires
        num <= den,
        1 <= den,
    ensures
        r == spec_lerp_point(*p1, *p2, num as int, den as int),
{
    proof {
        lemma_lerp_between(p1.lat_udeg as int, p2.lat_udeg as int, num as int, den as int);
        lemma_lerp_between(p1.lon_udeg as int, p2.lon_udeg as int, num as int, den as int);
        lemma_lerp_between(p1.timestamp_ms as int, p2.timestamp_ms as int, num as int, den as int);
    }
    let altitude_cm: Option<i64> = match (p1.altitude_cm, p2.altitude_cm) {
        (Some(x), Some(y)) => Some(lerp_i64(x, y, num, den)),
        (Some(x), None) => Some(x),
        (None, Some(y)) => Some(y),
        (None, None) => None,
    };
    let speed_mmps: Option<u64> = match (p1.speed_mmps, p2.speed_mmps) {
        (Some(x), Some(y)) => Some(lerp_u64(x, y, num, den)),
        (Some(x), None) => Some(x),
        (None, Some(y)) => Some(y),
        (None, None) => None,
    };
    GpsPoint {
        lat_udeg: lerp_i64(p1.lat_udeg, p2.lat_udeg, num, den),
        lon_udeg: lerp_i64(p1.lon_udeg, p2.lon_udeg, num, den),
        timestamp_ms: lerp_u64(p1.timestamp_ms, p2.timestamp_ms, num, den),
        altitude_cm,
        accuracy_cm: p1.accuracy_cm,
        speed_mmps,
    }
}

/// Interpolation between two points at an absolute target time, with the
/// fraction clamped into the segment; a non-advancing segment yields its
/// start point.
pub open spec fn spec_interp_between(p1: GpsPoint, p2: GpsPoint, target: int) -> GpsPoint {
    if p2.timestamp_ms <= p1.timestamp_ms {
        p1
    } else {
        let den = p2.timestamp_ms - p1.timestamp_ms;
        let num = if target <= p1.timestamp_ms {
            0
        } else if target >= p2.timestamp_ms {
            den as int
        } else {
            target - p1.timestamp_ms
        };
        spec_lerp_point(p1, p2, num, den as int)
    }
}

fn interpolate_between(p1: &GpsPoint, p2: &GpsPoint, target_ms: u64) -> (r: GpsPoint)
    ensures
        r == spec_interp_between(*p1, *p2, target_ms as int),
{
    if p2.timestamp_ms <= p1.timestamp_ms {
        *p1
    } else {
        let den: u64 = p2.timestamp_ms - p1.timestamp_ms;
        let num: u64 = if target_ms <= p1.timestamp_ms {
            0
        } else if target_ms >= p2.timestamp_ms {
            den
        } else {
            target_ms - p1.timestamp_ms
        };
        interpolate_by_fraction(p1, p2, num, den)
    }
}

/// Index of the first segment whose timestamps contain `target`, scanning
/// from `i`; `-1` when no segment qualifies.
pub open spec fn spec_time_bracket_from(s: Seq<GpsPoint>, target: int, i: nat) -> int
    decreases s.len() - i,
{
    if i + 1 >= s.len() {
        -1
    } else if s[i as int].timestamp_ms <= target <= s[i as int + 1].timestamp_ms {
        i as int
    } else {
        spec_time_bracket_from(s, target, i + 1)
    }
}

pub open spec fn spec_time_bracket(s: Seq<GpsPoint>, target: int) -> int {
    spec_time_bracket_from(s, target, 0)
}

/// What `interpolate_position` returns: the first-bracket interpolant, the
/// last point past the end, the first point otherwise.
pub open spec fn spec_interpolate_position(s: Seq<GpsPoint>, elapsed_ms: int) -> Option<GpsPoint> {
    if s.len() == 0 {
        None
    } else if s.len() == 1 {
        Some(s[0])
    } else {
        let target = s[0].timestamp_ms + elapsed_ms;
        let b = spec_time_bracket(s, target);
        if b >= 0 {
            Some(spec_interp_between(s[b], s[b + 1], target))
        } else if elapsed_ms > 0 {
            Some(s[s.len() - 1])
        } else {
            Some(s[0])
        }
    }
}

/// Position along the track after `elapsed_ms` milliseconds, by linear
/// interpolation between the first pair of samples whose timestamps bracket
/// the target instant.
pub fn interpolate_position(points: &Vec<GpsPoint>, elapsed_ms: i64) -> (r: Option<GpsPoint>)
    ensures
        r == spec_interpolate_position(points@, elapsed_ms as int),
        r is None <==> points@.len() == 0,
{
    let ghost s = points@;
    if points.len() == 0 {
        return None;
    }
    if points.len() == 1 {
        return Some(points[0]);
    }
    let n: usize = points.len();
    let target: i128 = (points[0].timestamp_ms as i128) + (elapsed_ms as i128);
    let ghost tg = s[0].timestamp_ms + elapsed_ms;
    let mut i: usize = 0;
    while i + 1 < n
        invariant
            0 <= i <= n - 1,
            n == s.len() >= 2,
            points@ == s,
            target == tg,
            spec_time_bracket(s, tg) == spec_time_bracket_from(s, tg, i as nat),
        decreases n - i,
    {
        let inside: bool = (points[i].timestamp_ms as i128) <= target && target <= (points[i
            + 1].timestamp_ms as i128);
        if inside {
            assert(spec_time_bracket_from(s, tg, i as nat) == i);
            assert(0 <= tg <= u64::MAX);
            let t_in_seg: u64 = target as u64;
            assert(t_in_seg as int == tg);
            let r = interpolate_between(&points[i], &points[i + 1], t_in_seg);
            return Some(r);
        }
        assert(spec_time_bracket_from(s, tg, i as nat) == spec_time_bracket_from(
            s,
            tg,
            (i + 1) as nat,
        ));
        i = i + 1;
    }
    assert(spec_time_bracket(s, tg) == -1);
    if elapsed_ms > 0 {
        Some(points[n - 1])
    } else {
        Some(points[0])
    }
}

/// Index of the first segment whose cumulative distances contain `target`,
/// scanning from `i`; `-1` when no segment qualifies.
pub open spec fn spec_dist_bracket_from(s: Seq<GpsPoint>, target: int, i: nat) -> int
    decreases s.len() - i,
{
    if i + 1 >= s.len() {
        -1
    } else if spec_cum_dist(s, i as int) <= target <= spec_cum_dist(s, i as int + 1) {
        i as int
    } else {
        spec_dist_bracket_from(s, target, i + 1)
    }
}

pub open spec fn spec_dist_bracket(s: Seq<GpsPoint>, target: int) -> int {
    spec_dist_bracket_from(s, target, 0)
}

/// What `interpolate_position_at_distance` returns.
pub open spec fn spec_interpolate_at_distance(s: Seq<GpsPoint>, d: int) -> Option<GpsPoint> {
    if s.len() == 0 {
        None
    } else if s.len() == 1 || d <= 0 {
        Some(s[0])
    } else if d >= spec_total_dist(s) {
        Some(s[s.len() - 1])
    } else {
        let b = spec_dist_bracket(s, d);
        if b >= 0 {
            let seg = spec_cum_dist(s, b + 1) - spec_cum_dist(s, b);
            if seg == 0 {
                Some(s[b])
            } else {
                Some(spec_lerp_point(s[b], s[b + 1], d - spec_cum_dist(s, b), seg))
            }
        } else {
            Some(s[s.len() - 1])
        }
    }
}

/// Position along the track at a given distance from its start, bracketing
/// on the cumulative-distance array; a zero-length segment snaps to its
/// start point.
#[verifier::rlimit(80)]
pub fn interpolate_position_at_distance(points: &Vec<GpsPoint>, distance_m: u64) -> (r: Option<
    GpsPoint,
>)
    requires
        valid_track(points@),
        points@.len() <= MAX_TRACK_POINTS,
    ensures
        r == spec_interpolate_at_distance(points@, distance_m as int),
        r is None <==> points@.len() == 0,
{
    let ghost s = points@;
    if points.len() == 0 {
        return None;
    }
    if points.len() == 1 || distance_m == 0 {
        return Some(points[0]);
    }
    let cum: Vec<u64> = cumulative_distances(points);
    let n: usize = points.len();
    let total: u64 = cum[n - 1];
    assert(total == spec_total_dist(s));
    if distance_m >= total {
        return Some(points[n - 1]);
    }
    let mut i: usize = 0;
    while i + 1 < n
        invariant
            0 <= i <= n - 1,
            n == s.len() >= 2,
            points@ == s,
            cum@.len() == n,
            forall|j: int| 0 <= j < n ==> #[trigger] cum@[j] == spec_cum_dist(s, j),
            spec_dist_bracket(s, distance_m as int) == spec_dist_bracket_from(
                s,
                distance_m as int,
                i as nat,
            ),
        decreases n - i,
    {
        if cum[i] <= distance_m && distance_m <= cum[i + 1] {
            assert(spec_dist_bracket_from(s, distance_m as int, i as nat) == i);
            assert(cum@[i as int] == spec_cum_dist(s, i as int));
            assert(cum@[i as int + 1] == spec_cum_dist(s, i as int + 1));
            let seg: u64 = cum[i + 1] - cum[i];
            assert(seg == spec_cum_dist(s, i as int + 1) - spec_cum_dist(s, i as int));
            if seg == 0 {
                return Some(points[i]);
            }
            let r = interpolate_by_fraction(&points[i], &points[i + 1], distance_m - cum[i], seg);
            return Some(r);
        }
        assert(spec_dist_bracket_from(s, distance_m as int, i as nat) == spec_dist_bracket_from(
            s,
            distance_m as int,
            (i + 1) as nat,
        ));
        i = i + 1;
    }
    assert(spec_dist_bracket(s, distance_m as int) == -1);
    Some(points[n - 1])
}

/// What `time_at_distance` returns.
pub open spec fn spec_time_at_distance(s: Seq<GpsPoint>, d: int) -> Option<int> {
    if s.len() == 0 {
        None
    } else if d <= 0 {
        Some(0)
    } else if d >= spec_total_dist(s) {
        Some(s[s.len() - 1].timestamp_ms - s[0].timestamp_ms)
    } else {
        let b = spec_dist_bracket(s, d);
        if b >= 0 {
            let seg = spec_cum_dist(s, b + 1) - spec_cum_dist(s, b);
            let base = s[b].timestamp_ms - s[0].timestamp_ms;
            if seg > 0 {
                Some(base + (s[b + 1].timestamp_ms - s[b].timestamp_ms) * (d - spec_cum_dist(s, b))
                    / seg)
            } else {
                Some(base)
            }
        } else {
            None
        }
    }
}

/// Elapsed milliseconds at which the track reaches the given distance from
/// its start; `None` for an empty track.
#[verifier::rlimit(80)]
pub fn time_at_distance(points: &Vec<GpsPoint>, distance_m: u64) -> (r: Option<u64>)
    requires
        valid_track(points@),
        points@.len() <= MAX_TRACK_POINTS,
        times_sorted(points@),
    ensures
        match r {
            Some(t) => Some(t as int) == spec_time_at_distance(points@, distance_m as int),
            None => spec_time_at_distance(points@, distance_m as int) is None,
        },
        r is None <==> (points@.len() == 0 || (distance_m > 0 && distance_m
            < spec_total_dist(points@) && spec_dist_bracket(points@, distance_m as int) < 0)),
{
    let ghost s = points@;
    if points.len() == 0 {
        return None;
    }
    if distance_m == 0 {
        return Some(0);
    }
    let total: u64 = total_distance(points);
    let n: usize = points.len();
    if distance_m >= total {
        return Some(points[n - 1].timestamp_ms - points[0].timestamp_ms);
    }
    assert(n >= 2) by {
        if n < 2 {
            assert(spec_total_dist(s) == 0);
        }
    }
    let cum: Vec<u64> = cumulative_distances(points);
    let mut i: usize = 0;
    while i + 1 < n
        invariant
            0 <= i <= n - 1,
            n == s.len() >= 2,
            points@ == s,
            times_sorted(s),
            cum@.len() == n,
            forall|j: int| 0 <= j < n ==> #[trigger] cum@[j] == spec_cum_dist(s, j),
            spec_dist_bracket(s, distance_m as int) == spec_dist_bracket_from(
                s,
                distance_m as int,
                i as nat,
            ),
        decreases n - i,
    {
        if cum[i] <= distance_m && distance_m <= cum[i + 1] {
            assert(spec_dist_bracket_from(s, distance_m as int, i as nat) == i);
            assert(cum@[i as int] == spec_cum_dist(s, i as int));
            assert(cum@[i as int + 1] == spec_cum_dist(s, i as int + 1));
            let seg: u64 = cum[i + 1] - cum[i];
            assert(seg == spec_cum_dist(s, i as int + 1) - spec_cum_dist(s, i as int));
            let base: u64 = points[i].timestamp_ms - points[0].timestamp_ms;
            if seg > 0 {
                let seg_time: u64 = points[i + 1].timestamp_ms - points[i].timestamp_ms;
                let num: u64 = distance_m - cum[i];
                proof {
                    lemma_mul_le(seg_time as int, num as int, u64::MAX as int, u64::MAX as int);
                    lemma_mul_le_right(seg_time as int, num as int, seg as int);
                    lemma_div_bound(
                        seg_time as int * num as int,
                        seg_time as int * seg as int,
                        seg as int,
                    );
                    crate::trig::lemma_mul_div_cancel(seg_time as int, seg as int);
                }
                let inc: u64 = ((seg_time as u128) * (num as u128) / (seg as u128)) as u64;
                assert(inc <= seg_time);
                assert(num == distance_m - spec_cum_dist(s, i as int));
                return Some(base + inc);
            }
            return Some(base);
        }
        assert(spec_dist_bracket_from(s, distance_m as int, i as nat) == spec_dist_bracket_from(
            s,
            distance_m as int,
            (i + 1) as nat,
        ));
        i = i + 1;
    }
    assert(spec_dist_bracket(s, distance_m as int) == -1);
    None
}

/// What `distance_at_time` returns.
pub open spec fn spec_distance_at_time(s: Seq<GpsPoint>, elapsed_ms: int) -> int {
    if s.len() == 0 || elapsed_ms <= 0 {
        0
    } else {
        let target = s[0].timestamp_ms + elapsed_ms;
        let b = spec_time_bracket(s, target);
        if b >= 0 {
            let seg_time = s[b + 1].timestamp_ms - s[b].timestamp_ms;
            if seg_time > 0 {
                spec_cum_dist(s, b) + spec_seg(s[b], s[b + 1]) * (target - s[b].timestamp_ms)
                    / seg_time
            } else {
                spec_cum_dist(s, b)
            }
        } else {
            spec_total_dist(s)
        }
    }
}

/// Distance covered after `elapsed_ms` milliseconds, by interpolating inside
/// the first bracketing segment; past the end the total distance.
#[verifier::rlimit(80)]
pub fn distance_at_time(points: &Vec<GpsPoint>, elapsed_ms: i64) -> (r: u64)
    requires
        valid_track(points@),
        points@.len() <= MAX_TRACK_POINTS,
    ensures
        r == spec_distance_at_time(points@, elapsed_ms as int),
{
    let ghost s = points@;
    if points.len() == 0 || elapsed_ms <= 0 {
        return 0;
    }
    let cum: Vec<u64> = cumulative_distances(points);
    let n: usize = points.len();
    if n == 1 {
        assert(spec_time_bracket(s, s[0].timestamp_ms + elapsed_ms) == -1);
        assert(spec_total_dist(s) == 0);
        return 0;
    }
    let target: i128 = (points[0].timestamp_ms as i128) + (elapsed_ms as i128);
    let ghost tg = s[0].timestamp_ms + elapsed_ms;
    let mut i: usize = 0;
    while i + 1 < n
        invariant
            0 <= i <= n - 1,
            n == s.len() >= 2,
            points@ == s,
            target == tg,
            cum@.len() == n,
            forall|j: int| 0 <= j < n ==> #[trigger] cum@[j] == spec_cum_dist(s, j),
            forall|j: int, k: int| 0 <= j <= k < n ==> #[trigger] cum@[j] <= #[trigger] cum@[k],
            spec_time_bracket(s, tg) == spec_time_bracket_from(s, tg, i as nat),
        decreases n - i,
    {
        let inside: bool = (points[i].timestamp_ms as i128) <= target && target <= (points[i
            + 1].timestamp_ms as i128);
        if inside {
            assert(spec_time_bracket_from(s, tg, i as nat) == i);
            assert(0 <= tg <= u64::MAX);
            let seg_time: u64 = points[i + 1].timestamp_ms - points[i].timestamp_ms;
            if seg_time > 0 {
                assert(cum@[i as int] == spec_cum_dist(s, i as int));
                assert(cum@[i as int + 1] == spec_cum_dist(s, i as int + 1));
                let seg_dist: u64 = cum[i + 1] - cum[i];
                let num: u64 = (target as u64) - points[i].timestamp_ms;
                assert(num == tg - s[i as int].timestamp_ms);
                proof {
                    lemma_mul_le(seg_dist as int, num as int, u64::MAX as int, u64::MAX as int);
                    lemma_mul_le_right(seg_dist as int, num as int, seg_time as int);
                    lemma_div_bound(
                        seg_dist as int * num as int,
                        seg_dist as int * seg_time as int,
                        seg_time as int,
                    );
                    crate::trig::lemma_mul_div_cancel(seg_dist as int, seg_time as int);
                }
                let inc: u64 = ((seg_dist as u128) * (num as u128) / (seg_time as u128)) as u64;
                assert(inc <= seg_dist);
                assert(seg_dist == spec_seg(s[i as int], s[i + 1]));
                return cum[i] + inc;
            }
            return cum[i];
        }
        assert(spec_time_bracket_from(s, tg, i as nat) == spec_time_bracket_from(
            s,
            tg,
            (i + 1) as nat,
        ));
        i = i + 1;
    }
    assert(spec_time_bracket(s, tg) == -1);
    cum[n - 1]
}

/// A found time bracket lies inside the sequence.
proof fn lemma_time_bracket_in_range(s: Seq<GpsPoint>, target: int, i: nat)
    requires
        spec_time_bracket_from(s, target, i) >= 0,
    ensures
        i <= spec_time_bracket_from(s, target, i) < s.len() - 1,
    decreases s.len() - i,
{
    if i + 1 < s.len() && !(s[i as int].timestamp_ms <= target <= s[i as int + 1].timestamp_ms) {
        lemma_time_bracket_in_range(s, target, i + 1);
    }
}

/// On a track with non-decreasing timestamps, interpolating at elapsed
/// time zero yields the coordinates of the first point.
pub proof fn lemma_interpolate_at_start(s: Seq<GpsPoint>)
    requires
        times_sorted(s),
        s.len() >= 2,
    ensures
        spec_interpolate_position(s, 0) matches Some(p) && p.lat_udeg == s[0].lat_udeg
            && p.lon_udeg == s[0].lon_udeg,
{
    let target = s[0].timestamp_ms as int;
    assert(s[0].timestamp_ms <= s[1].timestamp_ms);
    assert(spec_time_bracket_from(s, target, 0) == 0);
    if s[1].timestamp_ms > s[0].timestamp_ms {
        let den = s[1].timestamp_ms - s[0].timestamp_ms;
        lemma_lerp_between(s[0].lat_udeg as int, s[1].lat_udeg as int, 0, den as int);
        lemma_lerp_between(s[0].lon_udeg as int, s[1].lon_udeg as int, 0, den as int);
    }
}

/// Past the first qualifying index every strictly-later segment starts
/// too late, so on strictly increasing timestamps the bracket of the
/// final timestamp is the last segment.
proof fn lemma_bracket_at_last(s: Seq<GpsPoint>, i: nat)
    requires
        times_strict(s),
        s.len() >= 2,
        i <= s.len() - 2,
    ensures
        spec_time_bracket_from(s, s[s.len() - 1].timestamp_ms as int, i) == s.len() - 2,
    decreases s.len() - i,
{
    let target = s[s.len() - 1].timestamp_ms as int;
    if i < s.len() - 2 {
        assert(s[i as int + 1].timestamp_ms < s[s.len() - 1].timestamp_ms);
        lemma_bracket_at_last(s, i + 1);
    } else {
        assert(s[i as int].timestamp_ms <= target);
    }
}

/// On a track with strictly increasing timestamps, interpolating at the
/// track's full duration yields the coordinates of the last point.
pub proof fn lemma_interpolate_at_end(s: Seq<GpsPoint>)
    requires
        times_strict(s),
        s.len() >= 2,
    ensures
        spec_interpolate_position(
            s,
            s[s.len() - 1].timestamp_ms - s[0].timestamp_ms,
        ) matches Some(p) && p.lat_udeg == s[s.len() - 1].lat_udeg && p.lon_udeg == s[s.len()
            - 1].lon_udeg,
{
    let n = s.len() as int;
    let elapsed = s[n - 1].timestamp_ms - s[0].timestamp_ms;
    let target = s[0].timestamp_ms + elapsed;
    assert(target == s[n - 1].timestamp_ms);
    lemma_bracket_at_last(s, 0);
    let b = n - 2;
    assert(s[b + 1].timestamp_ms > s[b].timestamp_ms);
    let den = s[b + 1].timestamp_ms - s[b].timestamp_ms;
    assert(target >= s[b + 1].timestamp_ms);
    lemma_lerp_between(s[b].lat_udeg as int, s[b + 1].lat_udeg as int, den as int, den as int);
    lemma_lerp_between(s[b].lon_udeg as int, s[b + 1].lon_udeg as int, den as int, den as int);
}

/// Whenever a time bracket is found, the interpolated coordinates lie
/// between the coordinates of the bracketing points, componentwise.
pub proof fn lemma_interpolate_between_bounds(s: Seq<GpsPoint>, elapsed_ms: int)
    requires
        s.len() >= 2,
        spec_time_bracket(s, s[0].timestamp_ms + elapsed_ms) >= 0,
    ensures
        ({
            let b = spec_time_bracket(s, s[0].timestamp_ms + elapsed_ms);
            let p = spec_interpolate_position(s, elapsed_ms).unwrap();
            &&& spec_interpolate_position(s, elapsed_ms) is Some
            &&& (s[b].lat_udeg <= s[b + 1].lat_udeg ==> s[b].lat_udeg <= p.lat_udeg <= s[b
                + 1].lat_udeg)
            &&& (s[b + 1].lat_udeg <= s[b].lat_udeg ==> s[b + 1].lat_udeg <= p.lat_udeg
                <= s[b].lat_udeg)
            &&& (s[b].lon_udeg <= s[b + 1].lon_udeg ==> s[b].lon_udeg <= p.lon_udeg <= s[b
                + 1].lon_udeg)
            &&& (s[b + 1].lon_udeg <= s[b].lon_udeg ==> s[b + 1].lon_udeg <= p.lon_udeg
                <= s[b].lon_udeg)
        }),
{
    let target = s[0].timestamp_ms + elapsed_ms;
    let b = spec_time_bracket(s, target);
    lemma_time_bracket_in_range(s, target, 0);
    let p1 = s[b];
    let p2 = s[b + 1];
    if p2.timestamp_ms > p1.timestamp_ms {
        let den = (p2.timestamp_ms - p1.timestamp_ms) as int;
        let num = if target <= p1.timestamp_ms {
            0int
        } else if target >= p2.timestamp_ms {
            den
        } else {
            target - p1.timestamp_ms
        };
        lemma_lerp_between(p1.lat_udeg as int, p2.lat_udeg as int, num, den);
        lemma_lerp_between(p1.lon_udeg as int, p2.lon_udeg as int, num, den);
    }
}

/// Every segment of the track covers some distance.
pub open spec fn segs_positive(s: Seq<GpsPoint>) -> bool {
    forall|i: int| 0 < i < s.len() ==> spec_cum_dist(s, i - 1) < #[trigger] spec_cum_dist(s, i)
}

/// The time bracket of the timestamp of vertex `k` is the segment ending
/// at `k`, on strictly increasing timestamps.
proof fn lemma_bracket_at_vertex(s: Seq<GpsPoint>, k: int, i: nat)
    requires
        times_strict(s),
        s.len() >= 2,
        1 <= k < s.len(),
        i <= k - 1,
    ensures
        spec_time_bracket_from(s, s[k].timestamp_ms as int, i) == k - 1,
    decreases s.len() - i,
{
    if i < k - 1 {
        assert(s[i as int + 1].timestamp_ms < s[k].timestamp_ms);
        lemma_bracket_at_vertex(s, k, i + 1);
    } else {
        assert(s[k - 1].timestamp_ms <= s[k].timestamp_ms);
    }
}

/// The distance bracket of the cumulative distance of vertex `k` is the
/// segment ending at `k`, when every segment covers some distance.
proof fn lemma_dist_bracket_at_vertex(s: Seq<GpsPoint>, k: int, i: nat)
    requires
        segs_positive(s),
        s.len() >= 2,
        1 <= k < s.len(),
        i <= k - 1,
    ensures
        spec_dist_bracket_from(s, spec_cum_dist(s, k), i) == k - 1,
    decreases s.len() - i,
{
    let d = spec_cum_dist(s, k);
    if i < k - 1 {
        lemma_cum_strict_increase(s, i as int + 1, k);
        lemma_dist_bracket_at_vertex(s, k, i + 1);
    } else {
        lemma_cum_strict_increase(s, k - 1, k);
    }
}

/// Cumulative distances strictly increase with the index when every
/// segment covers some distance.
proof fn lemma_cum_strict_increase(s: Seq<GpsPoint>, i: int, j: int)
    requires
        segs_positive(s),
        0 <= i < j < s.len(),
    ensures
        spec_cum_dist(s, i) < spec_cum_dist(s, j),
    decreases j - i,
{
    if i + 1 < j {
        lemma_cum_strict_increase(s, i + 1, j);
    }
}

/// Distance at a vertex time and time at a vertex distance are exact
/// inverses: at the timestamp of vertex `k` the distance covered is the
/// cumulative distance of `k`, and the time to reach that distance is the
/// elapsed time of `k`.
pub proof fn lemma_time_distance_roundtrip_at_vertex(s: Seq<GpsPoint>, k: int)
    requires
        times_strict(s),
        segs_positive(s),
        s.len() >= 2,
        1 <= k < s.len(),
    ensures
        spec_distance_at_time(s, s[k].timestamp_ms - s[0].timestamp_ms) == spec_cum_dist(s, k),
        spec_time_at_distance(s, spec_cum_dist(s, k)) == Some(
            s[k].timestamp_ms - s[0].timestamp_ms,
        ),
        spec_time_at_distance(s, spec_distance_at_time(s, s[k].timestamp_ms - s[0].timestamp_ms))
            == Some(s[k].timestamp_ms - s[0].timestamp_ms),
{
    let elapsed = s[k].timestamp_ms - s[0].timestamp_ms;
    let target = s[0].timestamp_ms + elapsed;
    assert(s[0].timestamp_ms < s[k].timestamp_ms);
    assert(elapsed > 0);
    lemma_bracket_at_vertex(s, k, 0);
    let segt = s[k].timestamp_ms - s[k - 1].timestamp_ms;
    assert(segt > 0);
    let seg = spec_cum_dist(s, k) - spec_cum_dist(s, k - 1);
    crate::trig::lemma_mul_div_cancel(seg, segt as int);
    assert(spec_distance_at_time(s, elapsed) == spec_cum_dist(s, k - 1) + seg);
    let d = spec_cum_dist(s, k);
    lemma_cum_strict_increase(s, 0, k);
    assert(d > 0);
    lemma_cum_nondecreasing_interp(s, k, s.len() - 1);
    if k == s.len() - 1 {
        assert(spec_time_at_distance(s, d) == Some(
            s[s.len() - 1].timestamp_ms - s[0].timestamp_ms,
        ));
    } else {
        lemma_cum_strict_increase(s, k, s.len() - 1);
        assert(d < spec_cum_dist(s, s.len() - 1));
        lemma_dist_bracket_at_vertex(s, k, 0);
        crate::trig::lemma_mul_div_cancel(segt as int, seg);
        assert(spec_time_at_distance(s, d) == Some(
            s[k - 1].timestamp_ms - s[0].timestamp_ms + segt,
        ));
    }
}

/// Cumulative distances never decrease with the index.
proof fn lemma_cum_nondecreasing_interp(s: Seq<GpsPoint>, i: int, j: int)
    requires
        segs_positive(s),
        0 <= i <= j < s.len(),
    ensures
        spec_cum_dist(s, i) <= spec_cum_dist(s, j),
    decreases j - i,
{
    if i < j {
        lemma_cum_nondecreasing_interp(s, i, j - 1);
        lemma_cum_strict_increase(s, j - 1, j);
    }
}

} // verus!
