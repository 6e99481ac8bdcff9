//! Great-circle distance primitives over fixed-point coordinates.
//!
//! Latitudes and longitudes are microdegrees, distances whole meters, and the
//! haversine formula is evaluated with the fixed-point series of `trig`.  The
//! value of every distance is pinned to `spec_haversine`, the spec-level
//! mirror of the same computation, so that its algebraic laws (symmetry, zero
//! on identical coordinates, additivity of cumulative sums) can be stated and
//! proved.

use vstd::prelude::*;

use crate::trig;
use crate::trig::{
    spec_asin_nano, spec_cos_nano, spec_isqrt, spec_nanorad, spec_sin_nano, HALF_PI_NANO, PI_NANO,
    SCALE,
};

verus! {

/// Mean Earth radius in meters.
pub const EARTH_RADIUS_M: u64 = 6_371_000;

/// No two points on the sphere are further apart than this many meters.
pub const MAX_GEO_DISTANCE: u64 = 20_015_087;

/// Tracks longer than this are refused so that cumulative distances stay
/// well inside `u64`.
pub const MAX_TRACK_POINTS: usize = 0xFFFF_FFFF;

/// A single GPS sample: fixed-point coordinates, a millisecond timestamp,
/// and optional altitude (centimeters), accuracy (centimeters) and speed
/// (millimeters per second).
#[derive(Debug, Clone, Copy, PartialEq)]
pub struct GpsPoint {
    /// Latitude in microdegrees, `-90_000_000 ..= 90_000_000`.
    pub lat_udeg: i64,
    /// Longitude in microdegrees, `-180_000_000 ..= 180_000_000`.
    pub lon_udeg: i64,
    /// Timestamp in milliseconds.
    pub timestamp_ms: u64,
    /// Altitude in centimeters, if the receiver reported one.
    pub altitude_cm: Option<i64>,
    /// Horizontal accuracy in centimeters, if the receiver reported one.
    pub accuracy_cm: Option<u64>,
    /// Speed in millimeters per second, if the receiver reported one.
    pub speed_mmps: Option<u64>,
}

pub open spec fn valid_lat(lat: int) -> bool {
    -90_000_000 <= lat <= 90_000_000
}

pub open spec fn valid_lon(lon: int) -> bool {
    -180_000_000 <= lon <= 180_000_000
}

pub open spec fn valid_coords(lat: int, lon: int) -> bool {
    valid_lat(lat) && valid_lon(lon)
}

impl GpsPoint {
    /// A point is well formed when its coordinates are in range.
    pub open spec fn wf(self) -> bool {
        valid_coords(self.lat_udeg as int, self.lon_udeg as int)
    }

    pub fn new(lat_udeg: i64, lon_udeg: i64, timestamp_ms: u64) -> (r: GpsPoint)
        ensures
            r.lat_udeg == lat_udeg,
            r.lon_udeg == lon_udeg,
            r.timestamp_ms == timestamp_ms,
            r.altitude_cm is None,
            r.accuracy_cm is None,
            r.speed_mmps is None,
    {
        GpsPoint {
            lat_udeg,
            lon_udeg,
            timestamp_ms,
            altitude_cm: None,
            accuracy_cm: None,
            speed_mmps: None,
        }
    }

    pub fn with_altitude(self, altitude_cm: i64) -> (r: GpsPoint)
        ensures
            r == (GpsPoint { altitude_cm: Some(altitude_cm), ..self }),
    {
        GpsPoint { altitude_cm: Some(altitude_cm), ..self }
    }

    pub fn with_accuracy(self, accuracy_cm: u64) -> (r: GpsPoint)
        ensures
            r == (GpsPoint { accuracy_cm: Some(accuracy_cm), ..self }),
    {
        GpsPoint { accuracy_cm: Some(accuracy_cm), ..self }
    }

    pub fn with_speed(self, speed_mmps: u64) -> (r: GpsPoint)
        ensures
            r == (GpsPoint { speed_mmps: Some(speed_mmps), ..self }),
    {
        GpsPoint { speed_mmps: Some(speed_mmps), ..self }
    }
}

/// Every point of the sequence has in-range coordinates.
pub open spec fn valid_track(s: Seq<GpsPoint>) -> bool {
    forall|i: int| 0 <= i < s.len() ==> #[trigger] s[i].wf()
}

pub open spec fn spec_abs_diff(a: int, b: int) -> int {
    if a >= b {
        a - b
    } else {
        b - a
    }
}

pub open spec fn spec_abs(a: int) -> int {
    if a >= 0 {
        a
    } else {
        -a
    }
}

/// The fixed-point haversine evaluation, step for step the computation that
/// `haversine_distance` performs.  Opaque: callers reason through the
/// contracts of the distance functions, not through this body.
#[verifier::opaque]
pub open spec fn spec_haversine(lat1: int, lon1: int, lat2: int, lon2: int) -> int {
    let dlat_half = spec_nanorad(spec_abs_diff(lat1, lat2)) / 2;
    let dlon_h0 = spec_nanorad(spec_abs_diff(lon1, lon2)) / 2;
    let dlon_half = if dlon_h0 > 1_570_796_327 {
        3_141_592_654 - dlon_h0
    } else {
        dlon_h0
    };
    let sa = spec_sin_nano(dlat_half);
    let sb = spec_sin_nano(dlon_half);
    let c1 = spec_cos_nano(spec_nanorad(spec_abs(lat1)));
    let c2 = spec_cos_nano(spec_nanorad(spec_abs(lat2)));
    let q = c1 * c2 / 1_000_000_000;
    let a = sa * sa + sb * sb * q / 1_000_000_000;
    let a_cl = if a > 1_000_000_000_000_000_000 {
        1_000_000_000_000_000_000
    } else {
        a
    };
    let c = 2 * spec_asin_nano(spec_isqrt(a_cl));
    6_371_000 * c / 1_000_000_000
}

/// Distance between two points given by a pair of fixed-point coordinates.
pub fn haversine_distance(lat1: i64, lon1: i64, lat2: i64, lon2: i64) -> (r: u64)
    requires
        valid_coords(lat1 as int, lon1 as int),
        valid_coords(lat2 as int, lon2 as int),
    ensures
        r == spec_haversine(lat1 as int, lon1 as int, lat2 as int, lon2 as int),
        r <= MAX_GEO_DISTANCE,
{
    proof {
        reveal(spec_haversine);
    }
    let dlat: u64 = if lat1 >= lat2 {
        (lat1 - lat2) as u64
    } else {
        (lat2 - lat1) as u64
    };
    let dlon: u64 = if lon1 >= lon2 {
        (lon1 - lon2) as u64
    } else {
        (lon2 - lon1) as u64
    };
    let dlat_half: u64 = trig::to_nanorad(dlat) / 2;
    let dlon_h0: u64 = trig::to_nanorad(dlon) / 2;
    let dlon_half: u64 = if dlon_h0 > HALF_PI_NANO {
        PI_NANO - dlon_h0
    } else {
        dlon_h0
    };
    assert(dlat_half <= HALF_PI_NANO && dlon_half <= HALF_PI_NANO);
    let sa: u64 = trig::sin_nano(dlat_half);
    let sb: u64 = trig::sin_nano(dlon_half);
    let alat1: u64 = if lat1 >= 0 {
        lat1 as u64
    } else {
        (-lat1) as u64
    };
    let alat2: u64 = if lat2 >= 0 {
        lat2 as u64
    } else {
        (-lat2) as u64
    };
    let c1: u64 = trig::cos_nano(trig::to_nanorad(alat1));
    let c2: u64 = trig::cos_nano(trig::to_nanorad(alat2));
    proof {
        trig::lemma_mul_le(c1 as int, c2 as int, 1_000_000_000, 1_000_000_000);
        trig::lemma_div_bound(c1 as int * c2 as int, 1_000_000_000_000_000_000, 1_000_000_000);
    }
    let q: u64 = c1 * c2 / SCALE;
    proof {
        trig::lemma_mul_le(sa as int, sa as int, 1_570_796_327, 1_570_796_327);
        trig::lemma_mul_le(sb as int, sb as int, 1_570_796_327, 1_570_796_327);
        trig::lemma_mul_le(
            sb as int * sb as int,
            q as int,
            1_570_796_327int * 1_570_796_327,
            1_000_000_000,
        );
        trig::lemma_div_bound(
            sb as int * sb as int * q as int,
            1_570_796_327int * 1_570_796_327 * 1_000_000_000,
            1_000_000_000,
        );
    }
    let sbw: u128 = sb as u128;
    let term2: u64 = (sbw * sbw * (q as u128) / (SCALE as u128)) as u64;
    let a: u64 = sa * sa + term2;
    let a_cl: u64 = if a > SCALE * SCALE {
        SCALE * SCALE
    } else {
        a
    };
    let root: u64 = isqrt_capped(a_cl);
    let c: u64 = 2 * trig::asin_nano(root);
    proof {
        trig::lemma_mul_le(c as int, 1, 3_141_592_654, 1);
        trig::lemma_mul_le_right(6_371_000, c as int, 3_141_592_654);
        trig::lemma_div_bound(6_371_000 * c as int, 6_371_000int * 3_141_592_654, 1_000_000_000);
    }
    let r: u64 = EARTH_RADIUS_M * c / SCALE;
    r
}

/// Square root of a clamped haversine intermediate; the result is a sine
/// value at scale `1e9`.
fn isqrt_capped(a: u64) -> (r: u64)
    requires
        a <= 1_000_000_000_000_000_000,
    ensures
        r == spec_isqrt(a as int),
        r <= SCALE,
{
    let root: u64 = trig::isqrt64(a);
    assert(root <= 1_000_000_000) by (nonlinear_arith)
        requires
            root * root <= a,
            a <= 1_000_000_000_000_000_000,
            root >= 0,
    ;
    root
}

/// The great-circle distance is symmetric in its two endpoints.
pub proof fn lemma_haversine_symmetric(lat1: int, lon1: int, lat2: int, lon2: int)
    ensures
        spec_haversine(lat1, lon1, lat2, lon2) == spec_haversine(lat2, lon2, lat1, lon1),
{
    reveal(spec_haversine);
    let c1 = spec_cos_nano(spec_nanorad(spec_abs(lat1)));
    let c2 = spec_cos_nano(spec_nanorad(spec_abs(lat2)));
    assert(c1 * c2 == c2 * c1) by (nonlinear_arith);
}

/// The great-circle distance from any point to itself is zero.
pub proof fn lemma_haversine_self_zero(lat: int, lon: int)
    ensures
        spec_haversine(lat, lon, lat, lon) == 0,
{
    reveal(spec_haversine);
    assert(spec_nanorad(0) == 0);
    assert(spec_sin_nano(0) == 0);
    let c1 = spec_cos_nano(spec_nanorad(spec_abs(lat)));
    let q = c1 * c1 / 1_000_000_000;
    assert(0 * q == 0) by (nonlinear_arith);
    assert(spec_isqrt(0) == 0);
    trig::lemma_asin_acc_zero(15);
    assert(spec_asin_nano(0) == 0);
}

/// Distance between two GPS samples.
pub fn haversine_distance_points(p1: &GpsPoint, p2: &GpsPoint) -> (r: u64)
    requires
        p1.wf(),
        p2.wf(),
    ensures
        r == spec_seg(*p1, *p2),
        r <= MAX_GEO_DISTANCE,
{
    haversine_distance(p1.lat_udeg, p1.lon_udeg, p2.lat_udeg, p2.lon_udeg)
}

/// The distance of one track segment.
pub open spec fn spec_seg(a: GpsPoint, b: GpsPoint) -> int {
    spec_haversine(a.lat_udeg as int, a.lon_udeg as int, b.lat_udeg as int, b.lon_udeg as int)
}

/// Distance along the track from its start to point `i`.
pub open spec fn spec_cum_dist(s: Seq<GpsPoint>, i: int) -> int
    decreases i,
{
    if i <= 0 {
        0
    } else {
        spec_cum_dist(s, i - 1) + spec_seg(s[i - 1], s[i])
    }
}

/// Total distance of a track: zero for fewer than two points.
pub open spec fn spec_total_dist(s: Seq<GpsPoint>) -> int {
    if s.len() == 0 {
        0
    } else {
        spec_cum_dist(s, s.len() - 1)
    }
}

/// Sum of the consecutive pairwise distances; zero for fewer than two points.
pub fn total_distance(points: &Vec<GpsPoint>) -> (r: u64)
    requires
        valid_track(points@),
        points@.len() <= MAX_TRACK_POINTS,
    ensures
        r == spec_total_dist(points@),
{
    if points.len() < 2 {
        return 0;
    }
    let n: usize = points.len();
    let mut acc: u64 = 0;
    let mut i: usize = 1;
    while i < n
        invariant
            1 <= i <= n,
            n == points@.len() <= MAX_TRACK_POINTS,
            valid_track(points@),
            acc == spec_cum_dist(points@, i - 1),
            acc <= (i - 1) * MAX_GEO_DISTANCE,
        decreases n - i,
    {
        let seg: u64 = haversine_distance_points(&points[i - 1], &points[i]);
        proof {
            assert((i - 1) * MAX_GEO_DISTANCE + MAX_GEO_DISTANCE == i * MAX_GEO_DISTANCE)
                by (nonlinear_arith);
            assert(i * MAX_GEO_DISTANCE <= 0xFFFF_FFFFint * MAX_GEO_DISTANCE) by (nonlinear_arith)
                requires
                    0 <= i <= 0xFFFF_FFFF,
            ;
        }
        acc = acc + seg;
        i = i + 1;
    }
    acc
}

/// Cumulative distances parallel to the track: entry 0 is zero, entry `i`
/// adds the segment from point `i - 1`.
pub fn cumulative_distances(points: &Vec<GpsPoint>) -> (r: Vec<u64>)
    requires
        valid_track(points@),
        points@.len() <= MAX_TRACK_POINTS,
    ensures
        r@.len() == points@.len(),
        forall|i: int| 0 <= i < r@.len() ==> #[trigger] r@[i] == spec_cum_dist(points@, i),
        forall|i: int| 0 <= i < r@.len() ==> #[trigger] r@[i] <= i * MAX_GEO_DISTANCE,
        forall|i: int, j: int| 0 <= i <= j < r@.len() ==> #[trigger] r@[i] <= #[trigger] r@[j],
{
    let mut out: Vec<u64> = Vec::new();
    if points.len() == 0 {
        return out;
    }
    out.push(0);
    let n: usize = points.len();
    let mut i: usize = 1;
    while i < n
        invariant
            1 <= i <= n,
            n == points@.len() <= MAX_TRACK_POINTS,
            valid_track(points@),
            out@.len() == i,
            forall|j: int| 0 <= j < i ==> #[trigger] out@[j] == spec_cum_dist(points@, j),
            forall|j: int| 0 <= j < i ==> #[trigger] out@[j] <= j * MAX_GEO_DISTANCE,
            forall|j: int, k: int| 0 <= j <= k < i ==> #[trigger] out@[j] <= #[trigger] out@[k],
        decreases n - i,
    {
        let seg: u64 = haversine_distance_points(&points[i - 1], &points[i]);
        let prev: u64 = out[i - 1];
        proof {
            assert((i - 1) * MAX_GEO_DISTANCE + MAX_GEO_DISTANCE == i * MAX_GEO_DISTANCE)
                by (nonlinear_arith);
            assert(i * MAX_GEO_DISTANCE <= 0xFFFF_FFFFint * MAX_GEO_DISTANCE) by (nonlinear_arith)
                requires
                    0 <= i <= 0xFFFF_FFFF,
            ;
        }
        out.push(prev + seg);
        i = i + 1;
    }
    out
}

/// With no longitude change, the distance depends on the latitude gap
/// alone: two meridian segments with the same gap have the same length.
pub proof fn lemma_haversine_meridian(
    lat1: int,
    lat2: int,
    lon: int,
    lat3: int,
    lat4: int,
    lon2: int,
)
    requires
        spec_abs_diff(lat1, lat2) == spec_abs_diff(lat3, lat4),
    ensures
        spec_haversine(lat1, lon, lat2, lon) == spec_haversine(lat3, lon2, lat4, lon2),
{
    reveal(spec_haversine);
    assert(spec_nanorad(0) == 0);
    assert(spec_sin_nano(0) == 0);
    let c1 = spec_cos_nano(spec_nanorad(spec_abs(lat1)));
    let c2 = spec_cos_nano(spec_nanorad(spec_abs(lat2)));
    let q = c1 * c2 / 1_000_000_000;
    let c3 = spec_cos_nano(spec_nanorad(spec_abs(lat3)));
    let c4 = spec_cos_nano(spec_nanorad(spec_abs(lat4)));
    let q2 = c3 * c4 / 1_000_000_000;
    assert(0 * q == 0) by (nonlinear_arith);
    assert(0 * q2 == 0) by (nonlinear_arith);
}

/// A track of equal latitude steps along one meridian covers the same
/// distance in every segment: its cumulative distance grows linearly.
pub proof fn lemma_cum_dist_uniform_meridian(s: Seq<GpsPoint>, dlat: int, i: int)
    requires
        s.len() >= 2,
        0 <= i < s.len(),
        forall|k: int| 0 <= k < s.len() ==> (#[trigger] s[k]).lon_udeg == s[0].lon_udeg,
        forall|k: int| 0 < k < s.len() ==> (#[trigger] s[k]).lat_udeg - s[k - 1].lat_udeg == dlat,
    ensures
        spec_cum_dist(s, i) == i * spec_seg(s[0], s[1]),
    decreases i,
{
    if i <= 0 {
        assert(0int * spec_seg(s[0], s[1]) == 0) by (nonlinear_arith);
    } else {
        lemma_cum_dist_uniform_meridian(s, dlat, i - 1);
        assert(s[i].lat_udeg - s[i - 1].lat_udeg == dlat);
        assert(s[1].lat_udeg - s[0].lat_udeg == dlat);
        lemma_haversine_meridian(
            s[i - 1].lat_udeg as int,
            s[i].lat_udeg as int,
            s[i - 1].lon_udeg as int,
            s[0].lat_udeg as int,
            s[1].lat_udeg as int,
            s[0].lon_udeg as int,
        );
        assert(s[i - 1].lon_udeg == s[0].lon_udeg && s[i].lon_udeg == s[0].lon_udeg);
        assert(spec_seg(s[i - 1], s[i]) == spec_seg(s[0], s[1]));
        assert((i - 1) * spec_seg(s[0], s[1]) + spec_seg(s[0], s[1]) == i * spec_seg(s[0], s[1]))
            by (nonlinear_arith);
    }
}

/// The total distance of a track of `n` equally spaced points along one
/// meridian is `n - 1` times its first segment's distance.
pub proof fn lemma_total_distance_uniform_meridian(s: Seq<GpsPoint>, dlat: int)
    requires
        s.len() >= 2,
        forall|k: int| 0 <= k < s.len() ==> (#[trigger] s[k]).lon_udeg == s[0].lon_udeg,
        forall|k: int| 0 < k < s.len() ==> (#[trigger] s[k]).lat_udeg - s[k - 1].lat_udeg == dlat,
    ensures
        spec_total_dist(s) == (s.len() - 1) * spec_seg(s[0], s[1]),
{
    lemma_cum_dist_uniform_meridian(s, dlat, s.len() - 1);
}

/// Two pi in nanoradians, rounded to the nearest unit.
pub const TWO_PI_NANO: u64 = 6_283_185_307;

/// The sine of an angle given in microdegrees, between -180 and 180
/// degrees, at scale `1e9` and signed.
pub open spec fn spec_sin_signed(a: int) -> int {
    let m = spec_abs(a);
    let red = if m > 90_000_000 {
        180_000_000 - m
    } else {
        m
    };
    let v = spec_sin_nano(spec_nanorad(red));
    if a >= 0 {
        v
    } else {
        -v
    }
}

/// The cosine of an angle given in microdegrees, between -180 and 180
/// degrees, at scale `1e9` and signed.
pub open spec fn spec_cos_wide(a: int) -> int {
    let m = spec_abs(a);
    if m > 90_000_000 {
        -spec_cos_nano(spec_nanorad(180_000_000 - m))
    } else {
        spec_cos_nano(spec_nanorad(m))
    }
}

/// The longitude difference reduced into -180 .. 180 degrees; sines and
/// cosines are unchanged by the reduction.
pub open spec fn spec_lon_delta(lon1: int, lon2: int) -> int {
    let d = lon2 - lon1;
    if d > 180_000_000 {
        d - 360_000_000
    } else if d < -180_000_000 {
        d + 360_000_000
    } else {
        d
    }
}

/// The east component of the bearing direction, at scale `1e9`.
pub open spec fn spec_bearing_x(lat1: int, lon1: int, lat2: int, lon2: int) -> int {
    let dl = spec_lon_delta(lon1, lon2);
    let sdl = spec_sin_signed(dl);
    let c2 = spec_cos_nano(spec_nanorad(spec_abs(lat2)));
    let xm = spec_abs(sdl) * c2 / 1_000_000_000;
    if sdl >= 0 {
        xm
    } else {
        -xm
    }
}

/// The north component of the bearing direction, at scale `1e9`.
pub open spec fn spec_bearing_y(lat1: int, lon1: int, lat2: int, lon2: int) -> int {
    let dl = spec_lon_delta(lon1, lon2);
    let cdl = spec_cos_wide(dl);
    let s1 = spec_sin_signed(lat1);
    let c1 = spec_cos_nano(spec_nanorad(spec_abs(lat1)));
    let s2 = spec_sin_signed(lat2);
    let c2 = spec_cos_nano(spec_nanorad(spec_abs(lat2)));
    let t1m = spec_abs(s2) * c1 / 1_000_000_000;
    let t1 = if s2 >= 0 {
        t1m
    } else {
        -t1m
    };
    let t2m = spec_abs(s1) * c2 / 1_000_000_000 * spec_abs(cdl) / 1_000_000_000;
    let t2 = if (s1 >= 0) == (cdl >= 0) {
        t2m
    } else {
        -t2m
    };
    t1 - t2
}

/// The clockwise angle from north of the direction `(x, y)`, in
/// microdegrees; 0 for the zero direction.
pub open spec fn spec_angle_from_xy(x: int, y: int) -> int {
    let xm = spec_abs(x);
    let ym = spec_abs(y);
    let rho = spec_isqrt(xm * xm + ym * ym);
    if rho == 0 {
        0
    } else {
        let beta = spec_asin_nano(xm * 1_000_000_000 / rho);
        let theta = if x >= 0 {
            if y >= 0 {
                beta
            } else {
                3_141_592_654 - beta
            }
        } else {
            if y < 0 {
                3_141_592_654 + beta
            } else {
                6_283_185_307 - beta
            }
        };
        theta * 180_000_000 / 3_141_592_654 % 360_000_000
    }
}

/// The initial bearing from the first point to the second, in
/// microdegrees from north, clockwise, below 360 degrees.
pub open spec fn spec_bearing(lat1: int, lon1: int, lat2: int, lon2: int) -> int {
    spec_angle_from_xy(
        spec_bearing_x(lat1, lon1, lat2, lon2),
        spec_bearing_y(lat1, lon1, lat2, lon2),
    )
}

/// The sine of a signed angle in microdegrees, reduced to the first
/// quadrant before the series.
fn sin_signed(a: i64) -> (r: i64)
    requires
        -180_000_000 <= a <= 180_000_000,
    ensures
        r == spec_sin_signed(a as int),
        -1_570_796_327 <= r <= 1_570_796_327,
{
    let m: u64 = if a >= 0 {
        a as u64
    } else {
        (-a) as u64
    };
    let red: u64 = if m > 90_000_000 {
        180_000_000 - m
    } else {
        m
    };
    let v: u64 = trig::sin_nano(trig::to_nanorad(red));
    if a >= 0 {
        v as i64
    } else {
        -(v as i64)
    }
}

/// The cosine of a signed angle in microdegrees, through the supplement
/// above 90 degrees.
fn cos_wide(a: i64) -> (r: i64)
    requires
        -180_000_000 <= a <= 180_000_000,
    ensures
        r == spec_cos_wide(a as int),
        -1_000_000_000 <= r <= 1_000_000_000,
{
    let m: u64 = if a >= 0 {
        a as u64
    } else {
        (-a) as u64
    };
    if m > 90_000_000 {
        let v: u64 = trig::cos_nano(trig::to_nanorad(180_000_000 - m));
        -(v as i64)
    } else {
        let v: u64 = trig::cos_nano(trig::to_nanorad(m));
        v as i64
    }
}

/// Both direction components of the bearing from the first point to the
/// second.
#[verifier::rlimit(100)]
fn bearing_xy(lat1: i64, lon1: i64, lat2: i64, lon2: i64) -> (r: (i64, i64))
    requires
        valid_coords(lat1 as int, lon1 as int),
        valid_coords(lat2 as int, lon2 as int),
    ensures
        r.0 == spec_bearing_x(lat1 as int, lon1 as int, lat2 as int, lon2 as int),
        r.1 == spec_bearing_y(lat1 as int, lon1 as int, lat2 as int, lon2 as int),
        -1_570_796_327 <= r.0 <= 1_570_796_327,
        -3_141_592_654 <= r.1 <= 3_141_592_654,
{
    let d0: i64 = lon2 - lon1;
    let dl: i64 = if d0 > 180_000_000 {
        d0 - 360_000_000
    } else if d0 < -180_000_000 {
        d0 + 360_000_000
    } else {
        d0
    };
    let sdl: i64 = sin_signed(dl);
    let cdl: i64 = cos_wide(dl);
    let s1: i64 = sin_signed(lat1);
    let alat1: u64 = if lat1 >= 0 {
        lat1 as u64
    } else {
        (-lat1) as u64
    };
    let alat2: u64 = if lat2 >= 0 {
        lat2 as u64
    } else {
        (-lat2) as u64
    };
    let c1: u64 = trig::cos_nano(trig::to_nanorad(alat1));
    let s2: i64 = sin_signed(lat2);
    let c2: u64 = trig::cos_nano(trig::to_nanorad(alat2));
    let sdl_m: u64 = if sdl >= 0 {
        sdl as u64
    } else {
        (-sdl) as u64
    };
    proof {
        trig::lemma_mul_le(sdl_m as int, c2 as int, 1_570_796_327, 1_000_000_000);
        trig::lemma_div_bound(
            sdl_m as int * c2 as int,
            1_570_796_327int * 1_000_000_000,
            1_000_000_000,
        );
    }
    let xm: u64 = ((sdl_m as u128) * (c2 as u128) / 1_000_000_000) as u64;
    let x: i64 = if sdl >= 0 {
        xm as i64
    } else {
        -(xm as i64)
    };
    let s2_m: u64 = if s2 >= 0 {
        s2 as u64
    } else {
        (-s2) as u64
    };
    proof {
        trig::lemma_mul_le(s2_m as int, c1 as int, 1_570_796_327, 1_000_000_000);
        trig::lemma_div_bound(
            s2_m as int * c1 as int,
            1_570_796_327int * 1_000_000_000,
            1_000_000_000,
        );
    }
    let t1m: u64 = ((s2_m as u128) * (c1 as u128) / 1_000_000_000) as u64;
    let s1_m: u64 = if s1 >= 0 {
        s1 as u64
    } else {
        (-s1) as u64
    };
    let cdl_m: u64 = if cdl >= 0 {
        cdl as u64
    } else {
        (-cdl) as u64
    };
    proof {
        trig::lemma_mul_le(s1_m as int, c2 as int, 1_570_796_327, 1_000_000_000);
        trig::lemma_div_bound(
            s1_m as int * c2 as int,
            1_570_796_327int * 1_000_000_000,
            1_000_000_000,
        );
        trig::lemma_mul_le(
            s1_m as int * c2 as int / 1_000_000_000,
            cdl_m as int,
            1_570_796_327,
            1_000_000_000,
        );
        trig::lemma_div_bound(
            s1_m as int * c2 as int / 1_000_000_000 * cdl_m as int,
            1_570_796_327int * 1_000_000_000,
            1_000_000_000,
        );
    }
    let t2m: u64 = ((s1_m as u128) * (c2 as u128) / 1_000_000_000 * (cdl_m as u128)
        / 1_000_000_000) as u64;
    let t1_signed: i64 = if s2 >= 0 {
        t1m as i64
    } else {
        -(t1m as i64)
    };
    let t2_signed: i64 = if (s1 >= 0) == (cdl >= 0) {
        t2m as i64
    } else {
        -(t2m as i64)
    };
    let y: i64 = t1_signed - t2_signed;
    (x, y)
}

/// The clockwise angle from north of the direction `(x, y)`, in
/// microdegrees.
fn angle_from_xy(x: i64, y: i64) -> (r: u64)
    requires
        -1_570_796_327 <= x <= 1_570_796_327,
        -3_141_592_654 <= y <= 3_141_592_654,
    ensures
        r == spec_angle_from_xy(x as int, y as int),
        r < 360_000_000,
{
    let xm: u64 = if x >= 0 {
        x as u64
    } else {
        (-x) as u64
    };
    let ym: u64 = if y >= 0 {
        y as u64
    } else {
        (-y) as u64
    };
    proof {
        trig::lemma_mul_le(xm as int, xm as int, 1_570_796_327, 1_570_796_327);
        trig::lemma_mul_le(ym as int, ym as int, 3_141_592_654, 3_141_592_654);
    }
    let sumsq: u64 = xm * xm + ym * ym;
    let rho: u64 = trig::isqrt64(sumsq);
    if rho == 0 {
        return 0;
    }
    assert(xm <= rho) by (nonlinear_arith)
        requires
            rho * rho <= sumsq,
            sumsq < (rho + 1) * (rho + 1),
            sumsq >= xm * xm,
            rho >= 0,
            xm >= 0,
    ;
    proof {
        trig::lemma_mul_le(xm as int, 1_000_000_000, 1_570_796_327, 1_000_000_000);
        assert(xm as int * 1_000_000_000 / rho as int <= 1_000_000_000) by (nonlinear_arith)
            requires
                0 <= xm <= rho,
                1 <= rho,
        ;
        assert(0 <= xm as int * 1_000_000_000 / rho as int) by (nonlinear_arith)
            requires
                0 <= xm,
                1 <= rho,
        ;
    }
    let s_arg: u64 = ((xm as u128) * 1_000_000_000 / (rho as u128)) as u64;
    let beta: u64 = trig::asin_nano(s_arg);
    let theta: u64 = if x >= 0 {
        if y >= 0 {
            beta
        } else {
            PI_NANO - beta
        }
    } else {
        if y < 0 {
            PI_NANO + beta
        } else {
            TWO_PI_NANO - beta
        }
    };
    proof {
        trig::lemma_mul_le(theta as int, 180_000_000, 6_283_185_307, 180_000_000);
        trig::lemma_div_bound(
            theta as int * 180_000_000,
            6_283_185_307int * 180_000_000,
            3_141_592_654,
        );
    }
    let deg: u64 = ((theta as u128) * 180_000_000 / 3_141_592_654) as u64;
    deg % 360_000_000
}

/// The initial bearing from the first point to the second, in
/// microdegrees from north, clockwise.
pub fn bearing(lat1: i64, lon1: i64, lat2: i64, lon2: i64) -> (r: u64)
    requires
        valid_coords(lat1 as int, lon1 as int),
        valid_coords(lat2 as int, lon2 as int),
    ensures
        r == spec_bearing(lat1 as int, lon1 as int, lat2 as int, lon2 as int),
        r < 360_000_000,
{
    let xy: (i64, i64) = bearing_xy(lat1, lon1, lat2, lon2);
    angle_from_xy(xy.0, xy.1)
}

} // verus!
