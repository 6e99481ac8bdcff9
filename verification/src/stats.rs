//! Display-path statistics: banshee deltas, pace presets, finish-time and
//! calorie estimates.
//!
//! All of these are sentinel-friendly: degenerate inputs resolve to a zero
//! or an absent value rather than an error, because they sit on the display
//! path.

use vstd::prelude::*;
use vstd::string::StringExecFns;

use crate::banshee::BansheeState;
use crate::fmt::{push_u64, push_u64_pad2, spec_dec, spec_dec2};
use crate::geo::{spec_haversine, valid_coords, MAX_GEO_DISTANCE};
use crate::trig::{lemma_div_bound, lemma_mul_le};

verus! {

/// Total distance along a sequence of bare coordinate pairs.
pub open spec fn spec_pair_cum(s: Seq<(i64, i64)>, i: int) -> int
    decreases i,
{
    if i <= 0 {
        0
    } else {
        spec_pair_cum(s, i - 1) + spec_haversine(
            s[i - 1].0 as int,
            s[i - 1].1 as int,
            s[i].0 as int,
            s[i].1 as int,
        )
    }
}

/// Every pair of the sequence is a valid coordinate.
pub open spec fn valid_pairs(s: Seq<(i64, i64)>) -> bool {
    forall|i: int|
        0 <= i < s.len() ==> valid_coords(
            (#[trigger] s[i]).0 as int,
            s[i].1 as int,
        )
}

/// The great-circle distance between two coordinates, in meters.
pub fn calculate_distance(lat1: i64, lon1: i64, lat2: i64, lon2: i64) -> (r: u64)
    requires
        valid_coords(lat1 as int, lon1 as int),
        valid_coords(lat2 as int, lon2 as int),
    ensures
        r == spec_haversine(lat1 as int, lon1 as int, lat2 as int, lon2 as int),
        r <= MAX_GEO_DISTANCE,
{
    crate::geo::haversine_distance(lat1, lon1, lat2, lon2)
}

/// Total distance in meters along a polyline of bare coordinate pairs;
/// zero for fewer than two points.
pub fn calculate_total_distance(points: &Vec<(i64, i64)>) -> (r: u64)
    requires
        valid_pairs(points@),
        points@.len() <= 0xFFFF_FFFF,
    ensures
        r == if points@.len() < 2 {
            0int
        } else {
            spec_pair_cum(points@, points@.len() - 1)
        },
{
    if points.len() < 2 {
        return 0;
    }
    let n: usize = points.len();
    let mut acc: u64 = 0;
    let mut i: usize = 1;
    while i < n
        invariant
            1 <= i <= n,
            n == points@.len() <= 0xFFFF_FFFF,
            valid_pairs(points@),
            acc == spec_pair_cum(points@, i - 1),
            acc <= (i - 1) * MAX_GEO_DISTANCE,
        decreases n - i,
    {
        let a = points[i - 1];
        let b = points[i];
        let seg: u64 = crate::geo::haversine_distance(a.0, a.1, b.0, b.1);
        proof {
            assert((i - 1) * MAX_GEO_DISTANCE + MAX_GEO_DISTANCE == i * MAX_GEO_DISTANCE)
                by (nonlinear_arith);
            assert(i * MAX_GEO_DISTANCE <= 0xFFFF_FFFFint * MAX_GEO_DISTANCE) by (nonlinear_arith)
                requires
                    0 <= i <= 0xFFFF_FFFF,
            ;
        }
        acc = acc + seg;
        i = i + 1;
    }
    acc
}

/// The time delta assigned to a distance gap: at a given pace the time to
/// cover it, otherwise the plain difference of the two times.
pub open spec fn spec_banshee_time_delta(
    distance_delta: int,
    banshee_time_ms: int,
    runner_time_ms: int,
    pace: Option<u64>,
) -> int {
    match pace {
        Some(p) => if p == 0 {
            0
        } else {
            distance_delta * p
        },
        None => banshee_time_ms - runner_time_ms,
    }
}

/// The banshee state relative to the runner: the distance delta is the
/// banshee's lead in meters, and the time delta is the time to cover that
/// lead at the target pace, or the plain time difference without one.
pub fn calculate_banshee_delta(
    banshee_distance_m: u64,
    banshee_time_ms: i64,
    runner_distance_m: u64,
    runner_time_ms: i64,
    target_pace_sec_per_km: Option<u64>,
) -> (r: BansheeState)
    requires
        banshee_distance_m < 1_000_000_000_000,
        runner_distance_m < 1_000_000_000_000,
        -0x4000_0000_0000_0000 < banshee_time_ms < 0x4000_0000_0000_0000,
        -0x4000_0000_0000_0000 < runner_time_ms < 0x4000_0000_0000_0000,
        match target_pace_sec_per_km {
            Some(p) => p <= 1_000_000,
            None => true,
        },
    ensures
        r.lat_udeg == 0,
        r.lon_udeg == 0,
        r.distance_meters == banshee_distance_m,
        r.distance_delta_meters == banshee_distance_m - runner_distance_m,
        r.time_delta_ms == spec_banshee_time_delta(
            banshee_distance_m - runner_distance_m,
            banshee_time_ms as int,
            runner_time_ms as int,
            target_pace_sec_per_km,
        ),
{
    let distance_delta: i64 = (banshee_distance_m as i64) - (runner_distance_m as i64);
    let time_delta: i64 = match target_pace_sec_per_km {
        Some(p) => {
            if p == 0 {
                0
            } else {
                proof {
                    assert(distance_delta as int * p as int <= 1_000_000_000_000int * 1_000_000
                        && -(1_000_000_000_000int * 1_000_000) <= distance_delta as int * p as int)
                        by (nonlinear_arith)
                        requires
                            -1_000_000_000_000 < distance_delta,
                            distance_delta < 1_000_000_000_000,
                            0 <= p <= 1_000_000,
                    ;
                }
                ((distance_delta as i128) * (p as i128)) as i64
            }
        },
        None => {
            ((banshee_time_ms as i128) - (runner_time_ms as i128)) as i64
        },
    };
    BansheeState {
        lat_udeg: 0,
        lon_udeg: 0,
        distance_meters: banshee_distance_m,
        time_delta_ms: time_delta,
        distance_delta_meters: distance_delta,
    }
}

/// `Even` within a meter; otherwise the absolute gap in meters below one
/// kilometer or kilometers with two decimals above, followed by `behind`
/// for a positive gap and `ahead` for a negative one.
pub open spec fn spec_format_banshee_delta(delta: int) -> Seq<char> {
    let abs = if delta >= 0 {
        delta
    } else {
        -delta
    };
    let dir = if delta > 0 {
        " behind"@
    } else {
        " ahead"@
    };
    if abs < 1 {
        "Even"@
    } else if abs < 1000 {
        spec_dec(abs) + seq!['m'] + dir
    } else {
        let centi = (abs + 5) / 10;
        spec_dec(centi / 100) + seq!['.'] + spec_dec2(centi % 100) + seq!['k', 'm'] + dir
    }
}

/// Renders a banshee distance delta for display.
pub fn format_banshee_delta(distance_delta_meters: i64) -> (r: String)
    requires
        -1_000_000_000_000 < distance_delta_meters < 1_000_000_000_000,
    ensures
        r@ == spec_format_banshee_delta(distance_delta_meters as int),
{
    proof {
        reveal_strlit("Even");
        reveal_strlit(" behind");
        reveal_strlit(" ahead");
        reveal_strlit("m");
        reveal_strlit("km");
        reveal_strlit(".");
    }
    let abs: u64 = if distance_delta_meters >= 0 {
        distance_delta_meters as u64
    } else {
        (-distance_delta_meters) as u64
    };
    if abs < 1 {
        let s = String::from_str("Even");
        assert(s@ =~= spec_format_banshee_delta(distance_delta_meters as int));
        return s;
    }
    let dir: &str = if distance_delta_meters > 0 {
        " behind"
    } else {
        " ahead"
    };
    let mut s = String::new();
    if abs < 1000 {
        push_u64(&mut s, abs);
        s.append("m");
        s.append(dir);
    } else {
        let centi: u64 = (abs + 5) / 10;
        push_u64(&mut s, centi / 100);
        s.append(".");
        push_u64_pad2(&mut s, centi % 100);
        s.append("km");
        s.append(dir);
    }
    assert(s@ =~= spec_format_banshee_delta(distance_delta_meters as int));
    s
}

/// Whether the runner crossed the ahead/behind threshold: `-1` after
/// falling behind, `1` after pulling ahead, `0` otherwise.
pub fn check_position_change(previous_delta_m: i64, current_delta_m: i64, threshold_m: i64) -> (r:
    i32)
    requires
        threshold_m >= 0,
    ensures
        r == 1 <==> (previous_delta_m > threshold_m && current_delta_m < -threshold_m),
        r == -1 <==> (previous_delta_m < -threshold_m && current_delta_m > threshold_m),
        r == 0 || r == 1 || r == -1,
{
    let was_ahead: bool = previous_delta_m < -threshold_m;
    let was_behind: bool = previous_delta_m > threshold_m;
    let is_ahead: bool = current_delta_m < -threshold_m;
    let is_behind: bool = current_delta_m > threshold_m;
    if was_ahead && is_behind {
        -1
    } else if was_behind && is_ahead {
        1
    } else {
        0
    }
}

/// The built-in pace presets: pace in seconds per kilometer and a display
/// name, from 4:00 to 10:00 per kilometer.
pub fn get_pace_presets() -> (r: Vec<(u64, String)>)
    ensures
        r@.len() == 10,
        r@[0].0 == 240 && r@[0].1@ == "4:00/km (Elite)"@,
        r@[1].0 == 270 && r@[1].1@ == "4:30/km"@,
        r@[2].0 == 300 && r@[2].1@ == "5:00/km"@,
        r@[3].0 == 330 && r@[3].1@ == "5:30/km"@,
        r@[4].0 == 360 && r@[4].1@ == "6:00/km"@,
        r@[5].0 == 390 && r@[5].1@ == "6:30/km"@,
        r@[6].0 == 420 && r@[6].1@ == "7:00/km"@,
        r@[7].0 == 480 && r@[7].1@ == "8:00/km"@,
        r@[8].0 == 540 && r@[8].1@ == "9:00/km"@,
        r@[9].0 == 600 && r@[9].1@ == "10:00/km"@,
{
    let mut v: Vec<(u64, String)> = Vec::new();
    v.push((240, String::from_str("4:00/km (Elite)")));
    v.push((270, String::from_str("4:30/km")));
    v.push((300, String::from_str("5:00/km")));
    v.push((330, String::from_str("5:30/km")));
    v.push((360, String::from_str("6:00/km")));
    v.push((390, String::from_str("6:30/km")));
    v.push((420, String::from_str("7:00/km")));
    v.push((480, String::from_str("8:00/km")));
    v.push((540, String::from_str("9:00/km")));
    v.push((600, String::from_str("10:00/km")));
    v
}

/// The estimated total time to reach `target_distance_m` at the pace run
/// so far, capped at `i64::MAX` milliseconds; `None` before any progress.
pub fn estimate_finish_time(
    target_distance_m: u64,
    current_distance_m: u64,
    current_duration_ms: u64,
) -> (r: Option<u64>)
    ensures
        r is None <==> (current_distance_m == 0 || current_duration_ms == 0),
        match r {
            Some(t) => {
                let exact = target_distance_m as int * current_duration_ms as int / current_distance_m as int;
                t == if exact > 0x7FFF_FFFF_FFFF_FFFF {
                    0x7FFF_FFFF_FFFF_FFFFint
                } else {
                    exact
                }
            },
            None => true,
        },
{
    if current_distance_m == 0 || current_duration_ms == 0 {
        return None;
    }
    proof {
        lemma_mul_le(
            target_distance_m as int,
            current_duration_ms as int,
            u64::MAX as int,
            u64::MAX as int,
        );
        lemma_div_bound(
            target_distance_m as int * current_duration_ms as int,
            u64::MAX as int * u64::MAX,
            current_distance_m as int,
        );
    }
    let q: u128 = (target_distance_m as u128) * (current_duration_ms as u128) / (current_distance_m
        as u128);
    if q > 0x7FFF_FFFF_FFFF_FFFF {
        Some(0x7FFF_FFFF_FFFF_FFFF)
    } else {
        Some(q as u64)
    }
}

/// A rough calorie estimate: one kilocalorie per kilogram per kilometer.
pub fn estimate_calories(weight_kg: u64, distance_m: u64) -> (r: u64)
    requires
        weight_kg <= 1_000_000,
        distance_m < 1_000_000_000_000,
    ensures
        r == weight_kg * distance_m / 1000,
{
    proof {
        lemma_mul_le(weight_kg as int, distance_m as int, 1_000_000, 1_000_000_000_000);
        lemma_div_bound(
            weight_kg as int * distance_m as int,
            1_000_000int * 1_000_000_000_000,
            1000,
        );
    }
    let q: u128 = (weight_kg as u128) * (distance_m as u128) / 1000;
    q as u64
}

/// The distance projected at `target_duration_ms` from the speed run so
/// far, capped at `u64::MAX` meters; 0 before any time has passed.
pub fn project_distance_at_time(
    current_distance_m: u64,
    current_duration_ms: u64,
    target_duration_ms: u64,
) -> (r: u64)
    ensures
        current_duration_ms == 0 ==> r == 0,
        current_duration_ms > 0 ==> ({
            let exact = current_distance_m as int * target_duration_ms as int / current_duration_ms as int;
            r == if exact > 0xFFFF_FFFF_FFFF_FFFF {
                0xFFFF_FFFF_FFFF_FFFFint
            } else {
                exact
            }
        }),
{
    if current_duration_ms == 0 {
        return 0;
    }
    proof {
        lemma_mul_le(
            current_distance_m as int,
            target_duration_ms as int,
            u64::MAX as int,
            u64::MAX as int,
        );
    }
    let q: u128 = (current_distance_m as u128) * (target_duration_ms as u128) / (current_duration_ms
        as u128);
    if q > 0xFFFF_FFFF_FFFF_FFFF {
        u64::MAX
    } else {
        q as u64
    }
}

} // verus!
