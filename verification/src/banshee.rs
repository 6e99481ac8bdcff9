//! The banshee model: a reference runner, either a previously recorded run
//! or a synthetic pacer holding a fixed target pace, and the banshee's
//! reported state during a run.

use vstd::prelude::*;
use vstd::string::StringExecFns;

use crate::fmt::{push_u64, push_u64_pad2, spec_dec, spec_dec2};
use crate::geo::{valid_track, GpsPoint, MAX_TRACK_POINTS};
use crate::interp::{spec_distance_at_time, spec_interpolate_at_distance, spec_interpolate_position};

verus! {

/// The kind of banshee raced against.
#[derive(Debug, Clone)]
pub enum BansheeType {
    /// A banshee replaying a previously recorded run.
    RecordedRun {
        /// Identifier of the recorded run.
        run_id: String,
    },
    /// A synthetic pacer holding a fixed pace.
    AiPacer {
        /// Target pace in seconds per kilometer.
        target_pace_sec_per_km: u64,
    },
}

/// A banshee runner to race against.
#[derive(Debug, Clone)]
pub struct Banshee {
    /// The kind of banshee.
    pub banshee_type: BansheeType,
    /// Display name of the banshee.
    pub name: String,
}

impl Banshee {
    /// A banshee replaying the run with the given identifier.
    pub fn from_run(run_id: String, name: String) -> (r: Banshee)
        ensures
            r.banshee_type == (BansheeType::RecordedRun { run_id }),
            r.name == name,
    {
        Banshee { banshee_type: BansheeType::RecordedRun { run_id }, name }
    }

    /// A synthetic pacer holding the given pace in seconds per kilometer.
    pub fn ai_pacer(target_pace_sec_per_km: u64, name: String) -> (r: Banshee)
        ensures
            r.banshee_type == (BansheeType::AiPacer { target_pace_sec_per_km }),
            r.name == name,
    {
        Banshee { banshee_type: BansheeType::AiPacer { target_pace_sec_per_km }, name }
    }

    /// A synthetic pacer from a pace in whole minutes per kilometer.
    pub fn ai_pacer_from_min_per_km(minutes: u64, name: String) -> (r: Banshee)
        requires
            minutes * 60 <= u64::MAX,
        ensures
            r.banshee_type == (BansheeType::AiPacer { target_pace_sec_per_km: (minutes * 60) as u64
            }),
            r.name == name,
    {
        Banshee::ai_pacer(minutes * 60, name)
    }

    /// The target pace of a synthetic pacer, in seconds per kilometer.
    pub fn target_pace(&self) -> (r: Option<u64>)
        ensures
            match self.banshee_type {
                BansheeType::AiPacer { target_pace_sec_per_km } => r == Some(
                    target_pace_sec_per_km,
                ),
                BansheeType::RecordedRun { .. } => r is None,
            },
    {
        match &self.banshee_type {
            BansheeType::AiPacer { target_pace_sec_per_km } => Some(*target_pace_sec_per_km),
            BansheeType::RecordedRun { .. } => None,
        }
    }

    /// The run identifier of a recorded-run banshee.
    pub fn run_id(&self) -> (r: Option<&str>)
        ensures
            match self.banshee_type {
                BansheeType::RecordedRun { run_id } => r matches Some(x) && x@ == run_id@,
                BansheeType::AiPacer { .. } => r is None,
            },
    {
        match &self.banshee_type {
            BansheeType::RecordedRun { run_id } => Some(run_id.as_str()),
            BansheeType::AiPacer { .. } => None,
        }
    }

    /// Whether this banshee is a synthetic pacer.
    pub fn is_ai_pacer(&self) -> (r: bool)
        ensures
            r <==> self.banshee_type is AiPacer,
    {
        match &self.banshee_type {
            BansheeType::AiPacer { .. } => true,
            BansheeType::RecordedRun { .. } => false,
        }
    }
}

/// The banshee's reported state during a run.
#[derive(Debug, Clone)]
pub struct BansheeState {
    /// Current latitude of the banshee, in microdegrees.
    pub lat_udeg: i64,
    /// Current longitude of the banshee, in microdegrees.
    pub lon_udeg: i64,
    /// Distance covered by the banshee, in meters.
    pub distance_meters: u64,
    /// Time offset to the runner in milliseconds; positive means the
    /// banshee is ahead.
    pub time_delta_ms: i64,
    /// Distance offset to the runner in meters; positive means the
    /// banshee is ahead.
    pub distance_delta_meters: i64,
}

/// `N m` below one kilometer (absolute value), `K.HH km` above, followed
/// by `behind` when the banshee leads and `ahead` otherwise.
pub open spec fn spec_delta_display(delta: int) -> Seq<char> {
    let abs = if delta >= 0 {
        delta
    } else {
        -delta
    };
    let dir = if delta > 0 {
        " behind"@
    } else {
        " ahead"@
    };
    if abs < 1000 {
        spec_dec(abs) + seq!['m'] + dir
    } else {
        let centi = (abs + 5) / 10;
        spec_dec(centi / 100) + seq!['.'] + spec_dec2(centi % 100) + seq!['k', 'm'] + dir
    }
}

impl BansheeState {
    /// A fresh state at a position and covered distance, with zero deltas.
    pub fn new(lat_udeg: i64, lon_udeg: i64, distance_meters: u64) -> (r: BansheeState)
        ensures
            r.lat_udeg == lat_udeg,
            r.lon_udeg == lon_udeg,
            r.distance_meters == distance_meters,
            r.time_delta_ms == 0,
            r.distance_delta_meters == 0,
    {
        BansheeState {
            lat_udeg,
            lon_udeg,
            distance_meters,
            time_delta_ms: 0,
            distance_delta_meters: 0,
        }
    }

    /// Whether the banshee is ahead of the runner.
    pub fn is_ahead(&self) -> (r: bool)
        ensures
            r <==> self.distance_delta_meters > 0,
    {
        self.distance_delta_meters > 0
    }

    /// Renders the distance delta for display, from the runner's point of
    /// view: meters below one kilometer, kilometers with two decimals
    /// above.
    pub fn delta_display(&self) -> (r: String)
        requires
            -1_000_000_000_000 < self.distance_delta_meters < 1_000_000_000_000,
        ensures
            r@ == spec_delta_display(self.distance_delta_meters as int),
    {
        proof {
            reveal_strlit(" behind");
            reveal_strlit(" ahead");
            reveal_strlit(".");
        }
        let abs: u64 = if self.distance_delta_meters >= 0 {
            self.distance_delta_meters as u64
        } else {
            (-self.distance_delta_meters) as u64
        };
        let dir: &str = if self.distance_delta_meters > 0 {
            " behind"
        } else {
            " ahead"
        };
        let mut s = String::new();
        if abs < 1000 {
            push_u64(&mut s, abs);
            proof {
                reveal_strlit("m");
            }
            s.append("m");
            s.append(dir);
        } else {
            let centi: u64 = (abs + 5) / 10;
            push_u64(&mut s, centi / 100);
            s.append(".");
            push_u64_pad2(&mut s, centi % 100);
            proof {
                reveal_strlit("km");
            }
            s.append("km");
            s.append(dir);
        }
        assert(s@ =~= spec_delta_display(self.distance_delta_meters as int));
        s
    }
}

/// The banshee's position and covered distance while replaying a recorded
/// track: position interpolated at the elapsed time, distance from the
/// same time bracketing.  `None` for an empty track.
pub fn recorded_banshee_position(points: &Vec<GpsPoint>, elapsed_ms: i64) -> (r: Option<
    BansheeState,
>)
    requires
        valid_track(points@),
        points@.len() <= MAX_TRACK_POINTS,
    ensures
        r is None <==> points@.len() == 0,
        match r {
            Some(state) => {
                let p = spec_interpolate_position(points@, elapsed_ms as int);
                &&& p is Some
                &&& state.lat_udeg == p.unwrap().lat_udeg
                &&& state.lon_udeg == p.unwrap().lon_udeg
                &&& state.distance_meters == spec_distance_at_time(points@, elapsed_ms as int)
                &&& state.time_delta_ms == 0
                &&& state.distance_delta_meters == 0
            },
            None => true,
        },
{
    let position: Option<GpsPoint> = crate::interp::interpolate_position(points, elapsed_ms);
    match position {
        Some(p) => {
            let distance: u64 = crate::interp::distance_at_time(points, elapsed_ms);
            Some(BansheeState::new(p.lat_udeg, p.lon_udeg, distance))
        },
        None => None,
    }
}

/// The synthetic pacer's position after `elapsed_ms` at the given pace:
/// the distance covered is `elapsed / pace` meters; with a route the
/// position is interpolated at that distance along it, without one the
/// pacer stays at the start.  A pace of zero is rejected.
pub fn ai_pacer_position(
    start_lat_udeg: i64,
    start_lon_udeg: i64,
    target_pace_sec_per_km: u64,
    elapsed_ms: u64,
    route: Option<&Vec<GpsPoint>>,
) -> (r: Option<BansheeState>)
    requires
        match route {
            Some(pts) => valid_track(pts@) && pts@.len() <= MAX_TRACK_POINTS,
            None => true,
        },
    ensures
        r is None <==> target_pace_sec_per_km == 0,
        match r {
            Some(state) => {
                let d = elapsed_ms as int / target_pace_sec_per_km as int;
                &&& state.distance_meters == d
                &&& state.time_delta_ms == 0
                &&& state.distance_delta_meters == 0
                &&& match route {
                    Some(pts) => {
                        if pts@.len() == 0 {
                            state.lat_udeg == start_lat_udeg && state.lon_udeg == start_lon_udeg
                        } else {
                            let p = spec_interpolate_at_distance(pts@, d);
                            p is Some && state.lat_udeg == p.unwrap().lat_udeg && state.lon_udeg
                                == p.unwrap().lon_udeg
                        }
                    },
                    None => state.lat_udeg == start_lat_udeg && state.lon_udeg == start_lon_udeg,
                }
            },
            None => true,
        },
{
    if target_pace_sec_per_km == 0 {
        return None;
    }
    let distance_meters: u64 = elapsed_ms / target_pace_sec_per_km;
    match route {
        Some(pts) => {
            if pts.len() == 0 {
                Some(BansheeState::new(start_lat_udeg, start_lon_udeg, distance_meters))
            } else {
                let p: Option<GpsPoint> = crate::interp::interpolate_position_at_distance(
                    pts,
                    distance_meters,
                );
                let point = p.unwrap();
                Some(BansheeState::new(point.lat_udeg, point.lon_udeg, distance_meters))
            }
        },
        None => Some(BansheeState::new(start_lat_udeg, start_lon_udeg, distance_meters)),
    }
}

} // verus!
