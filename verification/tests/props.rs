//! Scenario tests for the library's stated properties, and direct tests of
//! the formatting, statistics and store helpers.

use banshee_run::activity::{Activity, ActivityType};
use banshee_run::banshee::{ai_pacer_position, recorded_banshee_position, Banshee, BansheeState};
use banshee_run::fmt::{format_distance_km, format_distance_miles, format_duration};
use banshee_run::geo::{haversine_distance, total_distance, GpsPoint};
use banshee_run::interp::{distance_at_time, interpolate_position, time_at_distance};
use banshee_run::pace::{calculate_splits, current_speed};
use banshee_run::pb_calculator::PBCalculator;
use banshee_run::personal_best::PersonalBests;
use banshee_run::point::Point;
use banshee_run::session::{BansheeSession, PacingStatus};
use banshee_run::stats::{
    calculate_banshee_delta, check_position_change, estimate_calories, estimate_finish_time,
    format_banshee_delta, get_pace_presets, project_distance_at_time,
};
use banshee_run::store::{create_run, delete_run, get_run_count, RunStore};

/// Five points five seconds apart, each ~50 m north of the last.
fn uniform_track() -> Vec<GpsPoint> {
    (0..5u64).map(|i| GpsPoint::new(40_712_800 + (i as i64) * 450, -74_006_000, i * 5000)).collect()
}

fn uniform_points() -> Vec<Point> {
    (0..5u64).map(|i| Point::new(40_712_800 + (i as i64) * 450, -74_006_000, i * 5000)).collect()
}

#[test]
fn distance_is_symmetric_and_zero_on_self() {
    let pairs = [
        (40_712_800i64, -74_006_000i64, 34_052_200i64, -118_243_700i64),
        (51_507_400, -127_800, 48_856_600, 2_352_200),
        (-33_868_800, 151_209_300, 35_676_200, 139_650_300),
    ];
    for (lat1, lon1, lat2, lon2) in pairs {
        assert_eq!(
            haversine_distance(lat1, lon1, lat2, lon2),
            haversine_distance(lat2, lon2, lat1, lon1)
        );
        assert_eq!(haversine_distance(lat1, lon1, lat1, lon1), 0);
        assert_eq!(haversine_distance(lat2, lon2, lat2, lon2), 0);
    }
}

#[test]
fn uniform_track_total_is_segments_times_length() {
    let track = uniform_track();
    let seg = haversine_distance(
        track[0].lat_udeg,
        track[0].lon_udeg,
        track[1].lat_udeg,
        track[1].lon_udeg,
    );
    assert_eq!(seg, 50);
    assert_eq!(total_distance(&track), 4 * seg);
}

#[test]
fn interpolation_hits_track_endpoints() {
    let track = uniform_track();
    let first = interpolate_position(&track, 0).unwrap();
    assert_eq!(first.lat_udeg, track[0].lat_udeg);
    assert_eq!(first.lon_udeg, track[0].lon_udeg);

    let last = interpolate_position(&track, 20_000).unwrap();
    assert_eq!(last.lat_udeg, track[4].lat_udeg);
    assert_eq!(last.lon_udeg, track[4].lon_udeg);

    let mid = interpolate_position(&track, 2_500).unwrap();
    assert!(track[0].lat_udeg <= mid.lat_udeg && mid.lat_udeg <= track[1].lat_udeg);
}

#[test]
fn interpolation_merges_optional_fields() {
    let track = vec![
        GpsPoint::new(40_712_800, -74_006_000, 0).with_altitude(1000),
        GpsPoint::new(40_713_200, -74_006_000, 10_000).with_altitude(2000),
    ];
    let mid = interpolate_position(&track, 5_000).unwrap();
    assert_eq!(mid.altitude_cm, Some(1500));
}

#[test]
fn time_and_distance_are_approximate_inverses() {
    let track = uniform_track();
    for t in [0u64, 2_500, 5_000, 7_500, 10_000, 15_000, 20_000] {
        let d = distance_at_time(&track, t as i64);
        let back = time_at_distance(&track, d).unwrap();
        let diff = if back > t { back - t } else { t - back };
        // within one interpolation step of a 50 m / 5 s segment
        assert!(diff <= 100, "t={} d={} back={}", t, d, back);
    }
}

#[test]
fn splits_cover_the_track_without_overlap() {
    let track = uniform_track();
    let splits = calculate_splits(&track, 100);
    assert_eq!(splits.len(), 2);
    assert_eq!(splits[0].number, 1);
    assert_eq!(splits[0].cumulative_distance_m, 100);
    assert_eq!(splits[1].cumulative_distance_m, 200);
    assert_eq!(splits[0].duration_ms, 10_000);
    assert_eq!(splits[1].duration_ms, 10_000);
    assert!(splits[0].duration_ms > 0 && splits[1].duration_ms > 0);
    assert_eq!(splits[0].cumulative_time_ms + splits[1].duration_ms, splits[1].cumulative_time_ms);
    // floor(total / d) splits
    assert_eq!(splits.len() as u64, total_distance(&track) / 100);

    // a split distance longer than the track yields no splits
    assert_eq!(calculate_splits(&track, 500).len(), 0);
}

#[test]
fn best_segment_on_uniform_track_matches_the_pace() {
    // 100 points, 50 m and 5 s apart: uniform 10 m/s
    let points: Vec<Point> = (0..=100u64)
        .map(|i| Point::new(40_712_800 + (i as i64) * 450, -74_006_000, i * 5000))
        .collect();
    let cumulative = PBCalculator::build_cumulative_distances(&points);
    assert!(cumulative.iter().enumerate().all(|(i, c)| *c == 50 * i as u64));

    for target in [1000u64, 2500, 5000] {
        let best = PBCalculator::find_best_segment_time(&points, &cumulative, target).unwrap();
        // time = target * (5000 ms / 50 m)
        assert_eq!(best.time_ms, target * 100);
        assert_eq!(best.distance_meters, target);
    }
}

#[test]
fn updating_twice_with_the_same_activity_reports_nothing_new() {
    let points: Vec<Point> = (0..=100u64)
        .map(|i| Point::new(40_712_800 + (i as i64) * 450, -74_006_000, i * 5000))
        .collect();
    let activity = Activity::new(
        "uniform".to_string(),
        "Uniform Run".to_string(),
        ActivityType::Run,
        points,
        7000,
    );
    let (after_first, achieved_first) = PBCalculator::update_pbs(&PersonalBests::new(), &activity);
    assert!(!achieved_first.is_empty());

    let (after_second, achieved_second) = PBCalculator::update_pbs(&after_first, &activity);
    assert!(achieved_second.is_empty());
    assert_eq!(after_second.records.len(), after_first.records.len());
    for (a, b) in after_second.records.iter().zip(after_first.records.iter()) {
        assert_eq!(a.time_ms, b.time_ms);
        assert_eq!(a.distance_meters, b.distance_meters);
    }
}

#[test]
fn five_point_track_scenario() {
    let track = uniform_track();
    assert_eq!(total_distance(&track), 200);
    let d = distance_at_time(&track, 10_000);
    assert!(d >= 90 && d <= 110);
    assert_eq!(d, 100);
    let splits = calculate_splits(&track, 100);
    assert_eq!(splits.len(), 2);
}

#[test]
fn ghost_session_scenario() {
    let coords = uniform_points();
    let session = BansheeSession::new(coords.clone());
    // runner still at the start after ten seconds: the ghost has advanced
    let current = coords[0];
    assert_eq!(session.get_pacing_status(&current, 10_000), PacingStatus::Behind);
    assert!(session.is_behind(&current, 10_000));
    // the ghost reaches the runner's distance (0 m) immediately
    assert_eq!(session.get_time_difference_ms(&current, 10_000), 10_000);
}

#[test]
fn empty_ghost_track_is_always_unknown() {
    let session = BansheeSession::new(vec![]);
    for elapsed in [0u64, 1, 1000, 100_000] {
        let p = Point::new(40_712_800, -74_006_000, elapsed);
        assert_eq!(session.get_pacing_status(&p, elapsed), PacingStatus::Unknown);
    }
    assert_eq!(session.best_run_distance(), 0);
    assert_eq!(session.best_run_duration_ms(), 0);
}

#[test]
fn short_activity_has_no_segments() {
    let activity = Activity::new(
        "tiny".to_string(),
        "Tiny".to_string(),
        ActivityType::Run,
        vec![Point::new(40_712_800, -74_006_000, 0), Point::new(40_713_700, -74_006_000, 60_000)],
        0,
    );
    assert!(activity.total_distance_meters < 1000);
    assert!(PBCalculator::calculate_segment_times(&activity).is_empty());
}

#[test]
fn duration_formatting() {
    assert_eq!(format_duration(0), "0:00");
    assert_eq!(format_duration(125_000), "2:05");
    assert_eq!(format_duration(3_725_000), "1:02:05");
    assert_eq!(format_duration(59_999), "0:59");
}

#[test]
fn distance_formatting() {
    assert_eq!(format_distance_km(0), "0 m");
    assert_eq!(format_distance_km(500), "500 m");
    assert_eq!(format_distance_km(12_345), "12.35 km");
    assert_eq!(format_distance_km(1_000), "1.00 km");
    assert_eq!(format_distance_miles(100), "328 ft");
    assert_eq!(format_distance_miles(1_609), "1.00 mi");
}

#[test]
fn current_speed_over_uniform_window() {
    let track = uniform_track();
    let speed = current_speed(&track, 5);
    assert_eq!(speed, 10_000); // 200 m in 20 s, in mm/s
    assert_eq!(current_speed(&track, 1), 0);
    assert_eq!(current_speed(&vec![], 5), 0);
}

#[test]
fn banshee_model_roundtrips() {
    let b = Banshee::from_run("run-7".to_string(), "Ghost".to_string());
    assert_eq!(b.run_id(), Some("run-7"));
    assert_eq!(b.target_pace(), None);
    assert!(!b.is_ai_pacer());

    let p = Banshee::ai_pacer_from_min_per_km(5, "Pacer".to_string());
    assert_eq!(p.target_pace(), Some(300));
    assert_eq!(p.run_id(), None);
    assert!(p.is_ai_pacer());
}

#[test]
fn banshee_state_delta_display() {
    let mut state = BansheeState::new(40_712_800, -74_006_000, 100);
    assert!(!state.is_ahead());
    state.distance_delta_meters = 50;
    assert!(state.is_ahead());
    assert_eq!(state.delta_display(), "50m behind");
    state.distance_delta_meters = -1500;
    assert_eq!(state.delta_display(), "1.50km ahead");
}

#[test]
fn recorded_banshee_position_tracks_the_run() {
    let track = uniform_track();
    let state = recorded_banshee_position(&track, 10_000).unwrap();
    assert_eq!(state.lat_udeg, track[2].lat_udeg);
    assert_eq!(state.distance_meters, 100);
    assert!(recorded_banshee_position(&vec![], 10_000).is_none());
}

#[test]
fn ai_pacer_position_advances_at_pace() {
    // 5:00/km for one minute: 200 m
    let no_route = ai_pacer_position(40_712_800, -74_006_000, 300, 60_000, None).unwrap();
    assert_eq!(no_route.distance_meters, 200);
    assert_eq!(no_route.lat_udeg, 40_712_800);

    let route = uniform_track();
    let on_route = ai_pacer_position(40_712_800, -74_006_000, 300, 60_000, Some(&route)).unwrap();
    assert_eq!(on_route.distance_meters, 200);
    assert_eq!(on_route.lat_udeg, route[4].lat_udeg);

    assert!(ai_pacer_position(40_712_800, -74_006_000, 0, 60_000, None).is_none());
}

#[test]
fn banshee_delta_and_position_change() {
    let state = calculate_banshee_delta(1000, 60_000, 900, 50_000, None);
    assert_eq!(state.distance_delta_meters, 100);
    assert_eq!(state.time_delta_ms, 10_000);

    let paced = calculate_banshee_delta(1000, 60_000, 900, 50_000, Some(300));
    assert_eq!(paced.time_delta_ms, 100 * 300);

    assert_eq!(format_banshee_delta(0), "Even");
    assert_eq!(format_banshee_delta(50), "50m behind");
    assert_eq!(format_banshee_delta(-1500), "1.50km ahead");

    assert_eq!(check_position_change(200, -200, 100), 1);
    assert_eq!(check_position_change(-200, 200, 100), -1);
    assert_eq!(check_position_change(0, 0, 100), 0);
}

#[test]
fn estimates_and_presets() {
    assert_eq!(estimate_finish_time(10_000, 5_000, 1_500_000), Some(3_000_000));
    assert_eq!(estimate_finish_time(10_000, 0, 1_500_000), None);
    assert_eq!(estimate_calories(70, 10_000), 700);
    assert_eq!(project_distance_at_time(5_000, 1_500_000, 3_000_000), 10_000);
    assert_eq!(project_distance_at_time(5_000, 0, 3_000_000), 0);

    let presets = get_pace_presets();
    assert_eq!(presets.len(), 10);
    assert_eq!(presets[0].0, 240);
    assert_eq!(presets[0].1, "4:00/km (Elite)");
    assert_eq!(presets[9].1, "10:00/km");
}

#[test]
fn run_store_crud() {
    let mut store = RunStore::new();
    assert_eq!(get_run_count(&store), Ok(0));

    let id = create_run(&mut store, "run-1".to_string()).unwrap();
    assert_eq!(id, "run-1");
    assert_eq!(get_run_count(&store), Ok(1));

    let fetched = store.get_run("run-1").unwrap();
    assert_eq!(fetched.id, "run-1");
    assert_eq!(fetched.coordinates.len(), 0);

    let record = banshee_run::run_record::RunRecord::new(
        "run-1".to_string(),
        "Renamed".to_string(),
        uniform_points(),
        5,
    );
    store.save_run(record);
    assert_eq!(get_run_count(&store), Ok(1));
    assert_eq!(store.get_run("run-1").unwrap().name, "Renamed");

    assert_eq!(delete_run(&mut store, "missing"), Ok(false));
    assert_eq!(delete_run(&mut store, "run-1"), Ok(true));
    assert_eq!(get_run_count(&store), Ok(0));
    assert!(store.get_run("run-1").is_none());
}

#[test]
fn registry_housekeeping() {
    let mut pbs = PersonalBests::new();
    pbs.update(banshee_run::personal_best::PersonalBest::new(
        ActivityType::Run,
        5000,
        1_200_000,
        "a1".to_string(),
        0,
    ));
    pbs.update(banshee_run::personal_best::PersonalBest::new(
        ActivityType::Run,
        10_000,
        2_500_000,
        "a2".to_string(),
        0,
    ));
    assert!(pbs.get(ActivityType::Run, 5000).is_some());
    assert!(pbs.get(ActivityType::Cycle, 5000).is_none());
    pbs.remove_for_activity("a1");
    assert_eq!(pbs.records.len(), 1);
    assert!(pbs.get(ActivityType::Run, 5000).is_none());
}

#[test]
fn antimeridian_distance() {
    // Crossing the date line: about 22.2 km
    let d = haversine_distance(0, 179_900_000, 0, -179_900_000);
    assert!(d > 22_000 && d < 22_500);
}

#[test]
fn record_formatting_helpers() {
    let pb = banshee_run::personal_best::PersonalBest::new(
        ActivityType::Run,
        21_098,
        5_400_000,
        "half".to_string(),
        0,
    );
    assert_eq!(pb.distance_name(), "Half Marathon");
    assert_eq!(banshee_run::activity::ActivityType::distance_name(42_195), "Marathon");
    assert_eq!(banshee_run::activity::ActivityType::distance_name(123), "Custom");
}
