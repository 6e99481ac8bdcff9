use banshee_run::activity::{Activity, ActivityType};
use banshee_run::pb_calculator::{calculate_speed_kmh, format_pace, PBCalculator};
use banshee_run::personal_best::PersonalBests;
use banshee_run::point::Point;

/// Creates a test activity with a known distance and time, along a
/// roughly north-south line.
fn create_test_activity(total_distance_m: u64, duration_ms: u64) -> Activity {
    let num_points: u64 = 100;
    let distance_per_point_m = total_distance_m / num_points;
    let time_per_point_ms = duration_ms / num_points;

    // Latitude delta for the desired distance (roughly 111 km per degree).
    let mut points = Vec::new();
    let start_lat: i64 = 40_712_800;
    let start_lon: i64 = -74_006_000;

    for i in 0..=num_points {
        let lat = start_lat + ((i * distance_per_point_m * 1000) / 111) as i64;
        points.push(Point::new(lat, start_lon, i * time_per_point_ms));
    }

    Activity::new(
        "test-activity".to_string(),
        "Test Activity".to_string(),
        ActivityType::Run,
        points,
        1234567890000,
    )
}

#[test]
fn test_build_cumulative_distances() {
    let points = vec![
        Point::new(40_712_800, -74_006_000, 0),
        Point::new(40_713_700, -74_006_000, 5000),  // ~100 m north
        Point::new(40_714_600, -74_006_000, 10000), // ~100 m more north
    ];

    let cumulative = PBCalculator::build_cumulative_distances(&points);

    assert_eq!(cumulative.len(), 3);
    assert_eq!(cumulative[0], 0);
    assert!(cumulative[1] > 90 && cumulative[1] < 110);
    assert!(cumulative[2] > 180 && cumulative[2] < 220);
}

#[test]
fn test_calculate_segment_times_short_activity() {
    // A 500 m activity - should not have any records (minimum is 1K)
    let activity = Activity::new(
        "short".to_string(),
        "Short Run".to_string(),
        ActivityType::Run,
        vec![
            Point::new(40_712_800, -74_006_000, 0),
            Point::new(40_717_300, -74_006_000, 180000), // ~500 m, 3 min
        ],
        0,
    );

    let segments = PBCalculator::calculate_segment_times(&activity);
    assert!(segments.is_empty());
}

#[test]
fn test_calculate_segment_times_1k() {
    // A 1.5 km activity in 10 minutes
    let activity = create_test_activity(1500, 600_000);

    let segments = PBCalculator::calculate_segment_times(&activity);

    // Should find a 1K segment
    assert!(segments.iter().any(|s| s.distance_meters == 1000));

    // The 1K time should be roughly 2/3 of 10 minutes
    let one_k = segments.iter().find(|s| s.distance_meters == 1000).unwrap();
    let time_minutes = one_k.time_ms / 60_000;
    assert!(time_minutes >= 5 && time_minutes < 8);
}

#[test]
fn test_calculate_segment_times_5k() {
    // A 6 km activity in 30 minutes
    let activity = create_test_activity(6000, 1_800_000);

    let segments = PBCalculator::calculate_segment_times(&activity);

    // Should find 1K and 5K segments
    assert!(segments.iter().any(|s| s.distance_meters == 1000));
    assert!(segments.iter().any(|s| s.distance_meters == 5000));

    // 5K time should be roughly 25 minutes (5/6 of 30 min)
    let five_k = segments.iter().find(|s| s.distance_meters == 5000).unwrap();
    let time_minutes = five_k.time_ms / 60_000;
    assert!(time_minutes > 20 && time_minutes < 30);
}

#[test]
fn test_update_pbs_empty() {
    let activity = create_test_activity(6000, 1_800_000);
    let existing_pbs = PersonalBests::new();

    let (new_pbs, achieved) = PBCalculator::update_pbs(&existing_pbs, &activity);

    // Should achieve records for 1K and 5K
    assert!(achieved.len() >= 2);
    assert!(new_pbs.records.len() >= 2);
}

#[test]
fn test_update_pbs_faster() {
    // First activity: 6 km in 30 minutes
    let activity1 = create_test_activity(6000, 1_800_000);
    let (pbs_after_1, _) = PBCalculator::update_pbs(&PersonalBests::new(), &activity1);

    // Second activity: 6 km in 25 minutes (faster)
    let mut activity2 = create_test_activity(6000, 1_500_000);
    activity2.id = "fast-run".to_string();

    let (pbs_after_2, achieved) = PBCalculator::update_pbs(&pbs_after_1, &activity2);

    // Should achieve new records
    assert!(!achieved.is_empty());

    // The 5K record should be from the second activity
    let five_k_pb = pbs_after_2.get(ActivityType::Run, 5000).unwrap();
    assert_eq!(five_k_pb.activity_id, "fast-run");
}

#[test]
fn test_update_pbs_slower() {
    // First activity: 6 km in 25 minutes
    let activity1 = create_test_activity(6000, 1_500_000);
    let (pbs_after_1, _) = PBCalculator::update_pbs(&PersonalBests::new(), &activity1);

    // Second activity: 6 km in 30 minutes (slower)
    let mut activity2 = create_test_activity(6000, 1_800_000);
    activity2.id = "slow-run".to_string();

    let (pbs_after_2, achieved) = PBCalculator::update_pbs(&pbs_after_1, &activity2);

    // Should NOT achieve new records for these distances
    assert!(achieved.is_empty());

    // The 5K record should still be from the first activity
    let five_k_pb = pbs_after_2.get(ActivityType::Run, 5000).unwrap();
    assert_eq!(five_k_pb.activity_id, "test-activity");
}

#[test]
fn pb_calculator_test_format_pace() {
    assert_eq!(format_pace(5000, 1200000), "4:00 /km"); // 5 km in 20 min
    assert_eq!(format_pace(1000, 300000), "5:00 /km"); // 1 km in 5 min
    assert_eq!(format_pace(0, 1000), "0:00 /km");
}

#[test]
fn test_calculate_speed_kmh() {
    // 10 km in 1 hour = 10 km/h
    let speed = calculate_speed_kmh(10000, 3600000);
    assert_eq!(speed, 10_000);

    // 5 km in 30 min = 10 km/h
    let speed2 = calculate_speed_kmh(5000, 1800000);
    assert_eq!(speed2, 10_000);
}

#[test]
fn test_cycling_pbs() {
    // A cycling activity: ~111 m per point, 40 s per point
    let points: Vec<Point> = (0..=100)
        .map(|i| Point::new(40_712_800 + (i as i64) * 1000, -74_006_000, i * 40000))
        .collect();

    let activity = Activity::new(
        "cycle-001".to_string(),
        "Morning Ride".to_string(),
        ActivityType::Cycle,
        points,
        0,
    );

    let segments = PBCalculator::calculate_segment_times(&activity);

    // Cycling records start at 10K, this activity is only ~11 km:
    // should find a 10K segment
    assert!(segments.iter().any(|s| s.distance_meters == 10000));
}
