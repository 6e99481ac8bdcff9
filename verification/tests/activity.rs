use banshee_run::activity::{Activity, ActivityIndex, ActivityType};
use banshee_run::point::Point;

fn create_test_coords() -> Vec<Point> {
    vec![
        Point::new(40_712_800, -74_006_000, 0),
        Point::new(40_713_200, -74_005_700, 5000),
        Point::new(40_713_600, -74_005_400, 10000),
        Point::new(40_714_000, -74_005_100, 15000),
        Point::new(40_714_400, -74_004_800, 20000),
    ]
}

#[test]
fn test_activity_type_pb_distances() {
    let run_distances = ActivityType::Run.pb_distances();
    assert_eq!(run_distances.len(), 5);
    assert_eq!(run_distances[0], 1_000);

    let cycle_distances = ActivityType::Cycle.pb_distances();
    assert_eq!(cycle_distances.len(), 4);
    assert_eq!(cycle_distances[0], 10_000);
}

#[test]
fn test_activity_type_from_int() {
    assert_eq!(ActivityType::from_int(0), Some(ActivityType::Run));
    assert_eq!(ActivityType::from_int(1), Some(ActivityType::Walk));
    assert_eq!(ActivityType::from_int(2), Some(ActivityType::Cycle));
    assert_eq!(ActivityType::from_int(3), Some(ActivityType::RollerSkate));
    assert_eq!(ActivityType::from_int(4), None);
}

#[test]
fn test_activity_creation() {
    let coords = create_test_coords();
    let activity = Activity::new(
        "test-001".to_string(),
        "Morning Run".to_string(),
        ActivityType::Run,
        coords,
        1234567890000,
    );

    assert_eq!(activity.id, "test-001");
    assert_eq!(activity.name, "Morning Run");
    assert_eq!(activity.activity_type, ActivityType::Run);
    assert!(activity.total_distance_meters > 0);
    assert_eq!(activity.duration_ms, 20000);
}

#[test]
fn test_activity_summary() {
    let coords = create_test_coords();
    let activity = Activity::new(
        "test-001".to_string(),
        "Morning Run".to_string(),
        ActivityType::Run,
        coords,
        1234567890000,
    );

    let summary = activity.to_summary();
    assert_eq!(summary.id, activity.id);
    assert_eq!(summary.activity_type, activity.activity_type);
    assert!(summary.pace_min_per_km > 0);
}

#[test]
fn test_activity_index() {
    let coords = create_test_coords();
    let activity1 = Activity::new(
        "run-001".to_string(),
        "Morning Run".to_string(),
        ActivityType::Run,
        coords.clone(),
        1000,
    );
    let activity2 = Activity::new(
        "walk-001".to_string(),
        "Evening Walk".to_string(),
        ActivityType::Walk,
        coords.clone(),
        2000,
    );

    let mut index = ActivityIndex::new();
    index.add(activity1.to_summary());
    index.add(activity2.to_summary());

    assert_eq!(index.activities.len(), 2);

    let sorted = index.sorted_by_date();
    assert_eq!(sorted[0].id, "walk-001"); // More recent first

    let runs = index.filter_by_type(ActivityType::Run);
    assert_eq!(runs.len(), 1);
    assert_eq!(runs[0].id, "run-001");
}
