use banshee_run::point::Point;
use banshee_run::run_record::RunRecord;

fn create_test_run() -> Vec<Point> {
    vec![
        Point::new(40_712_800, -74_006_000, 0),
        Point::new(40_713_200, -74_005_700, 5000),
        Point::new(40_713_600, -74_005_400, 10000),
        Point::new(40_714_000, -74_005_100, 15000),
        Point::new(40_714_400, -74_004_800, 20000),
    ]
}

#[test]
fn test_run_record_creation() {
    let coords = create_test_run();
    let record = RunRecord::new(
        "test-run-001".to_string(),
        "Test Run".to_string(),
        coords,
        1234567890000,
    );

    assert_eq!(record.id, "test-run-001");
    assert_eq!(record.name, "Test Run");
    assert!(record.total_distance_meters > 0);
    assert_eq!(record.duration_ms, 20000);
}

#[test]
fn test_average_pace() {
    let coords = create_test_run();
    let record = RunRecord::new("test-run".to_string(), "Test".to_string(), coords, 0);

    let pace = record.average_pace_min_per_km();
    assert!(pace > 0);
}

#[test]
fn test_average_speed() {
    let coords = create_test_run();
    let record = RunRecord::new("test-run".to_string(), "Test".to_string(), coords, 0);

    let speed = record.average_speed_kmh();
    assert!(speed > 0);
}

#[test]
fn test_empty_run() {
    let record = RunRecord::new("empty".to_string(), "Empty".to_string(), vec![], 0);

    assert_eq!(record.total_distance_meters, 0);
    assert_eq!(record.duration_ms, 0);
    assert_eq!(record.average_pace_min_per_km(), 0);
    assert_eq!(record.average_speed_kmh(), 0);
}
