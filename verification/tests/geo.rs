use banshee_run::geo::{bearing, haversine_distance, total_distance, GpsPoint};
use banshee_run::interp::{interpolate_position, interpolate_position_at_distance};

#[test]
fn test_haversine_distance() {
    // London to Paris (approximately 344 km)
    let distance = haversine_distance(51_507_400, -127_800, 48_856_600, 2_352_200);
    assert!(distance > 343_500 - 1000 && distance < 343_500 + 1000);
}

#[test]
fn test_zero_distance() {
    let distance = haversine_distance(51_507_400, -127_800, 51_507_400, -127_800);
    assert!(distance == 0);
}

#[test]
fn test_total_distance() {
    let points = vec![
        GpsPoint::new(51_507_400, -127_800, 0),
        GpsPoint::new(51_508_400, -127_800, 0),
        GpsPoint::new(51_509_400, -127_800, 0),
    ];

    let total = total_distance(&points);
    // Should be approximately 222 m (2 * 111 m per 0.001 degree latitude)
    assert!(total > 200 && total < 250);
}

fn create_test_track() -> Vec<GpsPoint> {
    vec![
        GpsPoint::new(51_500_000, -100_000, 0),
        GpsPoint::new(51_501_000, -100_000, 60_000),
        GpsPoint::new(51_502_000, -100_000, 120_000),
        GpsPoint::new(51_503_000, -100_000, 180_000),
    ]
}

#[test]
fn test_interpolate_at_start() {
    let points = create_test_track();
    let result = interpolate_position(&points, 0).unwrap();
    assert!((result.lat_udeg - 51_500_000).abs() < 100);
}

#[test]
fn test_interpolate_midpoint() {
    let points = create_test_track();
    let result = interpolate_position(&points, 30_000).unwrap(); // 30 seconds
    assert!(result.lat_udeg > 51_500_000 && result.lat_udeg < 51_501_000);
}

#[test]
fn test_interpolate_by_distance() {
    let points = create_test_track();
    let result = interpolate_position_at_distance(&points, 500).unwrap();
    assert!(result.lat_udeg > 51_500_000);
}

#[test]
fn test_bearing_cardinal_directions() {
    // One degree east, north, south and west of the origin
    assert_eq!(bearing(0, 0, 0, 1_000_000), 90_000_000);
    assert_eq!(bearing(0, 0, 1_000_000, 0), 0);
    assert_eq!(bearing(1_000_000, 0, 0, 0), 180_000_000);
    let west = bearing(0, 1_000_000, 0, 0);
    assert!(west >= 269_999_000 && west <= 270_000_000);
    assert_eq!(bearing(0, 0, 0, 0), 0);
}

#[test]
fn test_bearing_known_route() {
    // New York City to Los Angeles: roughly west by north, ~273.7 degrees
    let b = bearing(40_712_800, -74_006_000, 34_052_200, -118_243_700);
    assert!(b > 273_000_000 && b < 274_000_000);
}
