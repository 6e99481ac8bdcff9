use banshee_run::point::Point;

#[test]
fn test_point_creation() {
    let point = Point::new(40_712_800, -74_006_000, 1000);
    assert_eq!(point.lat_udeg, 40_712_800);
    assert_eq!(point.lon_udeg, -74_006_000);
    assert_eq!(point.timestamp_ms, 1000);
}

#[test]
fn test_distance_same_point() {
    let point = Point::new(40_712_800, -74_006_000, 0);
    assert_eq!(point.distance_to(&point), 0);
}

#[test]
fn test_distance_known_points() {
    // New York City to Los Angeles
    let nyc = Point::new(40_712_800, -74_006_000, 0);
    let la = Point::new(34_052_200, -118_243_700, 0);
    let distance = nyc.distance_to(&la);
    // Expected distance is approximately 3935 km
    assert!(distance > 3_900_000 && distance < 4_000_000);
}

#[test]
fn test_distance_short() {
    // Two points about 100 meters apart
    let p1 = Point::new(40_712_800, -74_006_000, 0);
    let p2 = Point::new(40_713_700, -74_006_000, 0); // ~100 m north
    let distance = p1.distance_to(&p2);
    assert!(distance > 90 && distance < 110);
}
