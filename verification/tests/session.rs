use banshee_run::point::Point;
use banshee_run::session::{BansheeSession, PacingStatus};

fn create_test_run() -> Vec<Point> {
    vec![
        Point::new(40_712_800, -74_006_000, 0),
        Point::new(40_713_200, -74_005_700, 5000), // ~50 m, 5 seconds
        Point::new(40_713_600, -74_005_400, 10000), // ~100 m, 10 seconds
        Point::new(40_714_000, -74_005_100, 15000), // ~150 m, 15 seconds
        Point::new(40_714_400, -74_004_800, 20000), // ~200 m, 20 seconds
    ]
}

#[test]
fn test_banshee_session_creation() {
    let coords = create_test_run();
    let session = BansheeSession::new(coords.clone());
    assert_eq!(session.best_run_coords.len(), 5);
    assert!(session.best_run_distance() > 0);
}

#[test]
fn test_best_run_duration() {
    let coords = create_test_run();
    let session = BansheeSession::new(coords);
    assert_eq!(session.best_run_duration_ms(), 20000);
}

#[test]
fn test_pacing_status_at_start() {
    let coords = create_test_run();
    let session = BansheeSession::new(coords.clone());

    // At the start, should be at same position
    let current = Point::new(40_712_800, -74_006_000, 0);
    let status = session.get_pacing_status(&current, 0);
    // At the exact start, we should be considered ahead (not behind)
    assert_ne!(status, PacingStatus::Behind);
}

#[test]
fn test_pacing_status_behind() {
    let coords = create_test_run();
    let session = BansheeSession::new(coords.clone());

    // Still at start after 10 seconds - should be behind
    let current = Point::new(40_712_800, -74_006_000, 10000);
    let status = session.get_pacing_status(&current, 10000);
    assert_eq!(status, PacingStatus::Behind);
}

#[test]
fn test_pacing_status_ahead() {
    let coords = create_test_run();
    let session = BansheeSession::new(coords.clone());

    // At position 4 (far ahead) after only 5 seconds - should be ahead
    let current = Point::new(40_714_400, -74_004_800, 5000);
    let status = session.get_pacing_status(&current, 5000);
    assert_eq!(status, PacingStatus::Ahead);
}

#[test]
fn test_is_behind() {
    let coords = create_test_run();
    let session = BansheeSession::new(coords.clone());

    // Still at start after 10 seconds - should be behind
    let current = Point::new(40_712_800, -74_006_000, 10000);
    assert!(session.is_behind(&current, 10000));

    // At far position after 5 seconds - should not be behind
    let current = Point::new(40_714_400, -74_004_800, 5000);
    assert!(!session.is_behind(&current, 5000));
}

#[test]
fn test_empty_best_run() {
    let session = BansheeSession::new(vec![]);
    let current = Point::new(40_712_800, -74_006_000, 10000);

    assert_eq!(session.get_pacing_status(&current, 10000), PacingStatus::Unknown);
    assert!(!session.is_behind(&current, 10000));
}
