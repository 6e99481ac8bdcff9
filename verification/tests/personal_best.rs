use banshee_run::activity::ActivityType;
use banshee_run::personal_best::{PersonalBest, PersonalBests};

#[test]
fn test_personal_best_creation() {
    let pb = PersonalBest::new(
        ActivityType::Run,
        5000,
        1200000, // 20 minutes
        "run-001".to_string(),
        1234567890000,
    );

    assert_eq!(pb.activity_type, ActivityType::Run);
    assert_eq!(pb.distance_meters, 5000);
    assert_eq!(pb.time_ms, 1200000);
    assert_eq!(pb.pace_min_per_km, 4000); // 20 min / 5 km = 4 min/km
}

#[test]
fn test_format_time() {
    let pb = PersonalBest::new(
        ActivityType::Run,
        5000,
        1265000, // 21:05
        "run-001".to_string(),
        0,
    );
    assert_eq!(pb.format_time(), "21:05");

    let pb_long = PersonalBest::new(
        ActivityType::Cycle,
        100000,
        14520000, // 4:02:00
        "cycle-001".to_string(),
        0,
    );
    assert_eq!(pb_long.format_time(), "4:02:00");
}

#[test]
fn personal_best_test_format_pace() {
    let pb = PersonalBest::new(
        ActivityType::Run,
        5000,
        1200000, // 20 minutes, 4:00/km pace
        "run-001".to_string(),
        0,
    );
    assert_eq!(pb.format_pace(), "4:00 /km");
}

#[test]
fn test_personal_bests_update() {
    let mut pbs = PersonalBests::new();

    // Add first record
    let pb1 = PersonalBest::new(ActivityType::Run, 5000, 1200000, "run-001".to_string(), 1000);
    assert!(pbs.update(pb1));
    assert_eq!(pbs.records.len(), 1);

    // Try to add a slower record (should not update)
    let pb2 = PersonalBest::new(ActivityType::Run, 5000, 1300000, "run-002".to_string(), 2000);
    assert!(!pbs.update(pb2));
    assert_eq!(pbs.records.len(), 1);
    assert_eq!(pbs.records[0].activity_id, "run-001");

    // Add a faster record (should update)
    let pb3 = PersonalBest::new(ActivityType::Run, 5000, 1100000, "run-003".to_string(), 3000);
    assert!(pbs.update(pb3));
    assert_eq!(pbs.records.len(), 1);
    assert_eq!(pbs.records[0].activity_id, "run-003");
}

#[test]
fn test_personal_bests_get_for_type() {
    let mut pbs = PersonalBests::new();
    pbs.update(PersonalBest::new(ActivityType::Run, 5000, 1200000, "run-001".to_string(), 0));
    pbs.update(PersonalBest::new(ActivityType::Run, 10000, 2500000, "run-002".to_string(), 0));
    pbs.update(PersonalBest::new(ActivityType::Walk, 5000, 3000000, "walk-001".to_string(), 0));

    let run_pbs = pbs.get_for_type(ActivityType::Run);
    assert_eq!(run_pbs.len(), 2);

    let walk_pbs = pbs.get_for_type(ActivityType::Walk);
    assert_eq!(walk_pbs.len(), 1);

    let cycle_pbs = pbs.get_for_type(ActivityType::Cycle);
    assert_eq!(cycle_pbs.len(), 0);
}
