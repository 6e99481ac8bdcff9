use banshee_run::pace::{
    calculate_pace, calculate_pace_per_mile, format_pace, format_pace_per_mile, pace_to_speed,
    speed_to_pace,
};

#[test]
fn test_calculate_pace() {
    // 5 km in 25 minutes = 300 seconds per km
    let pace = calculate_pace(5000, 25 * 60 * 1000);
    assert_eq!(pace, 300);
}

#[test]
fn pace_test_format_pace() {
    assert_eq!(format_pace(300), "5:00");
    assert_eq!(format_pace(330), "5:30");
    assert_eq!(format_pace(420), "7:00");
}

#[test]
fn test_speed_pace_conversion() {
    let speed = 3330; // ~12 km/h, in mm/s
    let pace = speed_to_pace(speed);
    let back_to_speed = pace_to_speed(pace);
    assert!((speed as i64 - back_to_speed as i64).abs() < 10);
}

#[test]
fn test_pace_per_mile() {
    // One mile (1609 m) in 5 minutes: 300 seconds per mile
    assert_eq!(calculate_pace_per_mile(1609, 300_000), 300);
    // 5 km in 25 minutes: 482 seconds per mile
    assert_eq!(calculate_pace_per_mile(5000, 1_500_000), 482);
    assert_eq!(calculate_pace_per_mile(0, 1_500_000), 0);
    // 300 s/km scales to 482 s/mile
    assert_eq!(format_pace_per_mile(300), "8:02");
    assert_eq!(format_pace_per_mile(0), "--:--");
}
