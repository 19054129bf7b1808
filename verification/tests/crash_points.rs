use turso_dst::crash_points::{
    crash_points_enabled, enable_crash_points, power_cut, reach_crash_point, CrashPoints,
};

#[test]
fn crash_points_are_inert_until_enabled() {
    let mut points = CrashPoints::new();
    assert!(!crash_points_enabled(&points));
    assert!(!reach_crash_point(&points, true));
    enable_crash_points(&mut points, true);
    assert!(crash_points_enabled(&points));
    assert!(!reach_crash_point(&points, false));
    assert!(reach_crash_point(&points, true));
    assert_eq!(points.fired, 0);
    power_cut(&mut points);
    assert_eq!(points.fired, 1);
    enable_crash_points(&mut points, false);
    assert!(!reach_crash_point(&points, true));
    assert_eq!(points.fired, 1);
}
