use media_vault_core::planner::{sample_instants, PlanError};

#[test]
fn test_fixed_mode_timestamps() {
    // 100 s, nine frames: every tenth of the duration
    let ts = sample_instants(100_000, "fixed", Some(9), None).unwrap();
    assert_eq!(ts.len(), 9);
    assert!((ts[0] as f64 / 1000.0 - 10.0).abs() < 0.01);
    assert!((ts[4] as f64 / 1000.0 - 50.0).abs() < 0.01);
    assert!((ts[8] as f64 / 1000.0 - 90.0).abs() < 0.01);
}

#[test]
fn test_fixed_mode_zero_count() {
    let ts = sample_instants(100_000, "fixed", Some(0), None).unwrap();
    assert!(ts.is_empty());
}

#[test]
fn test_interval_mode_timestamps() {
    // 10 minute video, frame every 2 minutes => at 120, 240, 360, 480 s
    let ts = sample_instants(600_000, "interval", None, Some(2_000)).unwrap();
    assert_eq!(ts.len(), 4);
    assert!((ts[0] as f64 / 1000.0 - 120.0).abs() < 0.01);
    assert!((ts[1] as f64 / 1000.0 - 240.0).abs() < 0.01);
    assert!((ts[2] as f64 / 1000.0 - 360.0).abs() < 0.01);
    assert!((ts[3] as f64 / 1000.0 - 480.0).abs() < 0.01);
}

#[test]
fn test_interval_mode_short_video() {
    // 30 second video, frame every 1 minute => no frames
    let ts = sample_instants(30_000, "interval", None, Some(1_000)).unwrap();
    assert!(ts.is_empty());
}

#[test]
fn test_unknown_mode() {
    let result = sample_instants(100_000, "unknown", None, None);
    assert!(result.is_err());
    assert_eq!(
        result.unwrap_err(),
        PlanError::UnknownMode("unknown".to_string())
    );
}

#[test]
fn test_fixed_mode_missing_count() {
    let result = sample_instants(100_000, "fixed", None, None);
    assert!(result.is_err());
    assert_eq!(result.unwrap_err(), PlanError::MissingCount);
}

#[test]
fn test_interval_mode_missing_minutes() {
    let result = sample_instants(100_000, "interval", None, None);
    assert!(result.is_err());
    assert_eq!(result.unwrap_err(), PlanError::MissingMinutes);
}

#[test]
fn test_interval_mode_zero_minutes() {
    let result = sample_instants(100_000, "interval", None, Some(0));
    assert_eq!(result.unwrap_err(), PlanError::IntervalNotPositive);
}

#[test]
fn test_fixed_mode_exact_division() {
    let ts = sample_instants(100_000, "fixed", Some(9), None).unwrap();
    assert_eq!(ts, vec![
        10_000, 20_000, 30_000, 40_000, 50_000, 60_000, 70_000, 80_000, 90_000,
    ]);
}
