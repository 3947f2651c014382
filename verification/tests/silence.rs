use echo::silence::SilenceDetector;

const SECOND: u128 = 1_000_000_000;

#[test]
fn silence_not_reported_before_any_voice() {
    let mut d = SilenceDetector::new(3 * SECOND, 0);
    assert!(!d.update(false, 10 * SECOND));
    assert!(!d.update(false, 1000 * SECOND));
}

#[test]
fn voice_reading_never_reports_silence() {
    let mut d = SilenceDetector::new(3 * SECOND, 0);
    assert!(!d.update(true, 5 * SECOND));
    assert!(!d.update(true, 500 * SECOND));
}

#[test]
fn silence_reported_only_after_duration_passes() {
    let mut d = SilenceDetector::new(3 * SECOND, 0);
    assert!(!d.update(true, SECOND));
    assert!(!d.update(false, 2 * SECOND));
    // exactly the duration is not yet longer than it
    assert!(!d.update(false, 4 * SECOND));
    assert!(d.update(false, 4 * SECOND + 1));
    // a new voice reading starts the count again
    assert!(!d.update(true, 10 * SECOND));
    assert!(!d.update(false, 12 * SECOND));
    assert!(d.update(false, 14 * SECOND));
}

#[test]
fn reset_forgets_voice() {
    let mut d = SilenceDetector::new(SECOND, 0);
    assert!(!d.update(true, 0));
    assert!(d.update(false, 5 * SECOND));
    d.reset(5 * SECOND);
    assert!(!d.update(false, 100 * SECOND));
}

#[test]
fn set_duration_changes_threshold() {
    let mut d = SilenceDetector::new(10 * SECOND, 0);
    assert!(!d.update(true, 0));
    assert!(!d.update(false, 5 * SECOND));
    d.set_duration(SECOND);
    assert!(d.update(false, 5 * SECOND));
}

#[test]
fn clock_reading_before_last_voice_counts_as_no_time() {
    let mut d = SilenceDetector::new(0, 0);
    assert!(!d.update(true, 50));
    assert!(!d.update(false, 10));
    assert!(d.update(false, 51));
}
