use echo::recording::{level_update_interval, require_audio, LevelMeter, PttFlags, MAX_LEVEL_INTERVAL};

#[test]
fn second_start_is_refused_until_capture_ends() {
    let mut f = PttFlags::idle();
    assert!(f.try_start().is_ok());
    assert!(f.is_recording && !f.stop_requested && !f.silence_stopped);
    assert_eq!(f.try_start().unwrap_err(), "Already recording");
    f.request_stop();
    assert!(f.stop_requested && f.is_recording);
    f.capture_ended();
    assert!(!f.is_recording);
    assert!(f.try_start().is_ok());
    assert!(!f.stop_requested);
}

#[test]
fn level_interval_is_a_fifteenth_of_a_second() {
    assert_eq!(level_update_interval(48000), 3200);
    assert_eq!(level_update_interval(44100), 2940);
    assert_eq!(level_update_interval(14), 0);
    assert_eq!(level_update_interval(u32::MAX), MAX_LEVEL_INTERVAL);
}

#[test]
fn level_meter_reports_every_interval() {
    let mut m = LevelMeter::new(48000);
    assert!(!m.feed(1000));
    assert!(!m.feed(2199));
    assert!(m.feed(1));
    assert!(!m.feed(3199));
    assert!(m.feed(5000));
    assert!(!m.feed(0));
}

#[test]
fn zero_interval_reports_every_time() {
    let mut m = LevelMeter::new(10);
    assert!(m.feed(0));
    assert!(m.feed(5));
}

#[test]
fn empty_recording_is_refused() {
    assert_eq!(require_audio(0).unwrap_err(), "No audio recorded");
    assert!(require_audio(1).is_ok());
}
