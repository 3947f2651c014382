use echo::resample::{resampled_frame_count, source_position, WHISPER_SAMPLE_RATE};

#[test]
fn frame_counts_at_sixteen_khz() {
    assert_eq!(WHISPER_SAMPLE_RATE, 16000);
    assert_eq!(resampled_frame_count(48000, 48000), 16000);
    assert_eq!(resampled_frame_count(44100, 44100), 16000);
    assert_eq!(resampled_frame_count(8000, 8000), 16000);
    assert_eq!(resampled_frame_count(1000, 16000), 1000);
    assert_eq!(resampled_frame_count(0, 44100), 0);
}

#[test]
fn source_positions() {
    assert_eq!(source_position(0, 48000), (0, 0));
    assert_eq!(source_position(1, 48000), (3, 0));
    assert_eq!(source_position(1, 44100), (2, 12100));
    assert_eq!(source_position(3, 8000), (1, 8000));
}

#[test]
fn every_source_frame_is_recorded() {
    for &rate in &[8000u32, 11025, 16000, 22050, 44100, 48000, 96000] {
        let frames = 12345usize;
        let n = resampled_frame_count(frames, rate);
        for k in 0..n {
            assert!((source_position(k, rate).0 as usize) < frames);
        }
    }
}
