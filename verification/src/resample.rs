//! Where the samples of a recording at 16 kHz, the rate whisper reads, come
//! from in the recording at the device's rate.
//!
//! Output frame `k` lies at source position `k * rate / 16000`: a whole frame
//! index and a fraction in sixteen-thousandths, between which the caller
//! interpolates.

use vstd::prelude::*;

verus! {

/// The sample rate of the WAV files handed to whisper.
pub const WHISPER_SAMPLE_RATE: u32 = 16000;

/// Frames of a recording of `frames` frames at `rate` once taken to 16 kHz.
pub open spec fn resampled_count_of(frames: nat, rate: nat) -> nat {
    (frames * WHISPER_SAMPLE_RATE as nat / rate) as nat
}

/// Frames of a recording of `frames` frames at `rate` once taken to 16 kHz.
pub fn resampled_frame_count(frames: usize, rate: u32) -> (n: u128)
    requires
        rate > 0,
    ensures
        n == resampled_count_of(frames as nat, rate as nat),
{
    assert(frames as u128 * 16000 <= u64::MAX as u128 * 16000) by (nonlinear_arith)
        requires
            frames <= u64::MAX,
    ;
    (frames as u128 * WHISPER_SAMPLE_RATE as u128) / rate as u128
}

/// Source position of 16 kHz output frame `k`: the frame index before it and
/// the fraction past that frame, in sixteen-thousandths.
pub fn source_position(k: u128, rate: u32) -> (pos: (u128, u32))
    requires
        k <= u64::MAX,
    ensures
        pos.0 * WHISPER_SAMPLE_RATE + pos.1 == k * rate,
        pos.1 < WHISPER_SAMPLE_RATE,
{
    assert(k * rate <= u64::MAX as u128 * u32::MAX as u128) by (nonlinear_arith)
        requires
            k <= u64::MAX,
            rate <= u32::MAX,
    ;
    let prod = k * rate as u128;
    let whole = prod / WHISPER_SAMPLE_RATE as u128;
    let rem = prod % WHISPER_SAMPLE_RATE as u128;
    assert(prod == whole * 16000 + rem) by (nonlinear_arith)
        requires
            whole == prod / 16000,
            rem == prod % 16000,
    ;
    let frac = rem as u32;
    (whole, frac)
}

/// Every output frame draws on the recording: the source frame of each of
/// the `resampled_count_of(frames, rate)` output frames is one of the
/// `frames` recorded frames.
pub proof fn lemma_source_in_recording(frames: nat, rate: nat, k: nat)
    requires
        rate > 0,
        k < resampled_count_of(frames, rate),
    ensures
        k * rate / (WHISPER_SAMPLE_RATE as nat) < frames,
{
    let f = frames * 16000;
    assert(k < f / rate);
    assert(k * rate <= (f / rate) * rate - rate) by (nonlinear_arith)
        requires
            k < f / rate,
            rate > 0,
    ;
    assert((f / rate) * rate <= f) by (nonlinear_arith)
        requires
            rate > 0,
            f >= 0,
    ;
    assert(k * rate < frames * 16000);
    assert(k * rate / 16000 < frames) by (nonlinear_arith)
        requires
            k * rate < frames * 16000,
            k * rate >= 0,
    ;
}

} // verus!
