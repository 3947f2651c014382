//! Silence detection on a stream of loudness readings.
//!
//! Time is a reading of a monotonic clock in nanoseconds, supplied by the
//! caller with each event; whether a reading counts as voice is decided by the
//! caller from the level it measured.

use vstd::prelude::*;

verus! {

/// The abstract state of a [`SilenceDetector`].
pub struct DetectorState {
    /// Clock reading (ns) at which voice was last heard.
    pub last_voice_time: nat,
    /// How long silence must last, once voice was heard, to stop recording (ns).
    pub silence_duration: nat,
    /// Whether any voice has been heard since the last reset.
    pub has_detected_voice: bool,
}

/// Time elapsed since `since` at clock reading `now`; a clock reading that
/// lies before `since` counts as no time at all.
pub open spec fn elapsed(since: nat, now: nat) -> nat {
    if now >= since { (now - since) as nat } else { 0 }
}

/// The state after one reading, and whether silence has lasted long enough.
pub open spec fn step(s: DetectorState, voice: bool, now: nat) -> (DetectorState, bool) {
    if voice {
        (DetectorState { last_voice_time: now, has_detected_voice: true, ..s }, false)
    } else {
        (s, s.has_detected_voice && elapsed(s.last_voice_time, now) > s.silence_duration)
    }
}

/// The state right after a reset at clock reading `now`.
pub open spec fn reset_state(s: DetectorState, now: nat) -> DetectorState {
    DetectorState { last_voice_time: now, has_detected_voice: false, ..s }
}

/// Detects that the speaker has stopped: silence for longer than a set
/// duration after voice has been heard at least once.
pub struct SilenceDetector {
    last_voice_time: u128,
    silence_duration: u128,
    has_detected_voice: bool,
}

impl View for SilenceDetector {
    type V = DetectorState;

    closed spec fn view(&self) -> DetectorState {
        DetectorState {
            last_voice_time: self.last_voice_time as nat,
            silence_duration: self.silence_duration as nat,
            has_detected_voice: self.has_detected_voice,
        }
    }
}

impl SilenceDetector {
    /// A detector that has heard no voice yet, started at clock reading `now`.
    pub fn new(silence_duration: u128, now: u128) -> (d: Self)
        ensures
            d@ == (DetectorState {
                last_voice_time: now as nat,
                silence_duration: silence_duration as nat,
                has_detected_voice: false,
            }),
    {
        SilenceDetector { last_voice_time: now, silence_duration, has_detected_voice: false }
    }

    /// Feeds one reading taken at clock reading `now`; `voice` tells whether
    /// its level was above the voice threshold. Returns true when silence has
    /// lasted longer than the set duration since voice was last heard.
    pub fn update(&mut self, voice: bool, now: u128) -> (silent: bool)
        ensures
            (final(self)@, silent) == step(old(self)@, voice, now as nat),
            !voice ==> final(self)@ == old(self)@,
    {
        if voice {
            self.last_voice_time = now;
            self.has_detected_voice = true;
            false
        } else {
            self.has_detected_voice && now.saturating_sub(self.last_voice_time) > self.silence_duration
        }
    }

    /// Starts a new recording session at clock reading `now`.
    pub fn reset(&mut self, now: u128)
        ensures
            final(self)@ == reset_state(old(self)@, now as nat),
    {
        self.last_voice_time = now;
        self.has_detected_voice = false;
    }

    /// Changes how long silence must last.
    pub fn set_duration(&mut self, silence_duration: u128)
        ensures
            final(self)@ == (DetectorState { silence_duration: silence_duration as nat, ..old(self)@ }),
    {
        self.silence_duration = silence_duration;
    }
}

/// A reading of voice never reports silence.
pub proof fn lemma_voice_is_never_silence(s: DetectorState, now: nat)
    ensures
        !step(s, true, now).1,
        step(s, true, now).0.has_detected_voice,
{
}

/// Silence is only reported once voice has been heard: right after a reset,
/// no reading reports silence until a reading of voice comes, however long
/// the quiet lasts.
pub proof fn lemma_no_silence_before_voice(s: DetectorState, reset_at: nat, now: nat)
    ensures
        !step(reset_state(s, reset_at), false, now).1,
        step(reset_state(s, reset_at), false, now).0 == reset_state(s, reset_at),
{
}

/// After voice at clock reading `t`, a quiet reading at `now` reports silence
/// exactly when more than the set duration has passed since `t`.
pub proof fn lemma_silence_after_voice(s: DetectorState, t: nat, now: nat)
    ensures
        step(step(s, true, t).0, false, now).1 == (now > t + s.silence_duration),
{
}

/// A quiet reading changes nothing, so once silence has been reported it
/// stays reported for every later quiet reading, until voice or a reset.
pub proof fn lemma_silence_persists(s: DetectorState, t1: nat, t2: nat)
    requires
        t1 <= t2,
    ensures
        step(s, false, t1).0 == s,
        step(s, false, t1).1 ==> step(step(s, false, t1).0, false, t2).1,
{
}

} // verus!
