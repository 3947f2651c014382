//! Push-to-talk recording: the session flags shared between the command
//! handlers and the capture thread, and the pacing of level updates.

use vstd::prelude::*;

verus! {

/// Message when a recording is started while one runs.
pub const ALREADY_RECORDING: &'static str = "Already recording";

/// Message when a recording holds no samples.
pub const NO_AUDIO_RECORDED: &'static str = "No audio recorded";

/// How many level updates are sent per second of audio.
pub const LEVEL_UPDATES_PER_SECOND: u32 = 15;

/// The largest interval between level updates, reached at the largest sample
/// rate: `u32::MAX / 15` frames.
pub const MAX_LEVEL_INTERVAL: usize = 286331153;

/// The flags of a push-to-talk session.
pub struct PttFlags {
    /// A capture is running.
    pub is_recording: bool,
    /// The user has released the hotkey; the capture should end.
    pub stop_requested: bool,
    /// The capture was ended by silence rather than by the user.
    pub silence_stopped: bool,
}

impl PttFlags {
    /// No session has started.
    pub fn idle() -> (f: Self)
        ensures
            !f.is_recording && !f.stop_requested && !f.silence_stopped,
    {
        PttFlags { is_recording: false, stop_requested: false, silence_stopped: false }
    }

    /// Starts a session: refused while one runs, else the capture is marked as
    /// running with no stop requested.
    pub fn try_start(&mut self) -> (r: Result<(), String>)
        ensures
            r is Err <==> old(self).is_recording,
            match started(*old(self)) {
                Some(f) => r is Ok && *final(self) == f,
                None => r matches Err(e) && e@ == ALREADY_RECORDING@ && *final(self) == *old(self),
            },
    {
        if self.is_recording {
            return Err(ALREADY_RECORDING.to_owned());
        }
        self.is_recording = true;
        self.stop_requested = false;
        self.silence_stopped = false;
        Ok(())
    }

    /// The user asks the capture to end.
    pub fn request_stop(&mut self)
        ensures
            *final(self) == (PttFlags { stop_requested: true, ..*old(self) }),
    {
        self.stop_requested = true;
    }

    /// The capture thread has ended, normally or because the device failed.
    pub fn capture_ended(&mut self)
        ensures
            *final(self) == ended(*old(self)),
    {
        self.is_recording = false;
    }
}

/// The flags after a successful start, or `None` when a capture runs.
pub open spec fn started(f: PttFlags) -> Option<PttFlags> {
    if f.is_recording {
        None
    } else {
        Some(PttFlags { is_recording: true, stop_requested: false, silence_stopped: false })
    }
}

/// The flags once the capture thread has ended.
pub open spec fn ended(f: PttFlags) -> PttFlags {
    PttFlags { is_recording: false, ..f }
}

/// A start is refused exactly when a capture runs, whatever the stop and
/// silence flags say; an accepted start always leaves a capture running with
/// no stop pending.
pub proof fn lemma_start_refused_only_while_recording(f: PttFlags)
    ensures
        started(f) is None <==> f.is_recording,
        started(f) matches Some(g) ==> g.is_recording && !g.stop_requested && !g.silence_stopped,
        started(PttFlags { stop_requested: true, ..ended(f) }) is Some,
{
}

/// At most one capture runs at a time: a start right after a successful start
/// is refused. Once the capture has ended, whatever the flags were, a new
/// session can start, and it begins with no stop pending.
pub proof fn lemma_one_session_at_a_time(f: PttFlags)
    ensures
        started(f) matches Some(g) ==> started(g) is None,
        started(ended(f)) matches Some(g) && g.is_recording && !g.stop_requested
            && !g.silence_stopped,
{
}

/// Frames of audio between two level updates at `sample_rate`.
pub fn level_update_interval(sample_rate: u32) -> (n: usize)
    ensures
        n == sample_rate / LEVEL_UPDATES_PER_SECOND,
        n <= MAX_LEVEL_INTERVAL,
{
    (sample_rate / LEVEL_UPDATES_PER_SECOND) as usize
}

/// Counts captured frames and says when the next level update is due.
pub struct LevelMeter {
    count: usize,
    interval: usize,
}

/// Frames counted since the last update, and the interval.
pub struct MeterState {
    pub count: nat,
    pub interval: nat,
}

impl View for LevelMeter {
    type V = MeterState;

    closed spec fn view(&self) -> MeterState {
        MeterState { count: self.count as nat, interval: self.interval as nat }
    }
}

impl LevelMeter {
    #[verifier::type_invariant]
    spec fn inv(self) -> bool {
        &&& self.interval <= MAX_LEVEL_INTERVAL
        &&& self.count == 0 || self.count < self.interval
    }

    /// A meter for audio at `sample_rate`, with nothing counted.
    pub fn new(sample_rate: u32) -> (m: Self)
        ensures
            m@ == (MeterState { count: 0, interval: (sample_rate / LEVEL_UPDATES_PER_SECOND) as nat }),
    {
        LevelMeter { count: 0, interval: level_update_interval(sample_rate) }
    }

    /// Counts `frames` more frames; returns whether a level update is due,
    /// which starts the count again.
    pub fn feed(&mut self, frames: usize) -> (due: bool)
        requires
            frames <= usize::MAX - MAX_LEVEL_INTERVAL,
        ensures
            final(self)@.interval == old(self)@.interval,
            due == (old(self)@.count + frames >= old(self)@.interval),
            final(self)@.count == if due { 0 } else { old(self)@.count + frames },
    {
        proof {
            use_type_invariant(&*self);
        }
        let total = self.count + frames;
        if total >= self.interval {
            self.count = 0;
            true
        } else {
            self.count = total;
            false
        }
    }
}

/// A recording with no samples cannot be saved.
pub fn require_audio(sample_count: usize) -> (r: Result<(), String>)
    ensures
        sample_count == 0 <==> r is Err,
        r matches Err(e) ==> e@ == NO_AUDIO_RECORDED@,
{
    if sample_count == 0 {
        Err(NO_AUDIO_RECORDED.to_owned())
    } else {
        Ok(())
    }
}

} // verus!
