use vstd::prelude::*;

use crate::config::AudioConfig;
use crate::gate::{gate_step, GateSignal, SilenceGate};
use crate::level::loudness;

verus! {

/// Recordings shorter than this are padded with trailing silence up to it.
pub const MIN_RECORDING_MS: u64 = 1000;

/// Samples (all channels, interleaved) in `MIN_RECORDING_MS` of audio:
/// `ceil(rate * MIN_RECORDING_MS / 1000)` frames of `channels` samples.
pub open spec fn min_samples(sample_rate: u32, channels: u16) -> nat {
    (((sample_rate as nat * MIN_RECORDING_MS as nat + 999) / 1000) * channels as nat) as nat
}

/// The recording padded with zeros up to the minimum length.
pub open spec fn padded(s: Seq<i16>, sample_rate: u32, channels: u16) -> Seq<i16> {
    if s.len() >= min_samples(sample_rate, channels) {
        s
    } else {
        s + Seq::new((min_samples(sample_rate, channels) - s.len()) as nat, |i: int| 0i16)
    }
}

/// Appends silence until the recording lasts at least `MIN_RECORDING_MS`.
pub fn pad_to_minimum(samples: &mut Vec<i16>, sample_rate: u32, channels: u16)
    requires
        min_samples(sample_rate, channels) <= usize::MAX,
    ensures
        final(samples)@ == padded(old(samples)@, sample_rate, channels),
{
    let frames: u64 = ((sample_rate as u64) * MIN_RECORDING_MS + 999) / 1000;
    let target: u128 = (frames as u128) * (channels as u128);
    let ghost start = samples@;
    if (samples.len() as u128) < target {
        let target = target as usize;
        while samples.len() < target
            invariant
                target == min_samples(sample_rate, channels),
                start.len() <= samples@.len() <= target,
                samples@ == start + Seq::new((samples@.len() - start.len()) as nat, |i: int| 0i16),
            decreases target - samples@.len(),
        {
            samples.push(0);
            proof {
                assert(samples@ =~= start + Seq::new((samples@.len() - start.len()) as nat, |i: int| 0i16));
            }
        }
    } else {
        proof {
            assert(samples@ == padded(start, sample_rate, channels));
        }
    }
}

/// A recording padded this way lasts exactly the minimum when it was
/// shorter, keeps what was recorded as its start, and ends in silence.
pub proof fn lemma_short_recording_padded(s: Seq<i16>, sample_rate: u32, channels: u16)
    requires
        s.len() < min_samples(sample_rate, channels),
    ensures
        padded(s, sample_rate, channels).len() == min_samples(sample_rate, channels),
        padded(s, sample_rate, channels).subrange(0, s.len() as int) == s,
        forall|i: int|
            s.len() <= i < min_samples(sample_rate, channels) ==> #[trigger] padded(s, sample_rate, channels)[i]
                == 0,
{
    assert(padded(s, sample_rate, channels).subrange(0, s.len() as int) =~= s);
}

/// One recording in progress: the samples so far, in capture order, and the
/// silence gate that decides when it ends.
pub struct RecordingSession {
    pub samples: Vec<i16>,
    pub gate: SilenceGate,
    pub sample_rate: u32,
    pub channels: u16,
}

impl RecordingSession {
    /// A fresh session: nothing recorded, and a gate with no silence observed.
    pub fn start(config: &AudioConfig, now_ms: u64) -> (r: Self)
        ensures
            r.samples@.len() == 0,
            r.gate == (SilenceGate {
                threshold: config.silence_threshold,
                silence_duration_ms: config.silence_duration_ms,
                max_recording_ms: config.max_recording_ms,
                start_ms: now_ms,
                silence_since: None,
            }),
            r.sample_rate == config.sample_rate,
            r.channels == config.channels,
    {
        RecordingSession {
            samples: Vec::new(),
            gate: SilenceGate::new(
                config.silence_threshold,
                config.silence_duration_ms,
                config.max_recording_ms,
                now_ms,
            ),
            sample_rate: config.sample_rate,
            channels: config.channels,
        }
    }

    /// Takes one block delivered at `now_ms`: appends its samples and feeds
    /// its loudness to the silence detector. Returns the loudness and its signal.
    pub fn push_block(&mut self, block: &[i16], now_ms: u64) -> (r: (u64, GateSignal))
        ensures
            final(self).samples@ == old(self).samples@ + block@,
            r.0 == loudness(block@),
            (final(self).gate, r.1) == gate_step(old(self).gate, r.0, now_ms),
            final(self).sample_rate == old(self).sample_rate,
            final(self).channels == old(self).channels,
    {
        let r = self.gate.observe_block(block, now_ms);
        let mut i: usize = 0;
        let ghost start = self.samples@;
        let ghost gate_after = self.gate;
        let ghost rate = self.sample_rate;
        let ghost chans = self.channels;
        while i < block.len()
            invariant
                0 <= i <= block@.len(),
                self.samples@ == start + block@.subrange(0, i as int),
                self.gate == gate_after,
                self.sample_rate == rate,
                self.channels == chans,
            decreases block@.len() - i,
        {
            self.samples.push(block[i]);
            proof {
                assert(block@.subrange(0, i + 1) =~= block@.subrange(0, i as int).push(block@[i as int]));
            }
            i = i + 1;
        }
        proof {
            assert(block@.subrange(0, block@.len() as int) =~= block@);
        }
        r
    }

    /// Ends the session: `None` when nothing was recorded, else the samples
    /// padded to the minimum length.
    pub fn finish(self) -> (r: Option<Vec<i16>>)
        requires
            min_samples(self.sample_rate, self.channels) <= usize::MAX,
        ensures
            self.samples@.len() == 0 ==> r is None,
            self.samples@.len() > 0 ==> r is Some && r->0@ == padded(
                self.samples@,
                self.sample_rate,
                self.channels,
            ),
    {
        if self.samples.len() == 0 {
            return None;
        }
        let mut samples = self.samples;
        pad_to_minimum(&mut samples, self.sample_rate, self.channels);
        Some(samples)
    }
}

/// What the capture thread does on one pass of its loop.
#[derive(Debug, Clone, Copy, PartialEq, Eq, Structural)]
pub enum CaptureAction {
    /// The application is shutting down: stop any stream and leave.
    Exit,
    /// Open a fresh stream and session.
    Begin,
    /// Stop the stream; the stop has been acknowledged.
    End,
    /// Nothing to do.
    Wait,
}

/// The signals between the interface and the capture thread: start and stop
/// requests, and acknowledgements of completed stops. A start drains every
/// stop still queued from before it, so a stale stop never ends the next
/// session.
#[derive(Debug, Clone, Copy, PartialEq, Eq)]
pub struct CaptureControl {
    pub active: bool,
    pub start_pending: bool,
    pub stops_pending: u64,
    pub acks_pending: u64,
}

pub open spec fn sat_inc(x: u64) -> u64 {
    if x == u64::MAX {
        x
    } else {
        (x + 1) as u64
    }
}

pub open spec fn control_request_start(c: CaptureControl) -> CaptureControl {
    CaptureControl { start_pending: true, ..c }
}

pub open spec fn control_request_stop(c: CaptureControl) -> CaptureControl {
    CaptureControl { stops_pending: sat_inc(c.stops_pending), ..c }
}

/// One pass of the capture loop. With no session running, a pending start
/// drains the queued stops and begins one. With a session running, a queued
/// stop ends it and is acknowledged; a start requested meanwhile stays
/// pending for the next pass.
pub open spec fn control_poll(c: CaptureControl, running: bool) -> (CaptureControl, CaptureAction) {
    if !running {
        (CaptureControl { active: false, ..c }, CaptureAction::Exit)
    } else if c.start_pending && !c.active {
        (CaptureControl { start_pending: false, stops_pending: 0, active: true, ..c }, CaptureAction::Begin)
    } else if c.active && c.stops_pending > 0 {
        (
            CaptureControl {
                stops_pending: (c.stops_pending - 1) as u64,
                active: false,
                acks_pending: sat_inc(c.acks_pending),
                ..c
            },
            CaptureAction::End,
        )
    } else {
        (c, CaptureAction::Wait)
    }
}

impl CaptureControl {
    pub fn new() -> (r: Self)
        ensures
            r == (CaptureControl { active: false, start_pending: false, stops_pending: 0, acks_pending: 0 }),
    {
        CaptureControl { active: false, start_pending: false, stops_pending: 0, acks_pending: 0 }
    }

    pub fn request_start(&mut self)
        ensures
            *final(self) == control_request_start(*old(self)),
    {
        self.start_pending = true;
    }

    pub fn request_stop(&mut self)
        ensures
            *final(self) == control_request_stop(*old(self)),
    {
        if self.stops_pending < u64::MAX {
            self.stops_pending = self.stops_pending + 1;
        }
    }

    pub fn poll(&mut self, running: bool) -> (r: CaptureAction)
        ensures
            (*final(self), r) == control_poll(*old(self), running),
    {
        if !running {
            self.active = false;
            return CaptureAction::Exit;
        }
        if self.start_pending && !self.active {
            self.start_pending = false;
            self.stops_pending = 0;
            self.active = true;
            return CaptureAction::Begin;
        }
        if self.active && self.stops_pending > 0 {
            self.stops_pending = self.stops_pending - 1;
            self.active = false;
            if self.acks_pending < u64::MAX {
                self.acks_pending = self.acks_pending + 1;
            }
            return CaptureAction::End;
        }
        CaptureAction::Wait
    }

    /// The stream could not be opened: no session runs after all.
    pub fn begin_failed(&mut self)
        ensures
            *final(self) == (CaptureControl { active: false, ..*old(self) }),
    {
        self.active = false;
    }

    /// Takes one acknowledgement of a completed stop, if there is one.
    pub fn take_ack(&mut self) -> (r: bool)
        ensures
            r == (old(self).acks_pending > 0),
            *final(self) == (if r {
                CaptureControl { acks_pending: (old(self).acks_pending - 1) as u64, ..*old(self) }
            } else {
                *old(self)
            }),
    {
        if self.acks_pending > 0 {
            self.acks_pending = self.acks_pending - 1;
            true
        } else {
            false
        }
    }
}

/// A session begun by `c1` runs on, pass after pass, until a stop is
/// requested after it began.
pub open spec fn fresh_session(c1: CaptureControl) -> bool {
    &&& c1.active
    &&& c1.stops_pending == 0
    &&& control_poll(c1, true) == (c1, CaptureAction::Wait)
    &&& control_poll(control_request_stop(c1), true).1 == CaptureAction::End
}

/// Stale stops are drained: whatever stops are still queued from the previous
/// session, a start requested right after it begins a fresh session, which no
/// leftover stop ends. With no session running, the next pass begins it; with
/// the previous session still stopping, the next pass finishes that stop and
/// the one after begins the new session.
pub proof fn lemma_stale_stop_is_drained(c: CaptureControl)
    requires
        !c.active || c.stops_pending > 0,
    ensures
        ({
            let (c1, a1) = control_poll(control_request_start(c), true);
            let (c2, a2) = control_poll(c1, true);
            &&& !c.active ==> a1 == CaptureAction::Begin && fresh_session(c1)
            &&& c.active ==> a1 == CaptureAction::End && a2 == CaptureAction::Begin && fresh_session(c2)
        }),
{
}

/// Whether the transcription backend can be used yet.
#[derive(Debug, Clone, PartialEq, Eq)]
pub enum Readiness {
    NotStarted,
    InProgress,
    Ready,
    Failed(String),
}

/// What becomes of a finished recording. Every outcome carries the audio.
#[derive(Debug)]
pub enum Handoff<A> {
    /// Transcribe it now.
    Transcribe(A),
    /// The backend is still being prepared: wait for it, keeping the audio.
    AwaitBackend(A),
    /// The backend failed: deliver the audio untranscribed, with the reason.
    Untranscribed { audio: A, reason: String },
}

impl<A> Handoff<A> {
    pub open spec fn audio_spec(&self) -> A {
        match self {
            Handoff::Transcribe(a) => *a,
            Handoff::AwaitBackend(a) => *a,
            Handoff::Untranscribed { audio, .. } => *audio,
        }
    }

    /// The recording, whatever the outcome.
    pub fn into_audio(self) -> (r: A)
        ensures
            r == self.audio_spec(),
    {
        match self {
            Handoff::Transcribe(a) => a,
            Handoff::AwaitBackend(a) => a,
            Handoff::Untranscribed { audio, .. } => audio,
        }
    }
}

pub open spec fn handoff_spec<A>(audio: A, readiness: Readiness) -> Handoff<A> {
    match readiness {
        Readiness::Ready => Handoff::Transcribe(audio),
        Readiness::Failed(reason) => Handoff::Untranscribed { audio, reason },
        _ => Handoff::AwaitBackend(audio),
    }
}

/// Decides what becomes of a finished recording, given the backend's state.
pub fn hand_off<A>(audio: A, readiness: &Readiness) -> (r: Handoff<A>)
    ensures
        r == handoff_spec(audio, *readiness),
{
    match readiness {
        Readiness::Ready => Handoff::Transcribe(audio),
        Readiness::Failed(reason) => Handoff::Untranscribed { audio, reason: reason.clone() },
        _ => Handoff::AwaitBackend(audio),
    }
}

/// A failed backend never costs the recording: the hand-off returns the audio
/// to the caller together with the failure reason.
pub proof fn lemma_failure_keeps_audio<A>(audio: A, reason: String)
    ensures
        handoff_spec(audio, Readiness::Failed(reason)) == (Handoff::Untranscribed { audio, reason }),
        handoff_spec(audio, Readiness::Failed(reason)).audio_spec() == audio,
{
}

/// Whatever the backend's state, the hand-off keeps the recording.
pub proof fn lemma_handoff_keeps_audio<A>(audio: A, readiness: Readiness)
    ensures
        handoff_spec(audio, readiness).audio_spec() == audio,
{
}

} // verus!
