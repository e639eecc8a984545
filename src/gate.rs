use vstd::prelude::*;

use crate::level::{calculate_rms, loudness};

verus! {

/// What a silence detector decides after one loudness reading.
#[derive(Debug, Clone, Copy, PartialEq, Eq, Structural)]
pub enum GateSignal {
    /// Keep recording.
    Continue,
    /// Silence lasted longer than the configured duration.
    StopSilence,
    /// The recording reached its maximum length.
    StopTimeout,
}

/// Turns a stream of loudness readings into a stop decision, with hysteresis:
/// recording stops only after an unbroken silent run that lasts longer than
/// `silence_duration_ms`, or once more than `max_recording_ms` have passed
/// since `start_ms`. Times are milliseconds on a monotonic clock.
#[derive(Debug, Clone, Copy, PartialEq, Eq)]
pub struct SilenceGate {
    pub threshold: u64,
    pub silence_duration_ms: u64,
    pub max_recording_ms: u64,
    pub start_ms: u64,
    /// When the current silent run began; `None` while sound is present.
    pub silence_since: Option<u64>,
}

/// `now - since > limit`, on integers (a clock reading before `since` never exceeds).
pub open spec fn exceeds(now: u64, since: u64, limit: u64) -> bool {
    now as int - since as int > limit as int
}

/// One reading: the detector's next state and its signal.
pub open spec fn gate_step(g: SilenceGate, level: u64, now: u64) -> (SilenceGate, GateSignal) {
    if exceeds(now, g.start_ms, g.max_recording_ms) {
        (g, GateSignal::StopTimeout)
    } else if level < g.threshold {
        match g.silence_since {
            None => (SilenceGate { silence_since: Some(now), ..g }, GateSignal::Continue),
            Some(t) => if exceeds(now, t, g.silence_duration_ms) {
                (g, GateSignal::StopSilence)
            } else {
                (g, GateSignal::Continue)
            },
        }
    } else {
        (SilenceGate { silence_since: None, ..g }, GateSignal::Continue)
    }
}

/// Feeds readings `(loudness, time)` in order and yields the first stop
/// signal, or `Continue` if none comes.
pub open spec fn gate_run(g: SilenceGate, events: Seq<(u64, u64)>) -> GateSignal
    decreases events.len(),
{
    if events.len() == 0 {
        GateSignal::Continue
    } else {
        let (next, signal) = gate_step(g, events[0].0, events[0].1);
        if signal != GateSignal::Continue {
            signal
        } else {
            gate_run(next, events.drop_first())
        }
    }
}

pub open spec fn all_quiet(g: SilenceGate, events: Seq<(u64, u64)>) -> bool {
    forall|i: int| 0 <= i < events.len() ==> #[trigger] events[i].0 < g.threshold
}

pub open spec fn all_loud(g: SilenceGate, events: Seq<(u64, u64)>) -> bool {
    forall|i: int| 0 <= i < events.len() ==> #[trigger] events[i].0 >= g.threshold
}

pub open spec fn times_ordered(events: Seq<(u64, u64)>) -> bool {
    forall|i: int, j: int| 0 <= i <= j < events.len() ==> #[trigger] events[i].1 <= #[trigger] events[j].1
}

pub open spec fn within_limit(g: SilenceGate, events: Seq<(u64, u64)>) -> bool {
    forall|i: int| 0 <= i < events.len() ==> !exceeds(#[trigger] events[i].1, g.start_ms, g.max_recording_ms)
}

impl SilenceGate {
    /// A fresh gate for a recording that starts at `start_ms`.
    pub fn new(threshold: u64, silence_duration_ms: u64, max_recording_ms: u64, start_ms: u64) -> (r: Self)
        ensures
            r == (SilenceGate { threshold, silence_duration_ms, max_recording_ms, start_ms, silence_since: None }),
    {
        SilenceGate { threshold, silence_duration_ms, max_recording_ms, start_ms, silence_since: None }
    }

    /// Takes one loudness reading at time `now_ms`.
    pub fn observe(&mut self, level: u64, now_ms: u64) -> (r: GateSignal)
        ensures
            (*final(self), r) == gate_step(*old(self), level, now_ms),
    {
        if now_ms > self.start_ms && now_ms - self.start_ms > self.max_recording_ms {
            return GateSignal::StopTimeout;
        }
        if level < self.threshold {
            match self.silence_since {
                None => {
                    self.silence_since = Some(now_ms);
                    GateSignal::Continue
                },
                Some(t) => {
                    if now_ms > t && now_ms - t > self.silence_duration_ms {
                        GateSignal::StopSilence
                    } else {
                        GateSignal::Continue
                    }
                },
            }
        } else {
            self.silence_since = None;
            GateSignal::Continue
        }
    }

    /// Measures one block of samples and takes its loudness as a reading.
    pub fn observe_block(&mut self, samples: &[i16], now_ms: u64) -> (r: (u64, GateSignal))
        ensures
            r.0 == loudness(samples@),
            (*final(self), r.1) == gate_step(*old(self), r.0, now_ms),
    {
        let level = calculate_rms(samples);
        let signal = self.observe(level, now_ms);
        (level, signal)
    }
}

proof fn lemma_quiet_run_from(g: SilenceGate, t0: u64, events: Seq<(u64, u64)>)
    requires
        g.silence_since == Some(t0),
        all_quiet(g, events),
        times_ordered(events),
        within_limit(g, events),
    ensures
        gate_run(g, events) == (if events.len() > 0 && exceeds(events.last().1, t0, g.silence_duration_ms) {
            GateSignal::StopSilence
        } else {
            GateSignal::Continue
        }),
    decreases events.len(),
{
    if events.len() > 0 {
        let e = events[0];
        assert(e.0 < g.threshold);
        assert(!exceeds(e.1, g.start_ms, g.max_recording_ms));
        assert(e.1 <= events.last().1);
        let rest = events.drop_first();
        assert forall|i: int| 0 <= i < rest.len() implies #[trigger] rest[i].0 < g.threshold by {
            assert(rest[i] == events[i + 1]);
        }
        assert forall|i: int, j: int| 0 <= i <= j < rest.len() implies #[trigger] rest[i].1 <= #[trigger] rest[j].1 by {
            assert(rest[i] == events[i + 1]);
            assert(rest[j] == events[j + 1]);
        }
        assert forall|i: int| 0 <= i < rest.len() implies !exceeds(#[trigger] rest[i].1, g.start_ms, g.max_recording_ms) by {
            assert(rest[i] == events[i + 1]);
        }
        lemma_quiet_run_from(g, t0, rest);
        if rest.len() > 0 {
            assert(rest.last() == events.last());
        }
    }
}

/// Hysteresis: starting from sound, an unbroken run of quiet readings stops
/// the recording exactly when its last reading comes more than
/// `silence_duration_ms` after its first one (so `duration - e` keeps
/// recording and `duration + e` stops it), as long as the recording is under
/// its maximum length.
pub proof fn lemma_silence_needs_full_duration(g: SilenceGate, events: Seq<(u64, u64)>)
    requires
        g.silence_since is None,
        events.len() > 0,
        all_quiet(g, events),
        times_ordered(events),
        within_limit(g, events),
    ensures
        gate_run(g, events) == (if exceeds(events.last().1, events[0].1, g.silence_duration_ms) {
            GateSignal::StopSilence
        } else {
            GateSignal::Continue
        }),
{
    let e = events[0];
    assert(e.0 < g.threshold);
    assert(!exceeds(e.1, g.start_ms, g.max_recording_ms));
    let g1 = SilenceGate { silence_since: Some(e.1), ..g };
    assert(gate_step(g, e.0, e.1) == (g1, GateSignal::Continue));
    let rest = events.drop_first();
    assert forall|i: int| 0 <= i < rest.len() implies #[trigger] rest[i].0 < g1.threshold by {
        assert(rest[i] == events[i + 1]);
    }
    assert forall|i: int, j: int| 0 <= i <= j < rest.len() implies #[trigger] rest[i].1 <= #[trigger] rest[j].1 by {
        assert(rest[i] == events[i + 1]);
        assert(rest[j] == events[j + 1]);
    }
    assert forall|i: int| 0 <= i < rest.len() implies !exceeds(#[trigger] rest[i].1, g1.start_ms, g1.max_recording_ms) by {
        assert(rest[i] == events[i + 1]);
    }
    lemma_quiet_run_from(g1, e.1, rest);
    if rest.len() > 0 {
        assert(rest.last() == events.last());
    } else {
        assert(events.last() == e);
    }
}

/// A loud reading in the middle of a silent run restarts the silence timer:
/// whatever state it is in, after a loud reading the quiet readings that
/// follow stop the recording only once they themselves span more than
/// `silence_duration_ms`.
pub proof fn lemma_loud_reading_restarts_timer(
    g: SilenceGate,
    level: u64,
    time: u64,
    events: Seq<(u64, u64)>,
)
    requires
        level >= g.threshold,
        !exceeds(time, g.start_ms, g.max_recording_ms),
        all_quiet(g, events),
        times_ordered(events),
        within_limit(g, events),
    ensures
        gate_run(g, seq![(level, time)] + events) == (if events.len() > 0 && exceeds(
            events.last().1,
            events[0].1,
            g.silence_duration_ms,
        ) {
            GateSignal::StopSilence
        } else {
            GateSignal::Continue
        }),
{
    let all = seq![(level, time)] + events;
    let g1 = SilenceGate { silence_since: None, ..g };
    assert(gate_step(g, level, time) == (g1, GateSignal::Continue));
    assert(all[0] == (level, time));
    assert(all.drop_first() =~= events);
    if events.len() > 0 {
        lemma_silence_needs_full_duration(g1, events);
    }
}

/// The maximum length is enforced even when the input never goes quiet: a
/// run of loud readings whose last one comes more than `max_recording_ms`
/// after the start ends with a timeout.
pub proof fn lemma_timeout_without_silence(g: SilenceGate, events: Seq<(u64, u64)>)
    requires
        events.len() > 0,
        all_loud(g, events),
        exceeds(events.last().1, g.start_ms, g.max_recording_ms),
    ensures
        gate_run(g, events) == GateSignal::StopTimeout,
    decreases events.len(),
{
    let e = events[0];
    if !exceeds(e.1, g.start_ms, g.max_recording_ms) {
        assert(e.0 >= g.threshold);
        let g1 = SilenceGate { silence_since: None, ..g };
        assert(gate_step(g, e.0, e.1) == (g1, GateSignal::Continue));
        let rest = events.drop_first();
        assert(events.len() > 1);
        assert(rest.last() == events.last());
        assert forall|i: int| 0 <= i < rest.len() implies #[trigger] rest[i].0 >= g1.threshold by {
            assert(rest[i] == events[i + 1]);
        }
        lemma_timeout_without_silence(g1, rest);
    }
}

} // verus!
