use vstd::prelude::*;

use crate::config::Config;
use crate::level::{calculate_rms, loudness};
use crate::text::{concat, str_eq};

verus! {

/// Where the terminal interface stands.
#[derive(Debug, Clone, Copy, PartialEq, Eq, Structural)]
pub enum AppState {
    Idle,
    LoadingModel,
    Recording,
    Processing,
    Transcribing,
    Finished,
    ModelSelection,
    ShowingShortcuts,
}

/// A key press, as far as the interface tells keys apart.
#[derive(Debug, Clone, Copy, PartialEq, Eq, Structural)]
pub enum Key {
    Up,
    Down,
    Enter,
    Esc,
    Char(char),
    Other,
}

/// What a key press asks of the capture thread.
#[derive(Debug, Clone, Copy, PartialEq, Eq, Structural)]
pub enum KeyEffect {
    Nothing,
    StartAudio,
    StopAudio,
}

/// Log lines kept for display.
pub const MAX_LOG_MESSAGES: usize = 50;

/// Points of the waveform kept for display.
pub const WAVEFORM_SAMPLES: usize = 100;

/// Time added per tick while recording.
pub const TICK_MS: u64 = 100;

/// The state the terminal interface draws, and the rules that change it.
pub struct App {
    pub state: AppState,
    pub config: Config,
    pub recording_duration_ms: u64,
    pub audio_waveform: Vec<i16>,
    pub running: bool,
    pub device_name: String,
    pub model_status: String,
    pub audio_level: u64,
    pub transcribed_text: Option<String>,
    pub logs: Vec<String>,
    pub show_logs: bool,
    pub transcription_initiated: bool,
    pub available_models: Vec<String>,
    pub selected_model_index: usize,
    pub model_change_requested: bool,
}

pub open spec fn model_names() -> Seq<Seq<char>> {
    seq!["tiny.en"@, "base.en"@, "small.en"@, "medium.en"@, "large"@, "large-v3-turbo"@]
}

/// The first index of `name` among the models, or 0 when it is not there.
pub open spec fn model_index(models: Seq<String>, name: Seq<char>) -> int {
    if exists|i: int| 0 <= i < models.len() && #[trigger] models[i]@ == name {
        choose|i: int|
            0 <= i < models.len() && #[trigger] models[i]@ == name && forall|j: int|
                0 <= j < i ==> #[trigger] models[j]@ != name
    } else {
        0
    }
}

/// The last `n` elements (all of them when there are fewer).
pub open spec fn keep_last<T>(s: Seq<T>, n: nat) -> Seq<T> {
    if s.len() > n {
        s.subrange(s.len() - n, s.len() as int)
    } else {
        s
    }
}

pub open spec fn wave_step(n: nat) -> nat {
    if n > WAVEFORM_SAMPLES {
        n / (WAVEFORM_SAMPLES as nat)
    } else {
        1
    }
}

/// Every `wave_step`-th sample of a block, at most `WAVEFORM_SAMPLES` of them.
pub open spec fn downsample(s: Seq<i16>) -> Seq<i16> {
    let step = wave_step(s.len());
    let count = (s.len() + step - 1) / step as int;
    let k = if count > WAVEFORM_SAMPLES { WAVEFORM_SAMPLES as int } else { count };
    Seq::new(k as nat, |i: int| s[i * step])
}

fn model_list() -> (r: Vec<String>)
    ensures
        r@.len() == 6,
        forall|i: int| 0 <= i < 6 ==> #[trigger] r@[i]@ == model_names()[i],
{
    let mut v: Vec<String> = Vec::new();
    v.push("tiny.en".to_owned());
    v.push("base.en".to_owned());
    v.push("small.en".to_owned());
    v.push("medium.en".to_owned());
    v.push("large".to_owned());
    v.push("large-v3-turbo".to_owned());
    v
}

impl App {
    /// The list of models is never empty, and the selection points into it.
    pub open spec fn wf(&self) -> bool {
        &&& self.available_models@.len() > 0
        &&& self.selected_model_index < self.available_models@.len()
        &&& self.logs@.len() <= MAX_LOG_MESSAGES
        &&& self.audio_waveform@.len() <= WAVEFORM_SAMPLES
    }

    /// A new interface, loading the configured model; the selection starts
    /// at that model when it is one of the offered ones.
    pub fn new(config: Config, device_name: String) -> (r: Self)
        ensures
            r.wf(),
            r.state == AppState::LoadingModel,
            r.running,
            r.device_name == device_name,
            r.model_status@ == "Loading "@ + config.whisper.model@ + "..."@,
            r.recording_duration_ms == 0,
            r.audio_level == 0,
            r.transcribed_text is None,
            r.logs@.len() == 0,
            r.audio_waveform@.len() == 0,
            !r.show_logs,
            !r.transcription_initiated,
            !r.model_change_requested,
            r.available_models@.len() == 6,
            forall|i: int| 0 <= i < 6 ==> #[trigger] r.available_models@[i]@ == model_names()[i],
            r.selected_model_index == model_index(r.available_models@, config.whisper.model@),
    {
        let available_models = model_list();
        let mut idx: usize = 0;
        let mut found = false;
        let mut i: usize = 0;
        while i < available_models.len()
            invariant
                0 <= i <= available_models@.len(),
                available_models@.len() == 6,
                !found ==> idx == 0,
                !found ==> forall|j: int| 0 <= j < i ==> #[trigger] available_models@[j]@ != config.whisper.model@,
                found ==> idx < available_models@.len() && available_models@[idx as int]@ == config.whisper.model@
                    && forall|j: int| 0 <= j < idx ==> #[trigger] available_models@[j]@ != config.whisper.model@,
            decreases available_models@.len() - i,
        {
            if !found && str_eq(available_models[i].as_str(), config.whisper.model.as_str()) {
                idx = i;
                found = true;
            }
            i = i + 1;
        }
        proof {
            let models = available_models@;
            let name = config.whisper.model@;
            if found {
                let w = idx as int;
                assert(0 <= w < models.len() && models[w]@ == name);
                let c = choose|c: int|
                    0 <= c < models.len() && #[trigger] models[c]@ == name && forall|j: int|
                        0 <= j < c ==> #[trigger] models[j]@ != name;
                assert(c == w) by {
                    if c < w {
                        assert(models[c]@ != name);
                    } else if w < c {
                        assert(models[w]@ != name);
                    }
                }
            }
        }
        let status = concat("Loading ", config.whisper.model.as_str());
        let model_status = concat(status.as_str(), "...");
        App {
            state: AppState::LoadingModel,
            config,
            recording_duration_ms: 0,
            audio_waveform: Vec::new(),
            running: true,
            device_name,
            model_status,
            audio_level: 0,
            transcribed_text: None,
            logs: Vec::new(),
            show_logs: false,
            transcription_initiated: false,
            available_models,
            selected_model_index: idx,
            model_change_requested: false,
        }
    }

    /// Advances the recording clock by one tick while recording.
    pub fn tick(&mut self)
        ensures
            *final(self) == (App {
                recording_duration_ms: if old(self).state == AppState::Recording {
                    if old(self).recording_duration_ms > u64::MAX - TICK_MS {
                        u64::MAX
                    } else {
                        (old(self).recording_duration_ms + TICK_MS) as u64
                    }
                } else {
                    old(self).recording_duration_ms
                },
                ..*old(self)
            }),
    {
        if self.state == AppState::Recording {
            if self.recording_duration_ms > u64::MAX - TICK_MS {
                self.recording_duration_ms = u64::MAX;
            } else {
                self.recording_duration_ms = self.recording_duration_ms + TICK_MS;
            }
        }
    }

    /// From `Idle` only: begins a recording with a clean slate.
    pub fn start_recording(&mut self)
        requires
            old(self).wf(),
        ensures
            final(self).wf(),
            old(self).state == AppState::Idle ==> {
                &&& *final(self) == (App {
                    state: AppState::Recording,
                    recording_duration_ms: 0,
                    audio_waveform: final(self).audio_waveform,
                    transcribed_text: None,
                    transcription_initiated: false,
                    ..*old(self)
                })
                &&& final(self).audio_waveform@.len() == 0
            },
            old(self).state != AppState::Idle ==> *final(self) == *old(self),
    {
        if self.state == AppState::Idle {
            self.state = AppState::Recording;
            self.recording_duration_ms = 0;
            self.audio_waveform.clear();
            self.transcribed_text = None;
            self.transcription_initiated = false;
        }
    }

    /// From `Recording` only: moves on to transcription.
    pub fn stop_recording(&mut self)
        ensures
            *final(self) == (App {
                state: if old(self).state == AppState::Recording {
                    AppState::Transcribing
                } else {
                    old(self).state
                },
                ..*old(self)
            }),
    {
        if self.state == AppState::Recording {
            self.state = AppState::Transcribing;
        }
    }

    /// Stores the transcript and marks the work finished.
    pub fn finish_processing(&mut self, text: String)
        ensures
            *final(self) == (App {
                transcribed_text: Some(text),
                state: AppState::Finished,
                ..*old(self)
            }),
    {
        self.transcribed_text = Some(text);
        self.state = AppState::Finished;
    }

    /// From `Finished` only: back to `Idle`, ready for the next recording.
    pub fn reset(&mut self)
        requires
            old(self).wf(),
        ensures
            final(self).wf(),
            old(self).state == AppState::Finished ==> {
                &&& *final(self) == (App {
                    state: AppState::Idle,
                    transcription_initiated: false,
                    audio_waveform: final(self).audio_waveform,
                    ..*old(self)
                })
                &&& final(self).audio_waveform@.len() == 0
            },
            old(self).state != AppState::Finished ==> *final(self) == *old(self),
    {
        if self.state == AppState::Finished {
            self.state = AppState::Idle;
            self.transcription_initiated = false;
            self.audio_waveform.clear();
        }
    }

    pub fn quit(&mut self)
        ensures
            *final(self) == (App { running: false, ..*old(self) }),
    {
        self.running = false;
    }

    /// Appends a log line, keeping only the latest `MAX_LOG_MESSAGES`.
    pub fn add_log_message(&mut self, message: String)
        requires
            old(self).wf(),
        ensures
            final(self).wf(),
            final(self).logs@ == keep_last(old(self).logs@.push(message), MAX_LOG_MESSAGES as nat),
            *final(self) == (App { logs: final(self).logs, ..*old(self) }),
    {
        self.logs.push(message);
        if self.logs.len() > MAX_LOG_MESSAGES {
            let ghost full = self.logs@;
            let excess = self.logs.len() - MAX_LOG_MESSAGES;
            let mut kept: Vec<String> = Vec::new();
            let mut i: usize = excess;
            let n = self.logs.len();
            while i < n
                invariant
                    n == self.logs@.len(),
                    self.logs@ == full,
                    excess <= i <= n,
                    kept@ == full.subrange(excess as int, i as int),
                decreases n - i,
            {
                kept.push(self.logs[i].clone());
                proof {
                    assert(full.subrange(excess as int, i + 1) =~= full.subrange(excess as int, i as int).push(
                        full[i as int],
                    ));
                }
                i = i + 1;
            }
            self.logs = kept;
        }
    }

    pub fn enter_model_selection(&mut self)
        ensures
            *final(self) == (App {
                state: if old(self).state == AppState::Idle {
                    AppState::ModelSelection
                } else {
                    old(self).state
                },
                ..*old(self)
            }),
    {
        if self.state == AppState::Idle {
            self.state = AppState::ModelSelection;
        }
    }

    pub fn exit_model_selection(&mut self)
        ensures
            *final(self) == (App {
                state: if old(self).state == AppState::ModelSelection {
                    AppState::Idle
                } else {
                    old(self).state
                },
                ..*old(self)
            }),
    {
        if self.state == AppState::ModelSelection {
            self.state = AppState::Idle;
        }
    }

    /// Moves the selection up, wrapping from the first model to the last.
    pub fn select_previous_model(&mut self)
        requires
            old(self).wf(),
        ensures
            final(self).wf(),
            *final(self) == (App {
                selected_model_index: if old(self).selected_model_index > 0 {
                    (old(self).selected_model_index - 1) as usize
                } else {
                    (old(self).available_models@.len() - 1) as usize
                },
                ..*old(self)
            }),
    {
        if self.selected_model_index > 0 {
            self.selected_model_index = self.selected_model_index - 1;
        } else {
            self.selected_model_index = self.available_models.len() - 1;
        }
    }

    /// Moves the selection down, wrapping from the last model to the first.
    pub fn select_next_model(&mut self)
        requires
            old(self).wf(),
        ensures
            final(self).wf(),
            *final(self) == (App {
                selected_model_index: if old(self).selected_model_index < old(self).available_models@.len()
                    - 1 {
                    (old(self).selected_model_index + 1) as usize
                } else {
                    0
                },
                ..*old(self)
            }),
    {
        if self.selected_model_index < self.available_models.len() - 1 {
            self.selected_model_index = self.selected_model_index + 1;
        } else {
            self.selected_model_index = 0;
        }
    }

    pub fn get_selected_model(&self) -> (r: &str)
        requires
            self.wf(),
        ensures
            r@ == self.available_models@[self.selected_model_index as int]@,
    {
        self.available_models[self.selected_model_index].as_str()
    }

    pub fn get_current_model(&self) -> (r: &str)
        ensures
            r@ == self.config.whisper.model@,
    {
        self.config.whisper.model.as_str()
    }

    pub fn confirm_model_selection(&mut self)
        ensures
            *final(self) == (App { model_change_requested: true, ..*old(self) }),
    {
        self.model_change_requested = true;
    }

    pub fn enter_shortcuts(&mut self)
        ensures
            *final(self) == (App {
                state: if old(self).state == AppState::Idle || old(self).state == AppState::Finished {
                    AppState::ShowingShortcuts
                } else {
                    old(self).state
                },
                ..*old(self)
            }),
    {
        if self.state == AppState::Idle || self.state == AppState::Finished {
            self.state = AppState::ShowingShortcuts;
        }
    }

    pub fn exit_shortcuts(&mut self)
        ensures
            *final(self) == (App {
                state: if old(self).state == AppState::ShowingShortcuts {
                    AppState::Idle
                } else {
                    old(self).state
                },
                ..*old(self)
            }),
    {
        if self.state == AppState::ShowingShortcuts {
            self.state = AppState::Idle;
        }
    }

    /// Shows one captured block: its loudness, and a thinned copy appended to
    /// the waveform, which keeps the latest `WAVEFORM_SAMPLES` points.
    pub fn show_audio_block(&mut self, samples: &[i16])
        requires
            old(self).wf(),
        ensures
            final(self).wf(),
            final(self).audio_level == loudness(samples@),
            final(self).audio_waveform@ == keep_last(
                old(self).audio_waveform@ + downsample(samples@),
                WAVEFORM_SAMPLES as nat,
            ),
            final(self).state == old(self).state,
    {
        self.audio_level = calculate_rms(samples);
        let n = samples.len();
        let step: usize = if n > WAVEFORM_SAMPLES {
            n / WAVEFORM_SAMPLES
        } else {
            1
        };
        let ghost ds = downsample(samples@);
        let mut combined: Vec<i16> = Vec::new();
        let mut i: usize = 0;
        while i < self.audio_waveform.len()
            invariant
                0 <= i <= self.audio_waveform@.len(),
                combined@ == self.audio_waveform@.subrange(0, i as int),
            decreases self.audio_waveform@.len() - i,
        {
            combined.push(self.audio_waveform[i]);
            proof {
                assert(self.audio_waveform@.subrange(0, i + 1) =~= self.audio_waveform@.subrange(0, i as int).push(
                    self.audio_waveform@[i as int],
                ));
            }
            i = i + 1;
        }
        proof {
            assert(self.audio_waveform@.subrange(0, i as int) =~= self.audio_waveform@);
        }
        let ghost base = combined@;
        let mut pos: usize = 0;
        let mut taken: usize = 0;
        while pos < n && taken < WAVEFORM_SAMPLES
            invariant
                n == samples@.len(),
                step == wave_step(n as nat),
                step >= 1,
                pos == taken * step,
                pos <= n,
                taken <= WAVEFORM_SAMPLES,
                taken <= ds.len(),
                ds == downsample(samples@),
                combined@ == base + ds.subrange(0, taken as int),
            decreases WAVEFORM_SAMPLES - taken,
        {
            proof {
                let count = (n + step - 1) / step as int;
                assert(taken < count) by (nonlinear_arith)
                    requires
                        pos == taken * step,
                        pos < n,
                        step >= 1,
                        count == (n + step - 1) / step as int,
                ;
                assert(ds[taken as int] == samples@[pos as int]);
                if n > WAVEFORM_SAMPLES {
                    assert((taken + 1) * step <= n) by (nonlinear_arith)
                        requires
                            taken + 1 <= 100,
                            step == n / 100,
                    ;
                } else {
                    assert(step == 1);
                    assert((taken + 1) * step == pos + 1);
                }
            }
            combined.push(samples[pos]);
            proof {
                assert(ds.subrange(0, taken + 1) =~= ds.subrange(0, taken as int).push(ds[taken as int]));
            }
            proof {
                assert((taken + 1) * step == taken * step + step) by (nonlinear_arith);
            }
            taken = taken + 1;
            pos = pos + step;
        }
        proof {
            let count = (n + step - 1) / step as int;
            if taken < WAVEFORM_SAMPLES {
                assert(taken >= count) by (nonlinear_arith)
                    requires
                        taken * step >= n,
                        step >= 1,
                        count == (n + step - 1) / step as int,
                ;
            }
            assert(ds.len() == taken);
            assert(ds.subrange(0, taken as int) =~= ds);
        }
        if combined.len() > WAVEFORM_SAMPLES {
            let excess = combined.len() - WAVEFORM_SAMPLES;
            let mut kept: Vec<i16> = Vec::new();
            let mut j: usize = excess;
            let m = combined.len();
            while j < m
                invariant
                    m == combined@.len(),
                    excess <= j <= m,
                    kept@ == combined@.subrange(excess as int, j as int),
                decreases m - j,
            {
                kept.push(combined[j]);
                proof {
                    assert(combined@.subrange(excess as int, j + 1) =~= combined@.subrange(excess as int, j as int).push(
                        combined@[j as int],
                    ));
                }
                j = j + 1;
            }
            self.audio_waveform = kept;
        } else {
            self.audio_waveform = combined;
        }
    }

    /// One key press: what it changes here, and what it asks of the capture
    /// thread. `q` quits everywhere; Esc leaves the selection and shortcut
    /// screens and quits elsewhere; space starts a recording from `Idle`,
    /// stops one while recording, and returns to `Idle` from `Finished`.
    pub fn handle_key(&mut self, key: Key) -> (r: KeyEffect)
        requires
            old(self).wf(),
        ensures
            final(self).wf(),
            key == Key::Char('q') ==> !final(self).running,
            (key == Key::Char(' ') && old(self).state == AppState::Idle) ==> {
                &&& r == KeyEffect::StartAudio
                &&& *final(self) == (App {
                    state: AppState::Recording,
                    recording_duration_ms: 0,
                    audio_waveform: final(self).audio_waveform,
                    transcribed_text: None,
                    transcription_initiated: false,
                    ..*old(self)
                })
                &&& final(self).audio_waveform@.len() == 0
            },
            (key == Key::Char(' ') && old(self).state == AppState::Recording) ==> r == KeyEffect::StopAudio
                && *final(self) == (App { state: AppState::Transcribing, ..*old(self) }),
            (key == Key::Char(' ') && old(self).state == AppState::Finished) ==> r == KeyEffect::Nothing
                && *final(self) == (App { state: AppState::Idle, ..*old(self) }),
            (key == Key::Char(' ') && old(self).state != AppState::Idle && old(self).state != AppState::Recording
                && old(self).state != AppState::Finished) ==> *final(self) == *old(self),
            !(key == Key::Char(' ') && (old(self).state == AppState::Idle || old(self).state
                == AppState::Recording)) ==> r == KeyEffect::Nothing,
    {
        match self.state {
            AppState::ModelSelection => {
                match key {
                    Key::Up => self.select_previous_model(),
                    Key::Down => self.select_next_model(),
                    Key::Enter => self.confirm_model_selection(),
                    Key::Esc => self.exit_model_selection(),
                    Key::Char('q') => self.quit(),
                    _ => {},
                }
                KeyEffect::Nothing
            },
            AppState::ShowingShortcuts => {
                match key {
                    Key::Esc => self.exit_shortcuts(),
                    Key::Char('q') => self.quit(),
                    _ => {},
                }
                KeyEffect::Nothing
            },
            _ => {
                match key {
                    Key::Char('q') | Key::Esc => {
                        self.quit();
                        KeyEffect::Nothing
                    },
                    Key::Char('l') => {
                        self.show_logs = !self.show_logs;
                        KeyEffect::Nothing
                    },
                    Key::Char('m') => {
                        self.enter_model_selection();
                        KeyEffect::Nothing
                    },
                    Key::Char('?') => {
                        self.enter_shortcuts();
                        KeyEffect::Nothing
                    },
                    Key::Char(' ') => {
                        match self.state {
                            AppState::Idle => {
                                self.start_recording();
                                KeyEffect::StartAudio
                            },
                            AppState::Recording => {
                                self.stop_recording();
                                KeyEffect::StopAudio
                            },
                            AppState::Finished => {
                                self.state = AppState::Idle;
                                KeyEffect::Nothing
                            },
                            _ => KeyEffect::Nothing,
                        }
                    },
                    _ => KeyEffect::Nothing,
                }
            },
        }
    }
}

} // verus!
