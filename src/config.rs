use vstd::prelude::*;

use crate::text::{decimal, str_eq, u64_to_decimal};

verus! {

/// Audio capture settings. Loudness values are in the units of
/// `level::LOUDNESS_SCALE`; durations are milliseconds.
#[derive(Debug, Clone)]
pub struct AudioConfig {
    pub sample_rate: u32,
    pub channels: u16,
    pub chunk_size: usize,
    pub silence_threshold: u64,
    pub silence_duration_ms: u64,
    pub max_recording_ms: u64,
}

impl AudioConfig {
    /// The settings a recording session may run with: a positive rate and
    /// channel count, and a maximum length above the silence duration.
    pub open spec fn valid(&self) -> bool {
        &&& self.sample_rate > 0
        &&& self.channels > 0
        &&& self.max_recording_ms > self.silence_duration_ms
    }

    pub fn is_valid(&self) -> (r: bool)
        ensures
            r == self.valid(),
    {
        self.sample_rate > 0 && self.channels > 0 && self.max_recording_ms > self.silence_duration_ms
    }
}

impl Default for AudioConfig {
    fn default() -> (r: Self)
        ensures
            r.sample_rate == 16000,
            r.channels == 1,
            r.chunk_size == 2048,
            r.silence_threshold == 491_520,
            r.silence_duration_ms == 2000,
            r.max_recording_ms == 120_000,
    {
        AudioConfig {
            sample_rate: 16000,
            channels: 1,
            chunk_size: 2048,
            silence_threshold: 491_520,
            silence_duration_ms: 2000,
            max_recording_ms: 120_000,
        }
    }
}

/// Speech-to-text backend settings.
#[derive(Debug, Clone)]
pub struct WhisperConfig {
    /// "api" or "local".
    pub backend: String,
    pub api_key: Option<String>,
    pub model: String,
    pub language: Option<String>,
    pub timeout: u64,
    pub model_path: Option<String>,
    pub download_models: bool,
    /// "auto", "cpu" or "cuda".
    pub device: String,
}

impl Default for WhisperConfig {
    fn default() -> (r: Self)
        ensures
            r.backend@ == "local"@,
            r.api_key is None,
            r.model@ == "tiny.en"@,
            r.language is Some && r.language->0@ == "en"@,
            r.timeout == 60,
            r.model_path is None,
            r.download_models,
            r.device@ == "auto"@,
    {
        WhisperConfig {
            backend: "local".to_owned(),
            api_key: None,
            model: "tiny.en".to_owned(),
            language: Some("en".to_owned()),
            timeout: 60,
            model_path: None,
            download_models: true,
            device: "auto".to_owned(),
        }
    }
}

#[derive(Debug, Clone)]
pub struct LlmProfile {
    pub name: String,
    pub prompt: String,
}

/// Text-refinement settings. `profiles` pairs each profile key with its
/// profile; keys are unique (see `profiles_unique`).
#[derive(Debug, Clone)]
pub struct LlmConfig {
    pub provider: String,
    pub model: String,
    pub max_tokens: u32,
    pub default_profile: String,
    pub profiles: Vec<(String, LlmProfile)>,
    pub api_key: Option<String>,
}

pub open spec fn keys_unique(p: Seq<(String, LlmProfile)>) -> bool {
    forall|i: int, j: int| 0 <= i < j < p.len() ==> #[trigger] p[i].0@ != #[trigger] p[j].0@
}

pub open spec fn has_key(p: Seq<(String, LlmProfile)>, key: Seq<char>) -> bool {
    exists|i: int| 0 <= i < p.len() && #[trigger] p[i].0@ == key
}

fn profile_entry(key: &str, name: &str, prompt: &str) -> (r: (String, LlmProfile))
    ensures
        r.0@ == key@,
        r.1.name@ == name@,
        r.1.prompt@ == prompt@,
{
    (key.to_owned(), LlmProfile { name: name.to_owned(), prompt: prompt.to_owned() })
}

impl LlmConfig {
    pub open spec fn profiles_unique(&self) -> bool {
        keys_unique(self.profiles@)
    }

    /// The profile stored under `key`, if any.
    pub fn profile(&self, key: &str) -> (r: Option<&LlmProfile>)
        ensures
            r is None <==> !has_key(self.profiles@, key@),
            r is Some ==> exists|i: int|
                0 <= i < self.profiles@.len() && self.profiles@[i].0@ == key@ && #[trigger] self.profiles@[i].1
                    == *r->0,
    {
        let mut i: usize = 0;
        while i < self.profiles.len()
            invariant
                0 <= i <= self.profiles@.len(),
                forall|j: int| 0 <= j < i ==> #[trigger] self.profiles@[j].0@ != key@,
            decreases self.profiles@.len() - i,
        {
            if str_eq(self.profiles[i].0.as_str(), key) {
                return Some(&self.profiles[i].1);
            }
            i = i + 1;
        }
        None
    }

    /// Whether a profile is stored under `key`.
    pub fn contains_profile(&self, key: &str) -> (r: bool)
        ensures
            r == has_key(self.profiles@, key@),
    {
        self.profile(key).is_some()
    }
}

impl Default for LlmConfig {
    fn default() -> (r: Self)
        ensures
            r.provider@ == "openai"@,
            r.model@ == "gpt-3.5-turbo"@,
            r.max_tokens == 500,
            r.default_profile@ == "general"@,
            r.api_key is None,
            r.profiles@.len() == 4,
            r.profiles@[0].0@ == "general"@,
            r.profiles@[1].0@ == "todo"@,
            r.profiles@[2].0@ == "email"@,
            r.profiles@[3].0@ == "slack"@,
            r.profiles_unique(),
    {
        proof {
            reveal_strlit("general");
            reveal_strlit("todo");
            reveal_strlit("email");
            reveal_strlit("slack");
            assert("general"@.len() == 7 && "todo"@.len() == 4 && "email"@.len() == 5 && "slack"@.len() == 5);
            assert("email"@[0] != "slack"@[0]);
        }
        let mut profiles: Vec<(String, LlmProfile)> = Vec::new();
        profiles.push(
            profile_entry(
                "general",
                "General Text Cleanup",
                "Please clean up and format this transcribed text, fixing any grammar issues and making it more readable. It is extremely important to maintain the original meaning and not add any additional information:",
            ),
        );
        profiles.push(
            profile_entry(
                "todo",
                "Todo/Task",
                "Convert this speech into a clear, actionable todo item or task description. Make it specific, concise, and action-oriented. Use bullet points (markdown format) if multiple tasks are mentioned:",
            ),
        );
        profiles.push(
            profile_entry(
                "email",
                "Email Format",
                "Format this transcribed text as a professional email. Fix grammar, structure sentences properly, and ensure appropriate tone:",
            ),
        );
        profiles.push(
            profile_entry(
                "slack",
                "Slack Message",
                "Format this transcribed text as a clear, concise Slack message. Keep it casual but professional, fix any grammar issues:",
            ),
        );
        proof {
            let p = profiles@;
            assert forall|i: int, j: int| 0 <= i < j < p.len() implies #[trigger] p[i].0@ != #[trigger] p[j].0@ by {
                assert(p[2].0@[0] != p[3].0@[0]);
                if i == 0 {
                    assert(p[i].0@.len() != p[j].0@.len());
                } else if i == 1 {
                    assert(p[i].0@.len() != p[j].0@.len());
                }
            }
        }
        LlmConfig {
            provider: "openai".to_owned(),
            model: "gpt-3.5-turbo".to_owned(),
            max_tokens: 500,
            default_profile: "general".to_owned(),
            profiles,
            api_key: None,
        }
    }
}

/// Clipboard settings; `paste_delay_ms` is the wait before auto-pasting.
#[derive(Debug, Clone)]
pub struct ClipboardConfig {
    pub auto_paste: bool,
    pub paste_delay_ms: u64,
}

impl Default for ClipboardConfig {
    fn default() -> (r: Self)
        ensures
            !r.auto_paste,
            r.paste_delay_ms == 100,
    {
        ClipboardConfig { auto_paste: false, paste_delay_ms: 100 }
    }
}

/// Status-display settings.
#[derive(Debug, Clone)]
pub struct UiConfig {
    pub enabled: bool,
    pub position_x: u32,
    pub position_y: u32,
    pub auto_hide_delay_ms: u64,
}

impl Default for UiConfig {
    fn default() -> (r: Self)
        ensures
            r.enabled,
            r.position_x == 50,
            r.position_y == 50,
            r.auto_hide_delay_ms == 3000,
    {
        UiConfig { enabled: true, position_x: 50, position_y: 50, auto_hide_delay_ms: 3000 }
    }
}

#[derive(Debug, Clone)]
pub struct Config {
    pub audio: AudioConfig,
    pub whisper: WhisperConfig,
    pub llm: LlmConfig,
    pub clipboard: ClipboardConfig,
    pub ui: UiConfig,
}

impl Default for Config {
    fn default() -> (r: Self)
        ensures
            r.audio.valid(),
            r.audio.sample_rate == 16000,
            r.audio.channels == 1,
            r.audio.chunk_size == 2048,
            r.audio.silence_threshold == 491_520,
            r.audio.silence_duration_ms == 2000,
            r.audio.max_recording_ms == 120_000,
            r.whisper.backend@ == "local"@,
            r.whisper.api_key is None,
            r.whisper.model@ == "tiny.en"@,
            r.whisper.language is Some && r.whisper.language->0@ == "en"@,
            r.whisper.timeout == 60,
            r.whisper.model_path is None,
            r.whisper.download_models,
            r.whisper.device@ == "auto"@,
            r.llm.provider@ == "openai"@,
            r.llm.model@ == "gpt-3.5-turbo"@,
            r.llm.max_tokens == 500,
            r.llm.default_profile@ == "general"@,
            r.llm.api_key is None,
            r.llm.profiles@.len() == 4,
            r.llm.profiles@[0].0@ == "general"@,
            r.llm.profiles@[1].0@ == "todo"@,
            r.llm.profiles@[2].0@ == "email"@,
            r.llm.profiles@[3].0@ == "slack"@,
            r.llm.profiles_unique(),
            !r.clipboard.auto_paste,
            r.clipboard.paste_delay_ms == 100,
            r.ui.enabled,
            r.ui.position_x == 50,
            r.ui.position_y == 50,
            r.ui.auto_hide_delay_ms == 3000,
    {
        Config {
            audio: AudioConfig::default(),
            whisper: WhisperConfig::default(),
            llm: LlmConfig::default(),
            clipboard: ClipboardConfig::default(),
            ui: UiConfig::default(),
        }
    }
}

pub open spec fn bool_text(b: bool) -> Seq<char> {
    if b {
        "true"@
    } else {
        "false"@
    }
}

/// The value that `get_nested` reports for a dotted key.
pub open spec fn nested_value(c: Config, key: Seq<char>) -> Option<Seq<char>> {
    if key == "audio.silence_threshold"@ {
        Some(decimal(c.audio.silence_threshold as nat))
    } else if key == "audio.silence_duration_ms"@ {
        Some(decimal(c.audio.silence_duration_ms as nat))
    } else if key == "audio.max_recording_ms"@ {
        Some(decimal(c.audio.max_recording_ms as nat))
    } else if key == "whisper.model"@ {
        Some(c.whisper.model@)
    } else if key == "llm.provider"@ {
        Some(c.llm.provider@)
    } else if key == "llm.model"@ {
        Some(c.llm.model@)
    } else if key == "llm.default_profile"@ {
        Some(c.llm.default_profile@)
    } else if key == "clipboard.auto_paste"@ {
        Some(bool_text(c.clipboard.auto_paste))
    } else {
        None
    }
}

fn bool_to_text(b: bool) -> (r: String)
    ensures
        r@ == bool_text(b),
{
    if b {
        "true".to_owned()
    } else {
        "false".to_owned()
    }
}

impl Config {
    /// A setting by its dotted key ("audio.silence_threshold", "llm.model", ...);
    /// `None` for a key that names no setting.
    pub fn get_nested(&self, key: &str) -> (r: Option<String>)
        ensures
            r is Some <==> nested_value(*self, key@) is Some,
            r is Some ==> r->0@ == nested_value(*self, key@)->0,
    {
        if str_eq(key, "audio.silence_threshold") {
            Some(u64_to_decimal(self.audio.silence_threshold))
        } else if str_eq(key, "audio.silence_duration_ms") {
            Some(u64_to_decimal(self.audio.silence_duration_ms))
        } else if str_eq(key, "audio.max_recording_ms") {
            Some(u64_to_decimal(self.audio.max_recording_ms))
        } else if str_eq(key, "whisper.model") {
            Some(self.whisper.model.clone())
        } else if str_eq(key, "llm.provider") {
            Some(self.llm.provider.clone())
        } else if str_eq(key, "llm.model") {
            Some(self.llm.model.clone())
        } else if str_eq(key, "llm.default_profile") {
            Some(self.llm.default_profile.clone())
        } else if str_eq(key, "clipboard.auto_paste") {
            Some(bool_to_text(self.clipboard.auto_paste))
        } else {
            None
        }
    }

    /// Sets the silence threshold; storing the configuration is up to the caller.
    pub fn set_silence_threshold(&mut self, threshold: u64)
        ensures
            *final(self) == (Config {
                audio: AudioConfig { silence_threshold: threshold, ..old(self).audio },
                ..*old(self)
            }),
    {
        self.audio.silence_threshold = threshold;
    }

    /// Applies API keys taken from the environment: an OpenAI key serves both
    /// the transcription API and refinement; an Anthropic key serves
    /// refinement when that provider is selected.
    pub fn apply_env_overrides(&mut self, openai_key: Option<String>, anthropic_key: Option<String>)
        ensures
            final(self).whisper.api_key == (match openai_key {
                Some(k) => Some(k),
                None => old(self).whisper.api_key,
            }),
            final(self).llm.api_key == (match anthropic_key {
                Some(k) if old(self).llm.provider@ == "anthropic"@ => Some(k),
                _ => match openai_key {
                    Some(k) => Some(k),
                    None => old(self).llm.api_key,
                },
            }),
            final(self).llm.provider == old(self).llm.provider,
    {
        if let Some(k) = openai_key {
            self.whisper.api_key = Some(k.clone());
            self.llm.api_key = Some(k);
        }
        if let Some(k) = anthropic_key {
            if str_eq(self.llm.provider.as_str(), "anthropic") {
                self.llm.api_key = Some(k);
            }
        }
    }
}

} // verus!
