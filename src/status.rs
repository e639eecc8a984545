use vstd::prelude::*;

use crate::config::{ClipboardConfig, Config, UiConfig};
use crate::text::concat;

verus! {

/// Clipboard behaviour: whether text is also pasted into the active window.
#[derive(Debug, Clone)]
pub struct ClipboardManager {
    pub config: ClipboardConfig,
}

impl ClipboardManager {
    pub fn new(config: &Config) -> (r: Self)
        ensures
            r.config.auto_paste == config.clipboard.auto_paste,
            r.config.paste_delay_ms == config.clipboard.paste_delay_ms,
    {
        ClipboardManager {
            config: ClipboardConfig {
                auto_paste: config.clipboard.auto_paste,
                paste_delay_ms: config.clipboard.paste_delay_ms,
            },
        }
    }

    pub fn is_auto_paste_enabled(&self) -> (r: bool)
        ensures
            r == self.config.auto_paste,
    {
        self.config.auto_paste
    }

    pub fn set_auto_paste(&mut self, enabled: bool)
        ensures
            final(self).config.auto_paste == enabled,
            final(self).config.paste_delay_ms == old(self).config.paste_delay_ms,
    {
        self.config.auto_paste = enabled;
    }
}

/// The one-line status shown while the command-line flow runs. Times are
/// milliseconds on a monotonic clock, read by the caller.
#[derive(Debug, Clone)]
pub struct UiManager {
    pub config: UiConfig,
    pub start_ms: Option<u64>,
    pub current_status: String,
}

impl UiManager {
    pub fn new(config: &Config) -> (r: Self)
        ensures
            r.config.enabled == config.ui.enabled,
            r.start_ms is None,
            r.current_status@ == "Ready"@,
    {
        UiManager {
            config: UiConfig {
                enabled: config.ui.enabled,
                position_x: config.ui.position_x,
                position_y: config.ui.position_y,
                auto_hide_delay_ms: config.ui.auto_hide_delay_ms,
            },
            start_ms: None,
            current_status: "Ready".to_owned(),
        }
    }

    /// Starts the clock, when the display is enabled; returns whether it is.
    pub fn start(&mut self, now_ms: u64) -> (r: bool)
        ensures
            r == old(self).config.enabled,
            final(self).start_ms == if r { Some(now_ms) } else { old(self).start_ms },
            final(self).config == old(self).config,
            r ==> final(self).current_status@ == "Starting..."@,
            !r ==> final(self).current_status == old(self).current_status,
    {
        if !self.config.enabled {
            return false;
        }
        self.start_ms = Some(now_ms);
        self.set_status("Starting...");
        true
    }

    /// Sets the status line; returns whether it should be shown.
    pub fn set_status(&mut self, message: &str) -> (r: bool)
        ensures
            final(self).current_status@ == message@,
            final(self).config == old(self).config,
            final(self).start_ms == old(self).start_ms,
            r == old(self).config.enabled,
    {
        self.current_status = message.to_owned();
        self.config.enabled
    }

    pub fn start_recording(&mut self, profile: Option<&str>) -> (r: bool)
        ensures
            final(self).current_status@ == match profile {
                Some(p) => "Recording (profile: "@ + p@ + ")..."@,
                None => "Recording..."@,
            },
            final(self).config == old(self).config,
            r == old(self).config.enabled,
    {
        match profile {
            Some(p) => {
                let a = concat("Recording (profile: ", p);
                let m = concat(a.as_str(), ")...");
                self.set_status(m.as_str())
            },
            None => self.set_status("Recording..."),
        }
    }

    pub fn stop_recording(&mut self) -> (r: bool)
        ensures
            final(self).current_status@ == "Recording stopped"@,
            r == old(self).config.enabled,
    {
        self.set_status("Recording stopped")
    }

    pub fn set_model_loading(&mut self) -> (r: bool)
        ensures
            final(self).current_status@ == "Loading speech recognition model..."@,
            r == old(self).config.enabled,
    {
        self.set_status("Loading speech recognition model...")
    }

    pub fn set_model_ready(&mut self) -> (r: bool)
        ensures
            final(self).current_status@ == "Model ready"@,
            r == old(self).config.enabled,
    {
        self.set_status("Model ready")
    }

    pub fn set_transcribing(&mut self) -> (r: bool)
        ensures
            final(self).current_status@ == "Transcribing audio..."@,
            r == old(self).config.enabled,
    {
        self.set_status("Transcribing audio...")
    }

    pub fn set_refining(&mut self, profile: Option<&str>) -> (r: bool)
        ensures
            final(self).current_status@ == match profile {
                Some(p) => "Refining text (profile: "@ + p@ + ")..."@,
                None => "Refining text..."@,
            },
            r == old(self).config.enabled,
    {
        match profile {
            Some(p) => {
                let a = concat("Refining text (profile: ", p);
                let m = concat(a.as_str(), ")...");
                self.set_status(m.as_str())
            },
            None => self.set_status("Refining text..."),
        }
    }

    pub fn set_completed(&mut self, copied_to_clipboard: bool) -> (r: bool)
        ensures
            final(self).current_status@ == if copied_to_clipboard {
                "Text copied to clipboard!"@
            } else {
                "Text pasted to active window!"@
            },
            r == old(self).config.enabled,
    {
        if copied_to_clipboard {
            self.set_status("Text copied to clipboard!")
        } else {
            self.set_status("Text pasted to active window!")
        }
    }

    pub fn set_error(&mut self, error: &str) -> (r: bool)
        ensures
            final(self).current_status@ == "Error: "@ + error@,
            r == old(self).config.enabled,
    {
        let m = concat("Error: ", error);
        self.set_status(m.as_str())
    }

    pub fn set_warning(&mut self, warning: &str) -> (r: bool)
        ensures
            final(self).current_status@ == "Warning: "@ + warning@,
            r == old(self).config.enabled,
    {
        let m = concat("Warning: ", warning);
        self.set_status(m.as_str())
    }

    pub fn is_enabled(&self) -> (r: bool)
        ensures
            r == self.config.enabled,
    {
        self.config.enabled
    }

    pub fn current_status(&self) -> (r: &str)
        ensures
            r@ == self.current_status@,
    {
        self.current_status.as_str()
    }

    /// Milliseconds since `start`, when started (0 for a clock that went back).
    pub fn elapsed_ms(&self, now_ms: u64) -> (r: Option<u64>)
        ensures
            match self.start_ms {
                Some(s) => r == Some(if now_ms >= s { (now_ms - s) as u64 } else { 0u64 }),
                None => r is None,
            },
    {
        match self.start_ms {
            Some(s) => Some(if now_ms >= s { now_ms - s } else { 0 }),
            None => None,
        }
    }
}

} // verus!
