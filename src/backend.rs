use vstd::prelude::*;

use crate::config::{Config, WhisperConfig};
use crate::recording::Readiness;
use crate::text::{concat, str_eq};

verus! {

/// Why a speech-to-text processor could not be set up.
#[derive(Debug, Clone, PartialEq, Eq)]
pub enum SttError {
    /// The configured backend is neither "api" nor "local".
    UnknownBackend(String),
}

impl SttError {
    /// A line for the user.
    pub fn message(&self) -> (r: String)
        ensures
            r@ == (match self {
                SttError::UnknownBackend(b) => "Unknown STT backend: "@ + b@,
            }),
    {
        match self {
            SttError::UnknownBackend(b) => concat("Unknown STT backend: ", b.as_str()),
        }
    }
}

/// Relies on `shellexpand::tilde`: a leading `~` alone or before `/` becomes
/// the home directory when one is known (the input is returned unchanged
/// otherwise); any other input is returned unchanged.
#[verifier::external_body]
fn expand_tilde(path: &str) -> (r: String)
    ensures
        (path@.len() > 0 && path@[0] == '~' && (path@.len() == 1 || path@[1] == '/')) ==> exists|home: Seq<
            char,
        >| r@ == home + path@.drop_first(),
        !(path@.len() > 0 && path@[0] == '~' && (path@.len() == 1 || path@[1] == '/' || path@[1] == '\\'))
            ==> r@ == path@,
{
    shellexpand::tilde(path).into_owned()
}

/// The file name of a model's weights: `ggml-<model>.bin`.
pub fn model_file_name(model: &str) -> (r: String)
    ensures
        r@ == "ggml-"@ + model@ + ".bin"@,
{
    let a = concat("ggml-", model);
    concat(a.as_str(), ".bin")
}

/// Where the model's weights live: the configured path (with `~` expanded),
/// or `<cache_dir>/simple-stt/models/ggml-<model>.bin`.
pub fn get_model_path(config: &WhisperConfig, cache_dir: &str) -> (r: String)
    ensures
        config.model_path is None ==> r@ == cache_dir@ + "/simple-stt/models/"@ + "ggml-"@ + config.model@
            + ".bin"@,
        config.model_path is Some ==> ({
            let p = config.model_path->0@;
            &&& (p.len() > 0 && p[0] == '~' && (p.len() == 1 || p[1] == '/')) ==> exists|home: Seq<char>|
                r@ == home + p.drop_first()
            &&& !(p.len() > 0 && p[0] == '~' && (p.len() == 1 || p[1] == '/' || p[1] == '\\')) ==> r@ == p
        }),
{
    match &config.model_path {
        Some(p) => expand_tilde(p.as_str()),
        None => {
            let dir = concat(cache_dir, "/simple-stt/models/");
            let file = model_file_name(config.model.as_str());
            let r = concat(dir.as_str(), file.as_str());
            proof {
                assert(r@ =~= cache_dir@ + "/simple-stt/models/"@ + "ggml-"@ + config.model@ + ".bin"@);
            }
            r
        },
    }
}

/// How to get a model ready, given whether its file is present.
#[derive(Debug, Clone, Copy, PartialEq, Eq, Structural)]
pub enum PrepareAction {
    /// Already loaded: nothing to do.
    Done,
    /// Load the file.
    Load,
    /// Download the file, then load it.
    DownloadThenLoad,
    /// The file is missing and downloads are disabled.
    Fail,
}

/// The transcription API: usable once an API key is configured.
#[derive(Debug, Clone)]
pub struct ApiSttBackend {
    pub config: WhisperConfig,
}

impl ApiSttBackend {
    pub fn new(config: &Config) -> (r: Self)
        ensures
            r.config == config.whisper,
    {
        ApiSttBackend { config: clone_whisper(&config.whisper) }
    }

    pub fn is_configured(&self) -> (r: bool)
        ensures
            r == self.config.api_key is Some,
    {
        self.config.api_key.is_some()
    }

    pub fn model(&self) -> (r: &str)
        ensures
            r@ == self.config.model@,
    {
        self.config.model.as_str()
    }
}

/// A local model: the state of its preparation and whether it is loaded.
#[derive(Debug, Clone)]
pub struct LocalSttBackend {
    pub config: WhisperConfig,
    pub loaded: bool,
    pub preparation_status: Readiness,
}

impl LocalSttBackend {
    pub fn new(config: &Config) -> (r: Self)
        ensures
            r.config == config.whisper,
            !r.loaded,
            r.preparation_status == Readiness::NotStarted,
    {
        LocalSttBackend { config: clone_whisper(&config.whisper), loaded: false, preparation_status: Readiness::NotStarted }
    }

    /// Starts a preparation, given whether the model file exists: nothing to
    /// do when ready; otherwise the preparation is in progress and loads the
    /// file, downloading it first when it is missing and downloads are on.
    /// A missing file with downloads off fails the preparation at once.
    pub fn begin_prepare(&mut self, file_exists: bool) -> (r: PrepareAction)
        ensures
            old(self).preparation_status == Readiness::Ready ==> r == PrepareAction::Done && *final(self)
                == *old(self),
            old(self).preparation_status != Readiness::Ready ==> {
                &&& r == if file_exists {
                    PrepareAction::Load
                } else if old(self).config.download_models {
                    PrepareAction::DownloadThenLoad
                } else {
                    PrepareAction::Fail
                }
                &&& r != PrepareAction::Fail ==> final(self).preparation_status == Readiness::InProgress
                &&& r == PrepareAction::Fail ==> final(self).preparation_status is Failed
                &&& final(self).loaded == old(self).loaded
                &&& final(self).config == old(self).config
            },
    {
        if let Readiness::Ready = self.preparation_status {
            return PrepareAction::Done;
        }
        if file_exists {
            self.preparation_status = Readiness::InProgress;
            PrepareAction::Load
        } else if self.config.download_models {
            self.preparation_status = Readiness::InProgress;
            PrepareAction::DownloadThenLoad
        } else {
            self.preparation_status = Readiness::Failed(
                "Whisper model not found and download_models is disabled".to_owned(),
            );
            PrepareAction::Fail
        }
    }

    /// Records how loading went: loaded and ready, or failed with the reason.
    pub fn finish_prepare(&mut self, outcome: Result<(), String>)
        ensures
            final(self).config == old(self).config,
            match outcome {
                Ok(()) => final(self).loaded && final(self).preparation_status == Readiness::Ready,
                Err(e) => !final(self).loaded && final(self).preparation_status == Readiness::Failed(e),
            },
    {
        match outcome {
            Ok(()) => {
                self.loaded = true;
                self.preparation_status = Readiness::Ready;
            },
            Err(e) => {
                self.loaded = false;
                self.preparation_status = Readiness::Failed(e);
            },
        }
    }

    pub fn is_configured(&self) -> (r: bool)
        ensures
            r == (self.preparation_status == Readiness::Ready && self.loaded),
    {
        matches!(self.preparation_status, Readiness::Ready) && self.loaded
    }

    pub fn is_preparing(&self) -> (r: bool)
        ensures
            r == (self.preparation_status == Readiness::InProgress),
    {
        matches!(self.preparation_status, Readiness::InProgress)
    }

    pub fn preparation_failed(&self) -> (r: Option<&str>)
        ensures
            match self.preparation_status {
                Readiness::Failed(e) => r is Some && r->0@ == e@,
                _ => r is None,
            },
    {
        match &self.preparation_status {
            Readiness::Failed(e) => Some(e.as_str()),
            _ => None,
        }
    }

    pub fn model(&self) -> (r: &str)
        ensures
            r@ == self.config.model@,
    {
        self.config.model.as_str()
    }
}

fn clone_opt(o: &Option<String>) -> (r: Option<String>)
    ensures
        r == *o,
{
    match o {
        Some(s) => Some(s.clone()),
        None => None,
    }
}

fn clone_whisper(c: &WhisperConfig) -> (r: WhisperConfig)
    ensures
        r == *c,
{
    WhisperConfig {
        backend: c.backend.clone(),
        api_key: clone_opt(&c.api_key),
        model: c.model.clone(),
        language: clone_opt(&c.language),
        timeout: c.timeout,
        model_path: clone_opt(&c.model_path),
        download_models: c.download_models,
        device: c.device.clone(),
    }
}

/// The two kinds of speech-to-text backend.
pub enum SttBackend {
    Api(ApiSttBackend),
    Local(LocalSttBackend),
}

impl SttBackend {
    pub open spec fn readiness_spec(&self) -> Readiness {
        match self {
            SttBackend::Api(_) => Readiness::Ready,
            SttBackend::Local(b) => b.preparation_status,
        }
    }

    /// The API needs no preparation; a local model reports its own state.
    pub fn readiness(&self) -> (r: Readiness)
        ensures
            r == self.readiness_spec(),
    {
        match self {
            SttBackend::Api(_) => Readiness::Ready,
            SttBackend::Local(b) => match &b.preparation_status {
                Readiness::NotStarted => Readiness::NotStarted,
                Readiness::InProgress => Readiness::InProgress,
                Readiness::Ready => Readiness::Ready,
                Readiness::Failed(e) => Readiness::Failed(e.clone()),
            },
        }
    }

    pub fn is_configured(&self) -> (r: bool)
        ensures
            r == match self {
                SttBackend::Api(b) => b.config.api_key is Some,
                SttBackend::Local(b) => b.preparation_status == Readiness::Ready && b.loaded,
            },
    {
        match self {
            SttBackend::Api(b) => b.is_configured(),
            SttBackend::Local(b) => b.is_configured(),
        }
    }

    pub fn is_preparing(&self) -> (r: bool)
        ensures
            r == match self {
                SttBackend::Api(_) => false,
                SttBackend::Local(b) => b.preparation_status == Readiness::InProgress,
            },
    {
        match self {
            SttBackend::Api(_) => false,
            SttBackend::Local(b) => b.is_preparing(),
        }
    }

    pub fn preparation_failed(&self) -> (r: Option<&str>)
        ensures
            match self.readiness_spec() {
                Readiness::Failed(e) => r is Some && r->0@ == e@,
                _ => r is None,
            },
    {
        match self {
            SttBackend::Api(_) => None,
            SttBackend::Local(b) => b.preparation_failed(),
        }
    }

    pub fn model(&self) -> (r: &str)
        ensures
            r@ == match self {
                SttBackend::Api(b) => b.config.model@,
                SttBackend::Local(b) => b.config.model@,
            },
    {
        match self {
            SttBackend::Api(b) => b.model(),
            SttBackend::Local(b) => b.model(),
        }
    }
}

/// The configured speech-to-text backend.
pub struct SttProcessor {
    pub backend: SttBackend,
    pub config: WhisperConfig,
}

impl SttProcessor {
    /// Selects the backend named in the configuration, without preparing it.
    pub fn new(config: &Config) -> (r: Result<Self, SttError>)
        ensures
            config.whisper.backend@ == "api"@ ==> r is Ok && r->Ok_0.backend is Api,
            config.whisper.backend@ == "local"@ ==> r is Ok && r->Ok_0.backend is Local
                && r->Ok_0.backend.readiness_spec() == Readiness::NotStarted,
            (config.whisper.backend@ != "api"@ && config.whisper.backend@ != "local"@) ==> r
                == Err::<Self, SttError>(SttError::UnknownBackend(config.whisper.backend)),
            r is Ok ==> r->Ok_0.config == config.whisper,
    {
        proof {
            reveal_strlit("api");
            reveal_strlit("local");
            assert("local"@ != "api"@) by {
                assert("local"@.len() != "api"@.len());
            }
        }
        let backend = if str_eq(config.whisper.backend.as_str(), "api") {
            SttBackend::Api(ApiSttBackend::new(config))
        } else if str_eq(config.whisper.backend.as_str(), "local") {
            SttBackend::Local(LocalSttBackend::new(config))
        } else {
            return Err(SttError::UnknownBackend(config.whisper.backend.clone()));
        };
        Ok(SttProcessor { backend, config: clone_whisper(&config.whisper) })
    }

    pub fn is_configured(&self) -> (r: bool)
        ensures
            r == match self.backend {
                SttBackend::Api(b) => b.config.api_key is Some,
                SttBackend::Local(b) => b.preparation_status == Readiness::Ready && b.loaded,
            },
    {
        self.backend.is_configured()
    }

    pub fn is_preparing(&self) -> (r: bool)
        ensures
            r == match self.backend {
                SttBackend::Api(_) => false,
                SttBackend::Local(b) => b.preparation_status == Readiness::InProgress,
            },
    {
        self.backend.is_preparing()
    }

    pub fn preparation_failed(&self) -> (r: Option<&str>)
        ensures
            match self.backend.readiness_spec() {
                Readiness::Failed(e) => r is Some && r->0@ == e@,
                _ => r is None,
            },
    {
        self.backend.preparation_failed()
    }

    pub fn model(&self) -> (r: &str)
        ensures
            r@ == match self.backend {
                SttBackend::Api(b) => b.config.model@,
                SttBackend::Local(b) => b.config.model@,
            },
    {
        self.backend.model()
    }

    pub fn backend_type(&self) -> (r: &str)
        ensures
            r@ == self.config.backend@,
    {
        self.config.backend.as_str()
    }
}

} // verus!
