use vstd::prelude::*;

use crate::config::{has_key, Config, LlmConfig, LlmProfile};
use crate::text::str_eq;

verus! {

/// Where a transcript goes for refinement.
#[derive(Debug, Clone, PartialEq, Eq)]
pub enum RefineRoute {
    /// Refinement is not possible: keep the transcript as it is.
    KeepOriginal,
    /// Ask OpenAI, with this system prompt.
    OpenAi(String),
    /// Ask Anthropic, with this system prompt.
    Anthropic(String),
}

/// Refines transcripts with a language model, per the configured profiles.
#[derive(Debug, Clone)]
pub struct LlmRefiner {
    pub config: LlmConfig,
}

impl LlmRefiner {
    pub fn new(config: &Config) -> (r: Self)
        ensures
            r.config.provider == config.llm.provider,
            r.config.model == config.llm.model,
            r.config.api_key == config.llm.api_key,
            r.config.max_tokens == config.llm.max_tokens,
            r.config.default_profile == config.llm.default_profile,
            r.config.profiles@ == config.llm.profiles@,
    {
        let mut profiles: Vec<(String, LlmProfile)> = Vec::new();
        let mut i: usize = 0;
        while i < config.llm.profiles.len()
            invariant
                0 <= i <= config.llm.profiles@.len(),
                profiles@ == config.llm.profiles@.subrange(0, i as int),
            decreases config.llm.profiles@.len() - i,
        {
            let (k, p) = &config.llm.profiles[i];
            profiles.push((k.clone(), LlmProfile { name: p.name.clone(), prompt: p.prompt.clone() }));
            proof {
                assert(config.llm.profiles@.subrange(0, i + 1) =~= config.llm.profiles@.subrange(0, i as int).push(
                    config.llm.profiles@[i as int],
                ));
            }
            i = i + 1;
        }
        proof {
            assert(config.llm.profiles@.subrange(0, config.llm.profiles@.len() as int) =~= config.llm.profiles@);
        }
        LlmRefiner {
            config: LlmConfig {
                provider: config.llm.provider.clone(),
                model: config.llm.model.clone(),
                max_tokens: config.llm.max_tokens,
                default_profile: config.llm.default_profile.clone(),
                profiles,
                api_key: match &config.llm.api_key {
                    Some(k) => Some(k.clone()),
                    None => None,
                },
            },
        }
    }

    pub fn is_configured(&self) -> (r: bool)
        ensures
            r == self.config.api_key is Some,
    {
        self.config.api_key.is_some()
    }

    pub fn provider(&self) -> (r: &str)
        ensures
            r@ == self.config.provider@,
    {
        self.config.provider.as_str()
    }

    pub fn model(&self) -> (r: &str)
        ensures
            r@ == self.config.model@,
    {
        self.config.model.as_str()
    }

    /// The profiles, each under its key.
    pub fn list_profiles(&self) -> (r: &Vec<(String, LlmProfile)>)
        ensures
            r == &self.config.profiles,
    {
        &self.config.profiles
    }

    /// Whether a profile is stored under `key`.
    pub fn has_profile(&self, key: &str) -> (r: bool)
        ensures
            r == has_key(self.config.profiles@, key@),
    {
        self.config.contains_profile(key)
    }

    /// Decides where a transcript goes: nowhere without an API key, an
    /// unknown profile (the default one when none is named) or an unknown
    /// provider; otherwise to the provider with the profile's prompt.
    pub fn refine_route(&self, profile: Option<&str>) -> (r: RefineRoute)
        ensures
            self.config.api_key is None ==> r == RefineRoute::KeepOriginal,
            ({
                let key = match profile {
                    Some(p) => p@,
                    None => self.config.default_profile@,
                };
                &&& !has_key(self.config.profiles@, key) ==> r == RefineRoute::KeepOriginal
                &&& (self.config.provider@ != "openai"@ && self.config.provider@ != "anthropic"@) ==> r
                    == RefineRoute::KeepOriginal
                &&& (self.config.api_key is Some && has_key(self.config.profiles@, key)
                    && self.config.provider@ == "openai"@) ==> exists|i: int|
                    0 <= i < self.config.profiles@.len() && self.config.profiles@[i].0@ == key && r
                        == RefineRoute::OpenAi(#[trigger] self.config.profiles@[i].1.prompt)
                &&& (self.config.api_key is Some && has_key(self.config.profiles@, key)
                    && self.config.provider@ == "anthropic"@) ==> exists|i: int|
                    0 <= i < self.config.profiles@.len() && self.config.profiles@[i].0@ == key && r
                        == RefineRoute::Anthropic(#[trigger] self.config.profiles@[i].1.prompt)
            }),
    {
        proof {
            reveal_strlit("openai");
            reveal_strlit("anthropic");
            assert("openai"@ != "anthropic"@) by {
                assert("openai"@.len() != "anthropic"@.len());
            }
        }
        if self.config.api_key.is_none() {
            return RefineRoute::KeepOriginal;
        }
        let key: &str = match profile {
            Some(p) => p,
            None => self.config.default_profile.as_str(),
        };
        let found = self.config.profile(key);
        let p = match found {
            Some(p) => p,
            None => {
                return RefineRoute::KeepOriginal;
            },
        };
        if str_eq(self.config.provider.as_str(), "openai") {
            RefineRoute::OpenAi(p.prompt.clone())
        } else if str_eq(self.config.provider.as_str(), "anthropic") {
            RefineRoute::Anthropic(p.prompt.clone())
        } else {
            RefineRoute::KeepOriginal
        }
    }
}

} // verus!
