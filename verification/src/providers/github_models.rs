//! GitHub Models.
use crate::config::ProviderConfig;
use crate::text::{concat2, same};
use vstd::prelude::*;

verus! {

#[derive(Debug)]
pub struct GithubModelsProvider {
    pub name: String,
    pub base_url: String,
    pub health_check_model: String,
    pub timeout_seconds: u64,
    pub priority: u32,
}

/// What a provider is configured with.
pub struct ProviderView {
    pub name: Seq<char>,
    pub base_url: Seq<char>,
    pub proxy_url: Option<Seq<char>>,
    pub health_check_model: Seq<char>,
    pub timeout_seconds: u64,
    pub priority: u32,
}

impl View for GithubModelsProvider {
    type V = ProviderView;

    open spec fn view(&self) -> ProviderView {
        ProviderView {
            name: self.name@,
            base_url: self.base_url@,
            proxy_url: None,
            health_check_model: self.health_check_model@,
            timeout_seconds: self.timeout_seconds,
            priority: self.priority,
        }
    }
}

/// A configured text, or another where it is empty.
pub open spec fn or_default(text: Seq<char>, default_text: Seq<char>) -> Seq<char> {
    if text.len() == 0 {
        default_text
    } else {
        text
    }
}

/// A configured text, or another where it is empty.
pub fn text_or(text: &str, default_text: &str) -> (r: String)
    ensures
        r@ == or_default(text@, default_text@),
{
    proof {
        reveal_strlit("");
    }
    if same(text, "") {
        assert(text@.len() == 0);
        default_text.to_owned()
    } else {
        proof {
            if text@.len() == 0 {
                assert(text@ =~= ""@);
            }
        }
        text.to_owned()
    }
}

impl GithubModelsProvider {
    /// What a configuration comes to.
    pub open spec fn configured(name: Seq<char>, config: ProviderConfig) -> ProviderView {
        ProviderView {
            name,
            base_url: config.base_url@,
            proxy_url: None,
            health_check_model: or_default(
                config.health_check_model@,
                "openai/gpt-4.1-mini"@,
            ),
            timeout_seconds: config.timeout_seconds,
            priority: config.priority,
        }
    }

    pub fn new(name: &str, config: &ProviderConfig) -> (r: GithubModelsProvider)
        ensures
            r@ == GithubModelsProvider::configured(name@, *config),
    {
        GithubModelsProvider {
            name: name.to_owned(),
            base_url: config.base_url.clone(),
            health_check_model: text_or(
                config.health_check_model.as_str(),
                "openai/gpt-4.1-mini",
            ),
            timeout_seconds: config.timeout_seconds,
            priority: config.priority,
        }
    }

    /// Where the models are listed.
    pub fn models_url(&self) -> (r: String)
        ensures
            r@ == self@.base_url + "/models"@,
    {
        concat2(self.base_url.as_str(), "/models")
    }

    /// Where chats are completed.
    pub fn chat_completions_url(&self) -> (r: String)
        ensures
            r@ == self@.base_url + "/chat/completions"@,
    {
        concat2(self.base_url.as_str(), "/chat/completions")
    }
}

} // verus!
