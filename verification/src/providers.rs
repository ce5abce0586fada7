//! The upstream services: what is asked of them, and how their answers are
//! read.
pub mod cloudflare;
pub mod endpoint_laws;
pub mod github_models;
pub mod laws;
pub mod ollama;
pub mod openai_compatible;
pub mod traits;

use crate::config::{ProviderConfig, ProviderType};
use crate::error::GatewayError;
use crate::providers::cloudflare::CloudflareProvider;
use crate::providers::ollama::OllamaProvider;
use crate::providers::openai_compatible::OpenAiCompatibleProvider;
use crate::text::{blank, concat3, decimal, is_blank, opt_view, u64_text};
use vstd::prelude::*;

verus! {

/// A number kept between two others.
pub open spec fn clamped(n: u64, low: u64, high: u64) -> u64 {
    if n < low {
        low
    } else if n > high {
        high
    } else {
        n
    }
}

fn clamp(n: u64, low: u64, high: u64) -> (r: u64)
    ensures
        r == clamped(n, low, high),
{
    if n < low {
        low
    } else if n > high {
        high
    } else {
        n
    }
}

/// How long a stream may take to connect: between 5 and 30 seconds.
pub fn connect_timeout(timeout_seconds: u64) -> (r: u64)
    ensures
        r == clamped(timeout_seconds, 5, 30),
{
    clamp(timeout_seconds, 5, 30)
}

/// How long a stream may be silent: at least two minutes.
pub fn read_timeout(timeout_seconds: u64) -> (r: u64)
    ensures
        r == if timeout_seconds < 120 {
            120
        } else {
            timeout_seconds
        },
{
    if timeout_seconds < 120 {
        120
    } else {
        timeout_seconds
    }
}

/// How long a stream may take to answer at all: between 5 seconds and a minute.
pub fn header_timeout(timeout_seconds: u64) -> (r: u64)
    ensures
        r == clamped(timeout_seconds, 5, 60),
{
    clamp(timeout_seconds, 5, 60)
}

/// The error of a stream that did not answer in time.
pub fn header_timeout_error(timeout_seconds: u64) -> (r: GatewayError)
    ensures
        r matches GatewayError::Timeout(m) && m@ == "upstream stream response headers timed out after "@
            + decimal(clamped(timeout_seconds, 5, 60) as nat) + "s"@,
{
    let seconds = u64_text(header_timeout(timeout_seconds));
    GatewayError::Timeout(
        concat3("upstream stream response headers timed out after ", seconds.as_str(), "s"),
    )
}

/// The proxy to use: none where it is blank.
pub fn proxy_of(proxy_url: &Option<String>) -> (r: Option<String>)
    ensures
        opt_view(r) == match *proxy_url {
            Some(p) => if is_blank(p@) {
                None
            } else {
                Some(p@)
            },
            None => None,
        },
{
    match proxy_url {
        Some(p) => if blank(p.as_str()) {
            None
        } else {
            Some(p.clone())
        },
        None => None,
    }
}

/// A provider of one of the kinds that the gateway talks to.
#[derive(Debug)]
pub enum AnyProvider {
    OpenAiCompatible(OpenAiCompatibleProvider),
    Ollama(OllamaProvider),
    Cloudflare(CloudflareProvider),
}

/// The provider of a configuration. All but Ollama and Cloudflare speak the
/// protocol of OpenAI.
pub fn create_provider(name: &str, config: &ProviderConfig) -> (r: AnyProvider)
    ensures
        match r {
            AnyProvider::Ollama(p) => config.provider_type == ProviderType::Ollama && p@
                == OllamaProvider::configured(name@, *config),
            AnyProvider::Cloudflare(p) => config.provider_type == ProviderType::Cloudflare && p@
                == CloudflareProvider::configured(name@, *config),
            AnyProvider::OpenAiCompatible(p) => config.provider_type != ProviderType::Ollama
                && config.provider_type != ProviderType::Cloudflare && p@
                == OpenAiCompatibleProvider::configured(name@, *config),
        },
{
    match config.provider_type {
        ProviderType::Ollama => AnyProvider::Ollama(OllamaProvider::new(name, config)),
        ProviderType::Cloudflare => AnyProvider::Cloudflare(CloudflareProvider::new(name, config)),
        _ => AnyProvider::OpenAiCompatible(OpenAiCompatibleProvider::new(name, config)),
    }
}

} // verus!
