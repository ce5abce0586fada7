//! The limits that providers officially set for their keys.
use crate::json::{Json, JsonView};
use crate::keyhub::KeyHub;
use crate::keyhub::pool::{key_index, PoolView, with_limits};
use crate::keystate::KeyStateView;
use crate::models::{low32, truncate32};
use vstd::prelude::*;

verus! {

/// Seconds between two looks at OpenRouter's rules.
pub const SYNC_INTERVAL_SECONDS: u64 = 21600;

/// Seconds between two looks at Cloudflare's rules.
pub const CLOUDFLARE_SYNC_INTERVAL_SECONDS: u64 = 3600;

/// Whether a key of OpenRouter's is of the free tier; it is where nothing is
/// said.
pub open spec fn free_tier(body: JsonView) -> bool {
    let data = match body.get("data"@) {
        Some(d) => d,
        None => body,
    };
    match data.get("is_free_tier"@) {
        Some(v) => match v.truth() {
            Some(b) => b,
            None => true,
        },
        None => true,
    }
}

/// How many requests a day a key of OpenRouter's may make of free models.
pub open spec fn openrouter_rpd(body: JsonView) -> u32 {
    if free_tier(body) {
        50
    } else {
        1000
    }
}

/// Whether a key of OpenRouter's is of the free tier.
pub fn is_free_tier(body: &Json) -> (r: bool)
    ensures
        r == free_tier(body@),
{
    let data = match body.get("data") {
        Some(d) => d,
        None => body,
    };
    match data.get("is_free_tier") {
        Some(v) => match v.as_bool() {
            Some(b) => b,
            None => true,
        },
        None => true,
    }
}

/// Applies what OpenRouter says of a key: 20 requests a minute, and 50 or 1000
/// a day. Says whether the key is known.
pub fn apply_openrouter_rule(keyhub: &mut KeyHub, key: &str, body: &Json) -> (r: bool)
    requires
        old(keyhub).wf(),
    ensures
        final(keyhub).wf(),
        r == (old(keyhub)@.pools.contains_key("openrouter"@) && key_index(
            old(keyhub)@.pools["openrouter"@].keys,
            key@,
            0,
        ) is Some),
        final(keyhub)@ == old(keyhub)@.with_pool(
            "openrouter"@,
            |p: PoolView|
                p.with_key(
                    key@,
                    |k: KeyStateView|
                        with_limits(
                            k,
                            Some(20u32),
                            Some(openrouter_rpd(body@)),
                            "official_api"@,
                        ),
                ),
        ),
{
    let rpd_limit: u32 = if is_free_tier(body) {
        50
    } else {
        1000
    };
    keyhub.apply_request_limits("openrouter", key, Some(20), Some(rpd_limit), "official_api")
}

/// What Cloudflare says of an account.
#[derive(Debug, Clone, Copy, PartialEq, Eq, Structural)]
pub struct CloudflareLimits {
    pub remaining_tokens: Option<u64>,
    pub rpm: Option<u32>,
}

/// The number under a name.
pub open spec fn number_under(value: JsonView, name: Seq<char>) -> Option<u64> {
    match value.get(name) {
        Some(v) => v.unsigned(),
        None => None,
    }
}

/// What a response says of Cloudflare's limits; nothing where it has no result.
pub open spec fn cloudflare_limits_in(body: JsonView) -> Option<CloudflareLimits> {
    match body.get("result"@) {
        Some(result) => Some(
            CloudflareLimits {
                remaining_tokens: number_under(result, "monthly_remaining"@),
                rpm: match number_under(result, "requests_per_minute"@) {
                    Some(n) => Some(low32(n as int)),
                    None => None,
                },
            },
        ),
        None => None,
    }
}

/// What a response says of Cloudflare's limits.
pub fn cloudflare_limits(body: &Json) -> (r: Result<CloudflareLimits, &'static str>)
    ensures
        match r {
            Ok(l) => cloudflare_limits_in(body@) == Some(l),
            Err(e) => cloudflare_limits_in(body@) is None && e@
                == "No result in Cloudflare limits response"@,
        },
{
    let result = match body.get("result") {
        Some(v) => v,
        None => {
            return Err("No result in Cloudflare limits response");
        },
    };
    let remaining_tokens = match result.get("monthly_remaining") {
        Some(v) => v.as_u64(),
        None => None,
    };
    let rpm = match result.get("requests_per_minute") {
        Some(v) => match v.as_u64() {
            Some(n) => Some(truncate32(n)),
            None => None,
        },
        None => None,
    };
    Ok(CloudflareLimits { remaining_tokens, rpm })
}

impl CloudflareLimits {
    /// The tokens that a day may use: a thirtieth of what the month has left,
    /// no more than the type holds.
    pub open spec fn per_day(self) -> Option<u32> {
        match self.remaining_tokens {
            Some(n) => Some(
                if n / 30 > u32::MAX {
                    u32::MAX
                } else {
                    (n / 30) as u32
                },
            ),
            None => None,
        }
    }

    /// The tokens that a day may use.
    pub fn daily_tokens(&self) -> (r: Option<u32>)
        ensures
            r == self.per_day(),
    {
        match self.remaining_tokens {
            Some(n) => {
                let share: u64 = n / 30;
                if share > 0xffff_ffff {
                    Some(u32::MAX)
                } else {
                    Some(share as u32)
                }
            },
            None => None,
        }
    }

    /// The limits of a key that follow: requests per minute and per day, tokens
    /// per minute and per day. Tokens are limited by the minute as requests are;
    /// requests per day are learned elsewhere. Their source is `official_api`.
    pub fn applied(&self) -> (r: (Option<u32>, Option<u32>, Option<u32>, Option<u32>))
        ensures
            r == (self.rpm, None::<u32>, self.rpm, self.per_day()),
    {
        (self.rpm, None, self.rpm, self.daily_tokens())
    }
}

/// A month of thirty days of such budgets never asks for more than it has left.
pub proof fn daily_budgets_fit_the_month(limits: CloudflareLimits)
    requires
        limits.remaining_tokens is Some,
    ensures
        limits.per_day()->0 * 30 <= limits.remaining_tokens->0,
{
}

} // verus!
