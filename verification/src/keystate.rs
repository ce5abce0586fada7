//! The state of a single API key: status, counters, limits, and how they change.
use crate::clock::now_seconds;
use crate::config::KeyTier;
use crate::text::{copy_opt, copy_strings, opt_view, same, views};
use std::collections::hash_map::DefaultHasher;
use std::hash::Hasher;
use vstd::std_specs::hash::DefaultHasherAdditionalSpecFns;
use vstd::string::StringSliceAdditionalSpecFns;
use vstd::utf8::*;
use vstd::prelude::*;

verus! {

/// Whether a key can be used, and why not.
#[derive(Debug, Clone, Copy, PartialEq, Eq, Structural)]
pub enum KeyStatus {
    Available,
    Probing,
    Cooldown,
    RateLimited,
    Disabled,
}

/// The name of a status.
pub open spec fn status_name(s: KeyStatus) -> Seq<char> {
    match s {
        KeyStatus::Available => "available"@,
        KeyStatus::Probing => "probing"@,
        KeyStatus::Cooldown => "cooldown"@,
        KeyStatus::RateLimited => "rate_limited"@,
        KeyStatus::Disabled => "disabled"@,
    }
}

impl KeyStatus {
    /// The name of the status.
    pub fn name(&self) -> (r: &'static str)
        ensures
            r@ == status_name(*self),
    {
        match self {
            KeyStatus::Available => "available",
            KeyStatus::Probing => "probing",
            KeyStatus::Cooldown => "cooldown",
            KeyStatus::RateLimited => "rate_limited",
            KeyStatus::Disabled => "disabled",
        }
    }

    /// The name of the status.
    pub fn to_string(&self) -> (r: String)
        ensures
            r@ == status_name(*self),
    {
        self.name().to_owned()
    }
}

/// Tracking state for a single API key.
#[derive(Debug)]
pub struct KeyState {
    /// The key value (masked for logging).
    pub key: String,
    /// Stable identifier used to match persisted metadata to configured keys.
    pub key_id: String,
    pub tier: KeyTier,
    pub models: Vec<String>,
    pub models_updated_at: Option<i64>,
    pub models_last_error: String,
    /// Current status.
    pub status: KeyStatus,
    /// Number of consecutive failures.
    pub fail_count: u32,
    /// Number of consecutive rate-limit hits, which decides how long the next
    /// one is cooled down for.
    pub rate_limit_hits: u32,
    /// Timestamp (epoch seconds) when cooldown expires. None if not in cooldown.
    pub cooldown_until: Option<u64>,
    /// Last successful request time (epoch seconds).
    pub last_success_at: Option<u64>,
    /// Last failed request time (epoch seconds).
    pub last_error_at: Option<u64>,
    /// HTTP status for the last failed request.
    pub last_error_status: Option<u16>,
    /// Last time this key's status changed.
    pub status_updated_at: Option<u64>,
    /// Last time this key automatically recovered from cooldown/rate-limit.
    pub last_recovered_at: Option<u64>,
    /// Total successful requests.
    pub success_count: u64,
    /// Total failed requests.
    pub total_fail_count: u64,
    /// Max requests per minute (None = unlimited).
    pub rpm_limit: Option<u32>,
    /// Max requests per day (None = unlimited).
    pub rpd_limit: Option<u32>,
    /// Source that last set the RPM limit.
    pub rpm_limit_source: Option<String>,
    /// Source that last set the RPD limit.
    pub rpd_limit_source: Option<String>,
    /// Max prompt tokens per minute (None = unlimited).
    pub tpm_limit: Option<u32>,
    /// Max tokens per day (None = unlimited).
    pub tpd_limit: Option<u32>,
    /// Request count in current minute window.
    pub rpm_count: u32,
    /// Request count in current day window.
    pub rpd_count: u32,
    /// Prompt tokens used in current minute window.
    pub tpm_prompt_count: u32,
    /// Completion tokens used in current minute window.
    pub tpm_completion_count: u32,
    /// Prompt tokens used today.
    pub tpd_prompt_count: u32,
    /// Completion tokens used today.
    pub tpd_completion_count: u32,
    /// Epoch minute (seconds / 60) when the current RPM window started.
    pub rpm_window_start: u64,
    /// Epoch day (seconds / 86400) when the current RPD window started.
    pub rpd_window_start: u64,
}

/// What a [`KeyState`] holds.
pub struct KeyStateView {
    pub key: Seq<char>,
    pub key_id: Seq<char>,
    pub tier: KeyTier,
    pub models: Seq<Seq<char>>,
    pub models_updated_at: Option<i64>,
    pub models_last_error: Seq<char>,
    pub status: KeyStatus,
    pub fail_count: u32,
    pub rate_limit_hits: u32,
    pub cooldown_until: Option<u64>,
    pub last_success_at: Option<u64>,
    pub last_error_at: Option<u64>,
    pub last_error_status: Option<u16>,
    pub status_updated_at: Option<u64>,
    pub last_recovered_at: Option<u64>,
    pub success_count: u64,
    pub total_fail_count: u64,
    pub rpm_limit: Option<u32>,
    pub rpd_limit: Option<u32>,
    pub rpm_limit_source: Option<Seq<char>>,
    pub rpd_limit_source: Option<Seq<char>>,
    pub tpm_limit: Option<u32>,
    pub tpd_limit: Option<u32>,
    pub rpm_count: u32,
    pub rpd_count: u32,
    pub tpm_prompt_count: u32,
    pub tpm_completion_count: u32,
    pub tpd_prompt_count: u32,
    pub tpd_completion_count: u32,
    pub rpm_window_start: u64,
    pub rpd_window_start: u64,
}

impl View for KeyState {
    type V = KeyStateView;

    open spec fn view(&self) -> KeyStateView {
        KeyStateView {
            key: self.key@,
            key_id: self.key_id@,
            tier: self.tier,
            models: views(self.models@),
            models_updated_at: self.models_updated_at,
            models_last_error: self.models_last_error@,
            status: self.status,
            fail_count: self.fail_count,
            rate_limit_hits: self.rate_limit_hits,
            cooldown_until: self.cooldown_until,
            last_success_at: self.last_success_at,
            last_error_at: self.last_error_at,
            last_error_status: self.last_error_status,
            status_updated_at: self.status_updated_at,
            last_recovered_at: self.last_recovered_at,
            success_count: self.success_count,
            total_fail_count: self.total_fail_count,
            rpm_limit: self.rpm_limit,
            rpd_limit: self.rpd_limit,
            rpm_limit_source: opt_view(self.rpm_limit_source),
            rpd_limit_source: opt_view(self.rpd_limit_source),
            tpm_limit: self.tpm_limit,
            tpd_limit: self.tpd_limit,
            rpm_count: self.rpm_count,
            rpd_count: self.rpd_count,
            tpm_prompt_count: self.tpm_prompt_count,
            tpm_completion_count: self.tpm_completion_count,
            tpd_prompt_count: self.tpd_prompt_count,
            tpd_completion_count: self.tpd_completion_count,
            rpm_window_start: self.rpm_window_start,
            rpd_window_start: self.rpd_window_start,
        }
    }
}

/// The views of a list of key states.
pub open spec fn state_views(keys: Seq<KeyState>) -> Seq<KeyStateView> {
    keys.map_values(|k: KeyState| k@)
}

/// Changing a state changes its view.
pub broadcast proof fn state_views_update(keys: Seq<KeyState>, i: int, k: KeyState)
    requires
        0 <= i < keys.len(),
    ensures
        #[trigger] state_views(keys.update(i, k)) == state_views(keys).update(i, k@),
{
    assert(state_views(keys.update(i, k)) =~= state_views(keys).update(i, k@));
}

/// Adding a state adds its view.
pub broadcast proof fn state_views_push(keys: Seq<KeyState>, k: KeyState)
    ensures
        #[trigger] state_views(keys.push(k)) == state_views(keys).push(k@),
{
    assert(state_views(keys.push(k)) =~= state_views(keys).push(k@));
}

// ---------------------------------------------------------------- arithmetic
/// A sum, or the largest number where it does not fit.
pub open spec fn plus32(a: u32, b: u32) -> u32 {
    if a + b <= u32::MAX {
        (a + b) as u32
    } else {
        u32::MAX
    }
}

/// A sum, or the largest number where it does not fit.
pub open spec fn plus64(a: u64, b: u64) -> u64 {
    if a + b <= u64::MAX {
        (a + b) as u64
    } else {
        u64::MAX
    }
}

/// The larger of two numbers.
pub open spec fn larger(a: u32, b: u32) -> u32 {
    if a >= b {
        a
    } else {
        b
    }
}

/// A number that fits 32 bits, or the largest that does.
pub open spec fn clamp32(n: u64) -> u32 {
    if n <= u32::MAX {
        n as u32
    } else {
        u32::MAX
    }
}

pub(crate) fn max32(a: u32, b: u32) -> (r: u32)
    ensures
        r == larger(a, b),
{
    if a >= b {
        a
    } else {
        b
    }
}

pub(crate) fn to_u32_clamped(n: u64) -> (r: u32)
    ensures
        r == clamp32(n),
{
    if n <= 0xffff_ffff {
        n as u32
    } else {
        0xffff_ffff
    }
}

// ---------------------------------------------------------------- limits
/// The count of a window, none where the window is not the present one.
pub open spec fn window_count(window_start: u64, count: u32, now_window: u64) -> u32 {
    if window_start == now_window {
        count
    } else {
        0
    }
}

/// The share of a limit that is used, in percent.
pub open spec fn percent(used: u32, limit: u32) -> u32 {
    if limit == 0 {
        100
    } else if used * 100 <= u32::MAX {
        (used * 100 / limit as int) as u32
    } else {
        (u32::MAX / limit) as u32
    }
}

/// The share of an optional limit that is used, in percent.
pub open spec fn opt_percent(used: u32, limit: Option<u32>) -> u32 {
    match limit {
        Some(l) => percent(used, l),
        None => 0,
    }
}

impl KeyStateView {
    /// Whether the key has used up a limit at second `now`: that of a minute is
    /// on prompt tokens, that of a day on all.
    pub open spec fn limited(self, now: u64) -> bool {
        ||| self.rpm_window_start == now / 60 && {
            ||| self.rpm_limit matches Some(limit) && self.rpm_count >= limit
            ||| self.tpm_limit matches Some(limit) && self.tpm_prompt_count >= limit
        }
        ||| self.rpd_window_start == now / 86400 && {
            ||| self.rpd_limit matches Some(limit) && self.rpd_count >= limit
            ||| self.tpd_limit matches Some(limit) && self.tpd_prompt_count
                + self.tpd_completion_count >= limit
        }
    }

    /// The key with the counters of expired windows at zero.
    pub open spec fn with_fresh_windows(self, now: u64) -> KeyStateView {
        let minute = if self.rpm_window_start == now / 60 {
            self
        } else {
            KeyStateView {
                rpm_window_start: now / 60,
                rpm_count: 0,
                tpm_prompt_count: 0,
                tpm_completion_count: 0,
                ..self
            }
        };
        if self.rpd_window_start == now / 86400 {
            minute
        } else {
            KeyStateView {
                rpd_window_start: now / 86400,
                rpd_count: 0,
                tpd_prompt_count: 0,
                tpd_completion_count: 0,
                ..minute
            }
        }
    }

    /// Whether the key can take a request at second `now`.
    pub open spec fn selectable(self, now: u64) -> bool {
        (self.status == KeyStatus::Available || self.status == KeyStatus::Probing) && !self.limited(
            now,
        )
    }

    /// Whether the key is available and within its limits at second `now`.
    pub open spec fn ready(self, now: u64) -> bool {
        self.status == KeyStatus::Available && !self.limited(now)
    }

    /// Whether a cooldown of the key has run out at second `now`.
    pub open spec fn cooled_down(self, now: u64) -> bool {
        self.cooldown_until matches Some(until) && now >= until
    }

    /// The key after its cooldown, where it has run out: available again after
    /// failures, to be probed after a rate limit. The rate-limit hits in a row are
    /// kept.
    pub open spec fn recovered(self, now: u64) -> KeyStateView {
        if !self.cooled_down(now) {
            self
        } else if self.status == KeyStatus::Cooldown {
            KeyStateView {
                status: KeyStatus::Available,
                fail_count: 0,
                cooldown_until: None,
                status_updated_at: Some(now),
                last_recovered_at: Some(now),
                ..self
            }
        } else if self.status == KeyStatus::RateLimited {
            KeyStateView {
                status: KeyStatus::Probing,
                cooldown_until: None,
                status_updated_at: Some(now),
                last_recovered_at: Some(now),
                ..self
            }
        } else {
            self
        }
    }

    /// The key recovered and with fresh windows.
    pub open spec fn refreshed(self, now: u64) -> KeyStateView {
        self.recovered(now).with_fresh_windows(now)
    }

    /// Whether a success makes the key available again.
    pub open spec fn revived_by_success(self) -> bool {
        ||| self.status == KeyStatus::Probing
        ||| self.status == KeyStatus::RateLimited
        ||| self.status == KeyStatus::Disabled
        ||| self.status == KeyStatus::Cooldown && self.last_error_status == Some(429u16)
    }

    /// The key after a success, its tokens not yet counted.
    pub open spec fn after_success(self, now: u64) -> KeyStateView {
        let counted = KeyStateView {
            success_count: plus64(self.success_count, 1),
            fail_count: 0,
            rate_limit_hits: 0,
            last_success_at: Some(now),
            ..self
        };
        let revived = if self.revived_by_success() {
            KeyStateView {
                status: KeyStatus::Available,
                cooldown_until: None,
                status_updated_at: Some(now),
                ..counted
            }
        } else {
            counted
        };
        revived.with_fresh_windows(now)
    }

    /// The key with one request more in both windows.
    pub open spec fn with_request(self) -> KeyStateView {
        KeyStateView {
            rpm_count: plus32(self.rpm_count, 1),
            rpd_count: plus32(self.rpd_count, 1),
            ..self
        }
    }

    /// The key with the tokens of a request counted in both windows.
    pub open spec fn with_tokens(self, prompt: Option<u32>, completion: Option<u32>) -> KeyStateView {
        let p = match prompt {
            Some(n) => n,
            None => 0,
        };
        let c = match completion {
            Some(n) => n,
            None => 0,
        };
        KeyStateView {
            tpm_prompt_count: plus32(self.tpm_prompt_count, p),
            tpd_prompt_count: plus32(self.tpd_prompt_count, p),
            tpm_completion_count: plus32(self.tpm_completion_count, c),
            tpd_completion_count: plus32(self.tpd_completion_count, c),
            ..self
        }
    }

    /// The key after a request was reserved on it: a key on probation waits out
    /// `cooldown` seconds before it is tried again.
    pub open spec fn reserved(self, now: u64, cooldown: u64) -> KeyStateView {
        let held = if self.status == KeyStatus::Probing {
            KeyStateView {
                status: KeyStatus::Cooldown,
                cooldown_until: Some(plus64(now, cooldown)),
                status_updated_at: Some(now),
                ..self
            }
        } else {
            self
        };
        held.with_request()
    }

    /// The key after a failure that says nothing of credentials or limits: it
    /// cools down once it has failed `threshold` times in a row.
    pub open spec fn after_general_failure(
        self,
        status: u16,
        now: u64,
        threshold: u32,
        cooldown: u64,
    ) -> KeyStateView {
        let failed = KeyStateView {
            last_error_at: Some(now),
            last_error_status: Some(status),
            fail_count: plus32(self.fail_count, 1),
            total_fail_count: plus64(self.total_fail_count, 1),
            ..self
        };
        if failed.fail_count >= threshold {
            KeyStateView {
                status: KeyStatus::Cooldown,
                cooldown_until: Some(plus64(now, cooldown)),
                status_updated_at: Some(now),
                ..failed
            }
        } else {
            failed
        }
    }

    /// The key put into a cooldown at once.
    pub open spec fn after_forced_cooldown(self, status: u16, now: u64, cooldown: u64) -> KeyStateView {
        KeyStateView {
            last_error_at: Some(now),
            last_error_status: Some(status),
            fail_count: plus32(self.fail_count, 1),
            total_fail_count: plus64(self.total_fail_count, 1),
            status: KeyStatus::Cooldown,
            cooldown_until: Some(plus64(now, cooldown)),
            status_updated_at: Some(now),
            ..self
        }
    }

    /// The key after its credentials were turned away: no cooldown ends that.
    pub open spec fn after_auth_failure(self, status: u16, now: u64) -> KeyStateView {
        KeyStateView {
            last_error_at: Some(now),
            last_error_status: Some(status),
            status: KeyStatus::Disabled,
            cooldown_until: None,
            status_updated_at: Some(now),
            total_fail_count: plus64(self.total_fail_count, 1),
            ..self
        }
    }

    /// The key with its limits drawn from what a rate limit showed: a short
    /// delay speaks of the minute, any other of the day.
    pub open spec fn with_observed_limit(self, retry_after: Option<u64>) -> KeyStateView {
        if retry_after matches Some(seconds) && seconds <= 300 {
            if observable(self.rpm_limit_source) {
                let limit = tightened(self.rpm_limit, self.rpm_count);
                KeyStateView {
                    rpm_limit: limit,
                    rpm_limit_source: if limit is Some {
                        Some("runtime_429"@)
                    } else {
                        self.rpm_limit_source
                    },
                    ..self
                }
            } else {
                self
            }
        } else if observable(self.rpd_limit_source) {
            let limit = tightened(self.rpd_limit, self.rpd_count);
            KeyStateView {
                rpd_limit: limit,
                rpd_limit_source: if limit is Some {
                    Some("runtime_429"@)
                } else {
                    self.rpd_limit_source
                },
                ..self
            }
        } else {
            self
        }
    }

    /// The key after a rate limit: it waits as long as the provider asks, else
    /// longer with every rate limit in a row.
    pub open spec fn after_rate_limit(self, retry_after: Option<u64>, now: u64) -> KeyStateView {
        let seen = KeyStateView {
            last_error_at: Some(now),
            last_error_status: Some(429u16),
            ..self
        }.with_fresh_windows(now).with_observed_limit(retry_after);
        let wait = match retry_after {
            Some(seconds) => seconds,
            None => escalation(self.rate_limit_hits as nat),
        };
        KeyStateView {
            status: KeyStatus::RateLimited,
            cooldown_until: Some(plus64(now, wait)),
            status_updated_at: Some(now),
            fail_count: plus32(self.fail_count, 1),
            rate_limit_hits: plus32(self.rate_limit_hits, 1),
            total_fail_count: plus64(self.total_fail_count, 1),
            ..seen
        }
    }

    /// The key after a failure with an HTTP status.
    pub open spec fn after_failure(
        self,
        status: u16,
        retry_after: Option<u64>,
        now: u64,
        threshold: u32,
        cooldown: u64,
    ) -> KeyStateView {
        if status == 401 || status == 403 {
            self.after_auth_failure(status, now)
        } else if status == 429 {
            self.after_rate_limit(retry_after, now)
        } else {
            self.after_general_failure(status, now, threshold, cooldown)
        }
    }

    /// The key restored by hand, or by a discovery that it served: as if it had
    /// not failed. No cooldown of it ended by itself, so the last such time stays.
    pub open spec fn restored(self, now: u64) -> KeyStateView {
        KeyStateView {
            status: KeyStatus::Available,
            fail_count: 0,
            rate_limit_hits: 0,
            cooldown_until: None,
            status_updated_at: Some(now),
            ..self
        }
    }

    /// The share of its tightest limit that the key has used, in percent.
    pub open spec fn usage_score(self, now: u64) -> u32 {
        let rpm = opt_percent(
            window_count(self.rpm_window_start, self.rpm_count, now / 60),
            self.rpm_limit,
        );
        let rpd = opt_percent(
            window_count(self.rpd_window_start, self.rpd_count, now / 86400),
            self.rpd_limit,
        );
        let tpm = opt_percent(
            window_count(self.rpm_window_start, self.tpm_prompt_count, now / 60),
            self.tpm_limit,
        );
        let tpd = opt_percent(
            window_count(
                self.rpd_window_start,
                plus32(self.tpd_prompt_count, self.tpd_completion_count),
                now / 86400,
            ),
            self.tpd_limit,
        );
        larger(larger(larger(rpm, rpd), tpm), tpd)
    }

    /// By what keys are compared for their use: score, requests of the day and
    /// of the minute, failures in a row, failures in all.
    pub open spec fn usage_sort_key(self, now: u64) -> (u32, u32, u32, u32, u32) {
        (
            self.usage_score(now),
            window_count(self.rpd_window_start, self.rpd_count, now / 86400),
            window_count(self.rpm_window_start, self.rpm_count, now / 60),
            self.fail_count,
            clamp32(self.total_fail_count),
        )
    }

    /// The same, with keys on probation behind the others.
    pub open spec fn selection_sort_key(self, now: u64) -> (u32, u32, u32, u32, u32) {
        let k = self.usage_sort_key(now);
        if self.status == KeyStatus::Probing {
            (plus32(k.0, 1000), k.1, k.2, k.3, k.4)
        } else {
            k
        }
    }

    /// The key as others may see it: its value masked, its identifier fresh.
    pub open spec fn masked(self) -> KeyStateView {
        KeyStateView { key: mask(self.key), key_id: fingerprint(self.key), ..self }
    }
}

/// Escalating cooldown durations for rate-limit hits, after `hits` in a row: the
/// first waits 2 minutes, the second 10 minutes, the third 1 hour, every later
/// one 24 hours.
pub open spec fn escalation(hits: nat) -> u64 {
    if hits == 0 {
        120
    } else if hits == 1 {
        600
    } else if hits == 2 {
        3600
    } else {
        86400
    }
}

/// Whether an observation may replace a limit from this source.
pub open spec fn observable(source: Option<Seq<char>>) -> bool {
    source != Some("config"@) && source != Some("official_api"@)
}

/// A limit no looser than what was observed; nothing is learned from zero.
pub open spec fn tightened(limit: Option<u32>, observed: u32) -> Option<u32> {
    if observed == 0 {
        limit
    } else {
        match limit {
            Some(current) => Some(
                if current <= observed {
                    current
                } else {
                    observed
                },
            ),
            None => Some(observed),
        }
    }
}

/// Seconds of cooldown after this many rate limits in a row.
pub fn escalation_seconds(hits: u32) -> (r: u64)
    ensures
        r == escalation(hits as nat),
{
    if hits == 0 {
        120
    } else if hits == 1 {
        600
    } else if hits == 2 {
        3600
    } else {
        86400
    }
}

/// Tightens a limit to what was observed.
pub fn tighten_observed_limit(limit: &mut Option<u32>, observed: u32)
    ensures
        *final(limit) == tightened(*old(limit), observed),
{
    if observed == 0 {
        return ;
    }
    *limit = match *limit {
        Some(current) => if current <= observed {
            Some(current)
        } else {
            Some(observed)
        },
        None => Some(observed),
    };
}

/// Whether an observation may replace a limit from this source.
pub fn can_observed_limit_update(source: &Option<String>) -> (r: bool)
    ensures
        r == observable(opt_view(*source)),
{
    match source {
        Some(s) => !same(s.as_str(), "config") && !same(s.as_str(), "official_api"),
        None => true,
    }
}

/// A limit and its source after `value` was offered by `new_source`: zero is no
/// limit, and what the configuration says only the configuration changes.
pub open spec fn offered_limit(
    limit: Option<u32>,
    source: Option<Seq<char>>,
    value: u32,
    new_source: Seq<char>,
) -> (Option<u32>, Option<Seq<char>>) {
    if value == 0 || (source == Some("config"@) && new_source != "config"@) {
        (limit, source)
    } else {
        (Some(value), Some(new_source))
    }
}

/// Sets a limit from a source.
pub fn set_request_limit(
    limit: &mut Option<u32>,
    source: &mut Option<String>,
    value: u32,
    new_source: &str,
)
    ensures
        (*final(limit), opt_view(*final(source))) == offered_limit(
            *old(limit),
            opt_view(*old(source)),
            value,
            new_source@,
        ),
{
    if value == 0 {
        return ;
    }
    let configured = match source.as_ref() {
        Some(s) => same(s.as_str(), "config"),
        None => false,
    };
    if configured && !same(new_source, "config") {
        return ;
    }
    *limit = Some(value);
    *source = Some(new_source.to_owned());
}

// ---------------------------------------------------------------- fingerprints and masks
/// The hexadecimal digit for a number below sixteen.
pub open spec fn hex_digit(d: nat) -> char {
    if d < 10 {
        (48 + d) as char
    } else {
        (87 + d) as char
    }
}

/// A number in hexadecimal, with exactly `width` digits.
pub open spec fn hex(n: nat, width: nat) -> Seq<char>
    decreases width,
{
    if width == 0 {
        Seq::empty()
    } else {
        hex(n / 16, (width - 1) as nat).push(hex_digit(n % 16))
    }
}

/// The identifier of a key: `key-` and the hash of the key in hexadecimal.
pub open spec fn fingerprint(key: Seq<char>) -> Seq<char> {
    "key-"@ + hex(
        DefaultHasher::spec_finish(seq![encode_utf8(key), seq![0xffu8]]) as nat,
        16,
    )
}

fn push_hex(out: &mut String, n: u64, width: usize)
    ensures
        final(out)@ == old(out)@ + hex(n as nat, width as nat),
    decreases width,
{
    if width > 0 {
        push_hex(out, n / 16, width - 1);
        let d: u8 = (n % 16) as u8;
        let c: char = if d < 10 {
            (48 + d) as char
        } else {
            (87 + d) as char
        };
        out.push(c);
        assert(c == hex_digit((n % 16) as nat));
        assert(old(out)@ + hex(n as nat, width as nat) =~= (old(out)@ + hex(
            (n / 16) as nat,
            (width - 1) as nat,
        )).push(c));
    } else {
        assert(old(out)@ + hex(n as nat, 0) =~= old(out)@);
    }
}

/// Create a stable, non-credential identifier for persisted key metadata.
pub fn key_fingerprint(key: &str) -> (r: String)
    ensures
        r@ == fingerprint(key@),
{
    let mut hasher = DefaultHasher::new();
    hasher.write(key.as_bytes());
    let end: Vec<u8> = vec![0xffu8];
    hasher.write(end.as_slice());
    assert(end@ =~= seq![0xffu8]);
    assert(hasher@ =~= seq![encode_utf8(key@), seq![0xffu8]]);
    let mut out = "key-".to_owned();
    push_hex(&mut out, hasher.finish(), 16);
    out
}

/// Whether the first four and the last four bytes of a key are whole
/// characters, where it has more than eight bytes.
pub open spec fn maskable(key: Seq<char>) -> bool {
    let b = encode_utf8(key);
    b.len() > 8 ==> is_char_boundary(b, 4) && is_char_boundary(b, b.len() - 4)
}

/// A key with its middle left out; a short key is hidden whole.
pub open spec fn mask(key: Seq<char>) -> Seq<char> {
    let b = encode_utf8(key);
    if b.len() <= 8 {
        "****"@
    } else {
        decode_utf8(b.subrange(0, 4)) + "..."@ + decode_utf8(
            b.subrange(b.len() - 4, b.len() as int),
        )
    }
}

pub fn mask_text(key: &str) -> (r: String)
    requires
        maskable(key@),
    ensures
        r@ == mask(key@),
{
    let len: usize = key.as_bytes().len();
    if len <= 8 {
        return "****".to_owned();
    }
    let (head, _) = key.split_at(4);
    let (_, tail) = key.split_at(len - 4);
    proof {
        encode_utf8_decode_utf8(head@);
        encode_utf8_decode_utf8(tail@);
    }
    let mut out = head.to_owned();
    out.push_str("...");
    out.push_str(tail);
    out
}

/// Whether a key can be masked.
pub fn can_mask(key: &str) -> (r: bool)
    ensures
        r == maskable(key@),
{
    let len: usize = key.as_bytes().len();
    len <= 8 || (key.is_char_boundary(4) && key.is_char_boundary(len - 4))
}

/// The bytes of two texts in a row are the bytes of both.
proof fn encoded_in_a_row(a: Seq<char>, b: Seq<char>)
    ensures
        encode_utf8(a + b) == encode_utf8(a) + encode_utf8(b),
    decreases a.len(),
{
    if a.len() == 0 {
        assert(a + b =~= b);
        assert(encode_utf8(a) + encode_utf8(b) =~= encode_utf8(b));
    } else {
        encoded_in_a_row(a.drop_first(), b);
        assert((a + b).drop_first() =~= a.drop_first() + b);
        assert(encode_utf8(a + b) =~= encode_utf8(a) + encode_utf8(b));
    }
}

/// One text ends between two characters of the whole.
proof fn boundary_between(a: Seq<u8>, b: Seq<u8>)
    requires
        valid_utf8(a),
        valid_utf8(b),
    ensures
        valid_utf8(a + b),
        is_char_boundary(a + b, a.len() as int),
    decreases a.len(),
{
    valid_utf8_concat(a, b);
    if a.len() == 0 {
        assert(a + b =~= b);
        is_char_boundary_start_end_of_seq(b);
    } else {
        let rest = pop_first_scalar(a);
        boundary_between(rest, b);
        assert(pop_first_scalar(a + b) =~= rest + b);
        assert(length_of_first_scalar(a + b) == length_of_first_scalar(a));
    }
}

/// A masked key can be masked again, and nothing changes by it.
pub proof fn masking_is_idempotent(key: Seq<char>)
    requires
        maskable(key),
    ensures
        maskable(mask(key)),
        mask(mask(key)) == mask(key),
{
    let b = encode_utf8(key);
    let m = mask(key);
    if b.len() <= 8 {
        reveal_strlit("****");
        reveal_with_fuel(encode_utf8, 5);
        assert(encode_utf8(m).len() <= 8);
    } else {
        encode_utf8_valid_utf8(key);
        valid_utf8_split(b, 4);
        valid_utf8_split(b, b.len() - 4);
        let head_bytes = b.subrange(0, 4);
        let tail_bytes = b.subrange(b.len() - 4, b.len() as int);
        let head = decode_utf8(head_bytes);
        let tail = decode_utf8(tail_bytes);
        decode_utf8_encode_utf8(head_bytes);
        decode_utf8_encode_utf8(tail_bytes);
        encoded_in_a_row(head, "..."@);
        encoded_in_a_row(head + "..."@, tail);
        let dots = encode_utf8("..."@);
        reveal_strlit("...");
        reveal_with_fuel(encode_utf8, 2);
        assert(dots.len() > 0);
        let all = encode_utf8(m);
        assert(all == head_bytes + dots + tail_bytes);
        encode_utf8_valid_utf8("..."@);
        valid_utf8_concat(head_bytes, dots);
        valid_utf8_concat(dots, tail_bytes);
        boundary_between(head_bytes + dots, tail_bytes);
        boundary_between(head_bytes, dots + tail_bytes);
        assert(head_bytes + (dots + tail_bytes) =~= all);
        assert(all.subrange(0, 4) =~= head_bytes);
        assert(all.subrange(all.len() - 4, all.len() as int) =~= tail_bytes);
    }
}

// ---------------------------------------------------------------- the state
impl KeyState {
    /// A new key, available and without limits, at second `now`.
    pub fn with_tier_at(key: String, tier: KeyTier, now: u64) -> (r: KeyState)
        ensures
            r@ == new_key(key@, tier, now),
            r.key == key,
    {
        let key_id = key_fingerprint(key.as_str());
        let r = KeyState {
            key,
            key_id,
            tier,
            models: Vec::new(),
            models_updated_at: None,
            models_last_error: String::new(),
            status: KeyStatus::Available,
            fail_count: 0,
            rate_limit_hits: 0,
            cooldown_until: None,
            last_success_at: None,
            last_error_at: None,
            last_error_status: None,
            status_updated_at: Some(now),
            last_recovered_at: None,
            success_count: 0,
            total_fail_count: 0,
            rpm_limit: None,
            rpd_limit: None,
            rpm_limit_source: None,
            rpd_limit_source: None,
            tpm_limit: None,
            tpd_limit: None,
            rpm_count: 0,
            rpd_count: 0,
            tpm_prompt_count: 0,
            tpm_completion_count: 0,
            tpd_prompt_count: 0,
            tpd_completion_count: 0,
            rpm_window_start: now / 60,
            rpd_window_start: now / 86400,
        };
        assert(r@.models =~= Seq::<Seq<char>>::empty());
        r
    }

    /// A new key of an unknown tier.
    pub fn new(key: String) -> (r: KeyState)
        ensures
            exists|now: u64| r@ == #[trigger] new_key(key@, KeyTier::Unknown, now),
    {
        KeyState::with_tier(key, KeyTier::Unknown)
    }

    /// A new key, available and without limits.
    pub fn with_tier(key: String, tier: KeyTier) -> (r: KeyState)
        ensures
            exists|now: u64| r@ == #[trigger] new_key(key@, tier, now),
    {
        KeyState::with_tier_at(key, tier, now_seconds())
    }

    /// Check if this key has exceeded any rate limit based on current time.
    pub fn is_rate_limited(&self, now_secs: u64) -> (r: bool)
        ensures
            r == self@.limited(now_secs),
    {
        let now_day = now_secs / 86400;
        let now_min = now_secs / 60;
        if self.rpm_window_start == now_min {
            if let Some(limit) = self.rpm_limit {
                if self.rpm_count >= limit {
                    return true;
                }
            }
            if let Some(limit) = self.tpm_limit {
                if self.tpm_prompt_count >= limit {
                    return true;
                }
            }
        }
        if self.rpd_window_start == now_day {
            if let Some(limit) = self.rpd_limit {
                if self.rpd_count >= limit {
                    return true;
                }
            }
            if let Some(limit) = self.tpd_limit {
                if self.tpd_prompt_count as u64 + self.tpd_completion_count as u64 >= limit as u64 {
                    return true;
                }
            }
        }
        false
    }

    /// Reset rate counters if the window has expired.
    pub fn reset_rate_windows(&mut self, now_secs: u64)
        ensures
            final(self)@ == old(self)@.with_fresh_windows(now_secs),
    {
        let now_min = now_secs / 60;
        let now_day = now_secs / 86400;
        if self.rpm_window_start != now_min {
            self.rpm_window_start = now_min;
            self.rpm_count = 0;
            self.tpm_prompt_count = 0;
            self.tpm_completion_count = 0;
        }
        if self.rpd_window_start != now_day {
            self.rpd_window_start = now_day;
            self.rpd_count = 0;
            self.tpd_prompt_count = 0;
            self.tpd_completion_count = 0;
        }
    }

    /// Mask the key for safe display.
    pub fn masked_key(&self) -> (r: String)
        requires
            maskable(self.key@),
        ensures
            r@ == mask(self.key@),
    {
        mask_text(self.key.as_str())
    }

    /// A copy of the state.
    pub fn copy(&self) -> (r: KeyState)
        ensures
            r@ == self@,
    {
        KeyState {
            key: self.key.clone(),
            key_id: self.key_id.clone(),
            models: copy_strings(&self.models),
            models_last_error: self.models_last_error.clone(),
            rpm_limit_source: copy_opt(&self.rpm_limit_source),
            rpd_limit_source: copy_opt(&self.rpd_limit_source),
            tier: self.tier,
            models_updated_at: self.models_updated_at,
            status: self.status,
            fail_count: self.fail_count,
            rate_limit_hits: self.rate_limit_hits,
            cooldown_until: self.cooldown_until,
            last_success_at: self.last_success_at,
            last_error_at: self.last_error_at,
            last_error_status: self.last_error_status,
            status_updated_at: self.status_updated_at,
            last_recovered_at: self.last_recovered_at,
            success_count: self.success_count,
            total_fail_count: self.total_fail_count,
            rpm_limit: self.rpm_limit,
            rpd_limit: self.rpd_limit,
            tpm_limit: self.tpm_limit,
            tpd_limit: self.tpd_limit,
            rpm_count: self.rpm_count,
            rpd_count: self.rpd_count,
            tpm_prompt_count: self.tpm_prompt_count,
            tpm_completion_count: self.tpm_completion_count,
            tpd_prompt_count: self.tpd_prompt_count,
            tpd_completion_count: self.tpd_completion_count,
            rpm_window_start: self.rpm_window_start,
            rpd_window_start: self.rpd_window_start,
        }
    }

    /// A copy with the key masked and its identifier computed afresh.
    pub fn masked_copy(&self) -> (r: KeyState)
        requires
            maskable(self.key@),
        ensures
            r@ == self@.masked(),
    {
        let mut r = self.copy();
        r.key = self.masked_key();
        r.key_id = key_fingerprint(self.key.as_str());
        r
    }

    /// Ends a cooldown that has run out.
    pub fn recover(&mut self, now: u64)
        ensures
            final(self)@ == old(self)@.recovered(now),
    {
        let expired = match self.cooldown_until {
            Some(until) => now >= until,
            None => false,
        };
        if expired {
            match self.status {
                KeyStatus::Cooldown => {
                    self.status = KeyStatus::Available;
                    self.fail_count = 0;
                    self.cooldown_until = None;
                    self.status_updated_at = Some(now);
                    self.last_recovered_at = Some(now);
                },
                KeyStatus::RateLimited => {
                    self.status = KeyStatus::Probing;
                    self.cooldown_until = None;
                    self.status_updated_at = Some(now);
                    self.last_recovered_at = Some(now);
                },
                _ => {},
            }
        }
    }

    /// Counts a success, without requests and tokens.
    pub fn record_success(&mut self, now: u64)
        ensures
            final(self)@ == old(self)@.after_success(now),
    {
        self.success_count = self.success_count.saturating_add(1);
        self.fail_count = 0;
        self.rate_limit_hits = 0;
        self.last_success_at = Some(now);
        let limited_before = self.status == KeyStatus::Cooldown && (match self.last_error_status {
            Some(s) => s == 429,
            None => false,
        });
        if self.status == KeyStatus::Probing || self.status == KeyStatus::RateLimited || self.status
            == KeyStatus::Disabled || limited_before {
            self.status = KeyStatus::Available;
            self.cooldown_until = None;
            self.status_updated_at = Some(now);
        }
        self.reset_rate_windows(now);
    }

    /// Counts one request in both windows.
    pub fn count_request(&mut self)
        ensures
            final(self)@ == old(self)@.with_request(),
    {
        self.rpm_count = self.rpm_count.saturating_add(1);
        self.rpd_count = self.rpd_count.saturating_add(1);
    }

    /// Counts the tokens of a request in both windows.
    pub fn count_tokens(&mut self, prompt_tokens: Option<u32>, completion_tokens: Option<u32>)
        ensures
            final(self)@ == old(self)@.with_tokens(prompt_tokens, completion_tokens),
    {
        if let Some(p) = prompt_tokens {
            self.tpm_prompt_count = self.tpm_prompt_count.saturating_add(p);
            self.tpd_prompt_count = self.tpd_prompt_count.saturating_add(p);
        }
        if let Some(c) = completion_tokens {
            self.tpm_completion_count = self.tpm_completion_count.saturating_add(c);
            self.tpd_completion_count = self.tpd_completion_count.saturating_add(c);
        }
    }

    /// Reserves one request.
    pub fn reserve(&mut self, now: u64, cooldown_seconds: u64)
        ensures
            final(self)@ == old(self)@.reserved(now, cooldown_seconds),
    {
        if self.status == KeyStatus::Probing {
            self.status = KeyStatus::Cooldown;
            self.cooldown_until = Some(now.saturating_add(cooldown_seconds));
            self.status_updated_at = Some(now);
        }
        self.count_request();
    }

    /// Records a failure that says nothing of credentials or limits.
    pub fn record_general_failure(
        &mut self,
        http_status: u16,
        now: u64,
        fail_threshold: u32,
        cooldown_seconds: u64,
    )
        ensures
            final(self)@ == old(self)@.after_general_failure(
                http_status,
                now,
                fail_threshold,
                cooldown_seconds,
            ),
    {
        self.last_error_at = Some(now);
        self.last_error_status = Some(http_status);
        self.fail_count = self.fail_count.saturating_add(1);
        self.total_fail_count = self.total_fail_count.saturating_add(1);
        if self.fail_count >= fail_threshold {
            self.status = KeyStatus::Cooldown;
            self.cooldown_until = Some(now.saturating_add(cooldown_seconds));
            self.status_updated_at = Some(now);
        }
    }

    /// Puts the key into a cooldown at once.
    pub fn force_cooldown(&mut self, http_status: u16, now: u64, cooldown_seconds: u64)
        ensures
            final(self)@ == old(self)@.after_forced_cooldown(http_status, now, cooldown_seconds),
    {
        self.last_error_at = Some(now);
        self.last_error_status = Some(http_status);
        self.fail_count = self.fail_count.saturating_add(1);
        self.total_fail_count = self.total_fail_count.saturating_add(1);
        self.status = KeyStatus::Cooldown;
        self.cooldown_until = Some(now.saturating_add(cooldown_seconds));
        self.status_updated_at = Some(now);
    }

    fn record_auth_failure(&mut self, http_status: u16, now: u64)
        ensures
            final(self)@ == old(self)@.after_auth_failure(http_status, now),
    {
        self.last_error_at = Some(now);
        self.last_error_status = Some(http_status);
        self.status = KeyStatus::Disabled;
        self.cooldown_until = None;
        self.status_updated_at = Some(now);
        self.total_fail_count = self.total_fail_count.saturating_add(1);
    }

    fn observe_limit(&mut self, retry_after_seconds: Option<u64>)
        ensures
            final(self)@ == old(self)@.with_observed_limit(retry_after_seconds),
    {
        let short = match retry_after_seconds {
            Some(seconds) => seconds <= 300,
            None => false,
        };
        if short {
            if can_observed_limit_update(&self.rpm_limit_source) {
                let observed: u32 = self.rpm_count;
                tighten_observed_limit(&mut self.rpm_limit, observed);
                if self.rpm_limit.is_some() {
                    self.rpm_limit_source = Some("runtime_429".to_owned());
                }
            }
        } else if can_observed_limit_update(&self.rpd_limit_source) {
            let observed: u32 = self.rpd_count;
            tighten_observed_limit(&mut self.rpd_limit, observed);
            if self.rpd_limit.is_some() {
                self.rpd_limit_source = Some("runtime_429".to_owned());
            }
        }
    }

    fn record_rate_limit(&mut self, retry_after_seconds: Option<u64>, now: u64)
        ensures
            final(self)@ == old(self)@.after_rate_limit(retry_after_seconds, now),
    {
        self.last_error_at = Some(now);
        self.last_error_status = Some(429);
        self.reset_rate_windows(now);
        self.observe_limit(retry_after_seconds);
        let cooldown_s: u64 = match retry_after_seconds {
            Some(seconds) => seconds,
            None => escalation_seconds(self.rate_limit_hits),
        };
        self.status = KeyStatus::RateLimited;
        self.cooldown_until = Some(now.saturating_add(cooldown_s));
        self.status_updated_at = Some(now);
        self.fail_count = self.fail_count.saturating_add(1);
        self.rate_limit_hits = self.rate_limit_hits.saturating_add(1);
        self.total_fail_count = self.total_fail_count.saturating_add(1);
    }

    /// Records a failure with an HTTP status.
    pub fn record_failure(
        &mut self,
        http_status: u16,
        retry_after_seconds: Option<u64>,
        now: u64,
        fail_threshold: u32,
        cooldown_seconds: u64,
    )
        ensures
            final(self)@ == old(self)@.after_failure(
                http_status,
                retry_after_seconds,
                now,
                fail_threshold,
                cooldown_seconds,
            ),
    {
        if http_status == 401 || http_status == 403 {
            self.record_auth_failure(http_status, now);
        } else if http_status == 429 {
            self.record_rate_limit(retry_after_seconds, now);
        } else {
            self.record_general_failure(http_status, now, fail_threshold, cooldown_seconds);
        }
    }

    /// Restores the key, by hand or after it served a discovery.
    pub fn restore(&mut self, now: u64)
        ensures
            final(self)@ == old(self)@.restored(now),
    {
        self.status = KeyStatus::Available;
        self.fail_count = 0;
        self.rate_limit_hits = 0;
        self.cooldown_until = None;
        self.status_updated_at = Some(now);
    }
}

/// A new key, available and without limits.
pub open spec fn new_key(key: Seq<char>, tier: KeyTier, now: u64) -> KeyStateView {
    KeyStateView {
        key,
        key_id: fingerprint(key),
        tier,
        models: Seq::empty(),
        models_updated_at: None,
        models_last_error: Seq::empty(),
        status: KeyStatus::Available,
        fail_count: 0,
        rate_limit_hits: 0,
        cooldown_until: None,
        last_success_at: None,
        last_error_at: None,
        last_error_status: None,
        status_updated_at: Some(now),
        last_recovered_at: None,
        success_count: 0,
        total_fail_count: 0,
        rpm_limit: None,
        rpd_limit: None,
        rpm_limit_source: None,
        rpd_limit_source: None,
        tpm_limit: None,
        tpd_limit: None,
        rpm_count: 0,
        rpd_count: 0,
        tpm_prompt_count: 0,
        tpm_completion_count: 0,
        tpd_prompt_count: 0,
        tpd_completion_count: 0,
        rpm_window_start: now / 60,
        rpd_window_start: now / 86400,
    }
}

// ---------------------------------------------------------------- usage
/// The count of a minute window, none where it is not the present one.
pub fn current_minute_count(window_start: u64, count: u32, now_min: u64) -> (r: u32)
    ensures
        r == window_count(window_start, count, now_min),
{
    if window_start == now_min {
        count
    } else {
        0
    }
}

/// The count of a day window, none where it is not the present one.
pub fn current_day_count(window_start: u64, count: u32, now_day: u64) -> (r: u32)
    ensures
        r == window_count(window_start, count, now_day),
{
    if window_start == now_day {
        count
    } else {
        0
    }
}

/// The share of a limit that is used, in percent.
pub fn percent_used(used: u32, limit: u32) -> (r: u32)
    ensures
        r == percent(used, limit),
{
    if limit == 0 {
        return 100;
    }
    match used.checked_mul(100) {
        Some(hundredfold) => hundredfold / limit,
        None => u32::MAX / limit,
    }
}

fn opt_percent_used(used: u32, limit: Option<u32>) -> (r: u32)
    ensures
        r == opt_percent(used, limit),
{
    match limit {
        Some(l) => percent_used(used, l),
        None => 0,
    }
}

/// The share of its tightest limit that a key has used, in percent.
pub fn key_usage_score(key: &KeyState, now_secs: u64) -> (r: u32)
    ensures
        r == key@.usage_score(now_secs),
{
    let now_min = now_secs / 60;
    let now_day = now_secs / 86400;
    let rpm: u32 = opt_percent_used(
        current_minute_count(key.rpm_window_start, key.rpm_count, now_min),
        key.rpm_limit,
    );
    let rpd: u32 = opt_percent_used(
        current_day_count(key.rpd_window_start, key.rpd_count, now_day),
        key.rpd_limit,
    );
    let tpm: u32 = opt_percent_used(
        current_minute_count(key.rpm_window_start, key.tpm_prompt_count, now_min),
        key.tpm_limit,
    );
    let tpd: u32 = opt_percent_used(
        current_day_count(
            key.rpd_window_start,
            key.tpd_prompt_count.saturating_add(key.tpd_completion_count),
            now_day,
        ),
        key.tpd_limit,
    );
    max32(max32(max32(rpm, rpd), tpm), tpd)
}

/// By what keys are compared for their use.
pub fn key_usage_sort_key(key: &KeyState, now_secs: u64) -> (r: (u32, u32, u32, u32, u32))
    ensures
        r == key@.usage_sort_key(now_secs),
{
    let now_min = now_secs / 60;
    let now_day = now_secs / 86400;
    (
        key_usage_score(key, now_secs),
        current_day_count(key.rpd_window_start, key.rpd_count, now_day),
        current_minute_count(key.rpm_window_start, key.rpm_count, now_min),
        key.fail_count,
        to_u32_clamped(key.total_fail_count),
    )
}

/// Whether a key can take a request.
pub fn is_request_selectable(key: &KeyState, now_secs: u64) -> (r: bool)
    ensures
        r == key@.selectable(now_secs),
{
    (key.status == KeyStatus::Available || key.status == KeyStatus::Probing)
        && !key.is_rate_limited(now_secs)
}

/// By what keys are compared for selection: keys on probation come last.
pub fn key_usage_sort_key_for_selection(key: &KeyState, now_secs: u64) -> (r: (
    u32,
    u32,
    u32,
    u32,
    u32,
))
    ensures
        r == key@.selection_sort_key(now_secs),
{
    let k = key_usage_sort_key(key, now_secs);
    if key.status == KeyStatus::Probing {
        (k.0.saturating_add(1000), k.1, k.2, k.3, k.4)
    } else {
        k
    }
}

} // verus!
