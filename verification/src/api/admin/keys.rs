//! What is shown of the keys: how much of their limits is used, and in which
//! state they are.
use crate::api::status::{wide16, wide32, widen16, widen32};
use crate::clock::now_seconds;
use crate::config::tier_name;
use crate::json::{
    group_json_views, items_view, Json, JsonView, num, Number, NumberView, ObjectBuilder,
    opt_num_json, opt_text_json, strings_json,
};
use crate::keyhub::hub::{hub_maskable, HubView, lists_masked};
use crate::keystate::{
    can_mask, KeyState, KeyStateView, KeyStatus, mask, maskable, masking_is_idempotent, plus32,
    state_views, status_name,
};
use crate::models::opt_number;
use crate::text::{opt_view, str_of};
use vstd::prelude::*;

verus! {

// ---------------------------------------------------------------- shares
/// A part of a whole.
#[derive(Debug, Clone, Copy, PartialEq, Eq, Structural)]
pub struct Share {
    pub part: u32,
    pub whole: u32,
}

impl Share {
    /// The whole is something, and the part no more than it.
    pub open spec fn wf(self) -> bool {
        0 < self.whole && self.part <= self.whole
    }

    /// Whether one share is at most another.
    pub open spec fn at_most(self, other: Share) -> bool {
        self.part * other.whole <= other.part * self.whole
    }

    /// What is left of the whole.
    pub open spec fn rest(self) -> Share {
        Share { part: (self.whole - self.part) as u32, whole: self.whole }
    }

    /// The whole.
    pub open spec fn full() -> Share {
        Share { part: 1, whole: 1 }
    }

    /// What is left of the whole.
    pub fn complement(&self) -> (r: Share)
        requires
            self.wf(),
        ensures
            r == self.rest(),
    {
        Share { part: self.whole - self.part, whole: self.whole }
    }
}

/// How much of a limit is used: no more than all of it.
pub open spec fn share_of(used: u32, limit: u32) -> Share {
    if limit == 0 || used >= limit {
        Share::full()
    } else {
        Share { part: used, whole: limit }
    }
}

/// The larger of two shares, the first where they are equal.
pub open spec fn larger(a: Option<Share>, b: Option<Share>) -> Option<Share> {
    match (a, b) {
        (Some(x), Some(y)) => if y.at_most(x) {
            a
        } else {
            b
        },
        (Some(_), None) => a,
        (None, _) => b,
    }
}

fn larger_share(a: Option<Share>, b: Option<Share>) -> (r: Option<Share>)
    ensures
        r == larger(a, b),
{
    match (a, b) {
        (Some(x), Some(y)) => {
            proof {
                products_fit(y.part, x.whole);
                products_fit(x.part, y.whole);
            }
            if (y.part as u64) * (x.whole as u64) <= (x.part as u64) * (y.whole as u64) {
                a
            } else {
                b
            }
        },
        (Some(_), None) => a,
        (None, _) => b,
    }
}

proof fn products_fit(a: u32, b: u32)
    ensures
        0 <= a * b <= u64::MAX,
{
    assert(0 <= a * b <= 0xffff_ffff * 0xffff_ffff) by (nonlinear_arith)
        requires
            0 <= a <= 0xffff_ffff,
            0 <= b <= 0xffff_ffff,
    ;
}

// ---------------------------------------------------------------- usage
/// How much of one limit is used, in the window that now runs.
#[derive(Debug, Clone, Copy, PartialEq, Eq, Structural)]
pub struct AxisUsage {
    pub limit: Option<u32>,
    pub used: u32,
    pub window_active: bool,
}

impl AxisUsage {
    /// What is left of the limit.
    pub open spec fn left(self) -> Option<u32> {
        match self.limit {
            Some(limit) => Some(
                if limit > self.used {
                    (limit - self.used) as u32
                } else {
                    0
                },
            ),
            None => None,
        }
    }

    /// How much of the limit is used, at most all of it.
    pub open spec fn used_share(self) -> Option<Share> {
        match self.limit {
            Some(limit) => Some(share_of(self.used, limit)),
            None => None,
        }
    }

    /// Whether the limit is reached.
    pub open spec fn used_up(self) -> bool {
        match self.limit {
            Some(limit) => self.used >= limit,
            None => false,
        }
    }

    /// What is left of the limit.
    pub fn remaining(&self) -> (r: Option<u32>)
        ensures
            r == self.left(),
    {
        match self.limit {
            Some(limit) => Some(
                if limit > self.used {
                    limit - self.used
                } else {
                    0
                },
            ),
            None => None,
        }
    }

    /// How much of the limit is used, at most all of it.
    pub fn share(&self) -> (r: Option<Share>)
        ensures
            r == self.used_share(),
    {
        match self.limit {
            Some(limit) => Some(
                if limit == 0 || self.used >= limit {
                    Share { part: 1, whole: 1 }
                } else {
                    Share { part: self.used, whole: limit }
                },
            ),
            None => None,
        }
    }

    /// Whether the limit is reached.
    pub fn exhausted(&self) -> (r: bool)
        ensures
            r == self.used_up(),
    {
        match self.limit {
            Some(limit) => self.used >= limit,
            None => false,
        }
    }
}

/// How much of its limits a key has used: requests and tokens, by minute and by
/// day.
#[derive(Debug, Clone, Copy, PartialEq, Eq, Structural)]
pub struct RateUsage {
    pub rpm: AxisUsage,
    pub rpd: AxisUsage,
    pub tpm: AxisUsage,
    pub tpd: AxisUsage,
    /// Whether the key waits, whatever its counters say.
    pub blocked_by_status: bool,
}

/// How much of its limits a key has used. What was counted in a window that is
/// over does not count. The tokens of a minute are those of prompts, the tokens
/// of a day all.
pub open spec fn usage_at(k: KeyStateView, now: u64) -> RateUsage {
    let minute = k.rpm_window_start == now / 60;
    let day = k.rpd_window_start == now / 86400;
    RateUsage {
        rpm: AxisUsage {
            limit: k.rpm_limit,
            used: if minute {
                k.rpm_count
            } else {
                0
            },
            window_active: minute,
        },
        rpd: AxisUsage {
            limit: k.rpd_limit,
            used: if day {
                k.rpd_count
            } else {
                0
            },
            window_active: day,
        },
        tpm: AxisUsage {
            limit: k.tpm_limit,
            used: if minute {
                k.tpm_prompt_count
            } else {
                0
            },
            window_active: minute,
        },
        tpd: AxisUsage {
            limit: k.tpd_limit,
            used: if day {
                plus32(k.tpd_prompt_count, k.tpd_completion_count)
            } else {
                0
            },
            window_active: day,
        },
        blocked_by_status: k.status == KeyStatus::RateLimited || k.status == KeyStatus::Cooldown,
    }
}

impl RateUsage {
    /// Whether there is any limit.
    pub open spec fn is_constrained(self) -> bool {
        self.rpm.limit is Some || self.rpd.limit is Some || self.tpm.limit is Some
            || self.tpd.limit is Some
    }

    /// Whether some limit is reached.
    pub open spec fn counters_used_up(self) -> bool {
        self.rpm.used_up() || self.rpd.used_up() || self.tpm.used_up() || self.tpd.used_up()
    }

    /// The largest share of a limit that is used.
    pub open spec fn largest(self) -> Option<Share> {
        larger(
            larger(
                larger(self.rpm.used_share(), self.rpd.used_share()),
                self.tpm.used_share(),
            ),
            self.tpd.used_share(),
        )
    }

    /// The share that is shown as used: all where the key waits.
    pub open spec fn displayed(self) -> Option<Share> {
        if self.blocked_by_status {
            Some(Share::full())
        } else {
            self.largest()
        }
    }

    /// The share that is shown as free: nothing where the key waits.
    pub open spec fn free(self) -> Option<Share> {
        match self.displayed() {
            Some(s) => Some(s.rest()),
            None => None,
        }
    }

    /// Whether there is any limit.
    pub fn constrained(&self) -> (r: bool)
        ensures
            r == self.is_constrained(),
    {
        self.rpm.limit.is_some() || self.rpd.limit.is_some() || self.tpm.limit.is_some()
            || self.tpd.limit.is_some()
    }

    /// Whether some limit is reached.
    pub fn counter_exhausted(&self) -> (r: bool)
        ensures
            r == self.counters_used_up(),
    {
        self.rpm.exhausted() || self.rpd.exhausted() || self.tpm.exhausted() || self.tpd.exhausted()
    }

    /// Whether nothing is shown as free: some limit is reached, or the key waits.
    pub fn exhausted(&self) -> (r: bool)
        ensures
            r == (self.counters_used_up() || self.blocked_by_status),
    {
        self.counter_exhausted() || self.blocked_by_status
    }

    /// The largest share of a limit that is used.
    pub fn max_share(&self) -> (r: Option<Share>)
        ensures
            r == self.largest(),
    {
        let requests = larger_share(self.rpm.share(), self.rpd.share());
        larger_share(larger_share(requests, self.tpm.share()), self.tpd.share())
    }

    /// The share that is shown as used.
    pub fn display_share(&self) -> (r: Option<Share>)
        ensures
            r == self.displayed(),
    {
        if self.blocked_by_status {
            Some(Share { part: 1, whole: 1 })
        } else {
            self.max_share()
        }
    }

    /// The share that is shown as free.
    pub fn headroom_share(&self) -> (r: Option<Share>)
        ensures
            r == self.free(),
    {
        match self.display_share() {
            Some(s) => {
                proof {
                    shares_are_parts(*self);
                }
                Some(s.complement())
            },
            None => None,
        }
    }
}

/// How much of its limits a key has used.
pub fn key_rate_usage_at(k: &KeyState, now: u64) -> (r: RateUsage)
    ensures
        r == usage_at(k@, now),
{
    let minute = k.rpm_window_start == now / 60;
    let day = k.rpd_window_start == now / 86400;
    RateUsage {
        rpm: AxisUsage {
            limit: k.rpm_limit,
            used: if minute {
                k.rpm_count
            } else {
                0
            },
            window_active: minute,
        },
        rpd: AxisUsage {
            limit: k.rpd_limit,
            used: if day {
                k.rpd_count
            } else {
                0
            },
            window_active: day,
        },
        tpm: AxisUsage {
            limit: k.tpm_limit,
            used: if minute {
                k.tpm_prompt_count
            } else {
                0
            },
            window_active: minute,
        },
        tpd: AxisUsage {
            limit: k.tpd_limit,
            used: if day {
                k.tpd_prompt_count.saturating_add(k.tpd_completion_count)
            } else {
                0
            },
            window_active: day,
        },
        blocked_by_status: k.status == KeyStatus::RateLimited || k.status == KeyStatus::Cooldown,
    }
}

/// How much of its limits a key has used by now.
pub fn key_rate_usage(k: &KeyState) -> (r: RateUsage)
    ensures
        exists|now: u64| r == #[trigger] usage_at(k@, now),
{
    key_rate_usage_at(k, now_seconds())
}

// ---------------------------------------------------------------- laws of usage
/// Every share is part of a whole.
pub proof fn shares_are_parts(u: RateUsage)
    ensures
        u.largest() matches Some(s) ==> s.wf(),
        u.displayed() matches Some(s) ==> s.wf(),
        u.free() matches Some(s) ==> s.wf(),
        u.largest() is Some <==> u.is_constrained(),
{
}

proof fn at_most_chains(a: Share, b: Share, c: Share)
    requires
        a.wf(),
        b.wf(),
        c.wf(),
        a.at_most(b),
        b.at_most(c),
    ensures
        a.at_most(c),
{
    let (ap, aw, bp, bw, cp, cw) = (
        a.part as int,
        a.whole as int,
        b.part as int,
        b.whole as int,
        c.part as int,
        c.whole as int,
    );
    assert(ap * cw <= cp * aw) by (nonlinear_arith)
        requires
            0 <= ap,
            0 < aw,
            0 <= bp,
            0 < bw,
            0 <= cp,
            0 < cw,
            ap * bw <= bp * aw,
            bp * cw <= cp * bw,
    {
        assert(ap * bw * cw <= bp * aw * cw);
        assert(bp * cw * aw <= cp * bw * aw);
        assert(bp * aw * cw == bp * cw * aw);
        assert(bw * (ap * cw) == ap * bw * cw);
        assert(bw * (cp * aw) == cp * bw * aw);
        assert(bw * (ap * cw) <= bw * (cp * aw));
    }
}

proof fn larger_is_upper(a: Option<Share>, b: Option<Share>, s: Share)
    requires
        s.wf(),
        a matches Some(x) ==> x.wf(),
        b matches Some(y) ==> y.wf(),
        (a matches Some(x) && s.at_most(x)) || (b matches Some(y) && s.at_most(y)),
    ensures
        larger(a, b) matches Some(l) && s.at_most(l) && l.wf(),
{
    if let (Some(x), Some(y)) = (a, b) {
        if y.at_most(x) {
            if s.at_most(y) {
                at_most_chains(s, y, x);
            }
        } else {
            assert(x.at_most(y));
            if s.at_most(x) {
                at_most_chains(s, x, y);
            }
        }
    }
}

/// No limit is used by a larger share than the largest.
pub proof fn largest_is_largest(u: RateUsage, axis: AxisUsage)
    requires
        axis == u.rpm || axis == u.rpd || axis == u.tpm || axis == u.tpd,
        axis.limit is Some,
    ensures
        u.largest() matches Some(l) && axis.used_share()->0.at_most(l),
{
    let s = axis.used_share()->0;
    let first = larger(u.rpm.used_share(), u.rpd.used_share());
    let second = larger(first, u.tpm.used_share());
    if axis == u.rpm || axis == u.rpd {
        larger_is_upper(u.rpm.used_share(), u.rpd.used_share(), s);
        larger_is_upper(first, u.tpm.used_share(), s);
        larger_is_upper(second, u.tpd.used_share(), s);
    } else if axis == u.tpm {
        larger_is_upper(first, u.tpm.used_share(), s);
        larger_is_upper(second, u.tpd.used_share(), s);
    } else {
        larger_is_upper(second, u.tpd.used_share(), s);
    }
}

/// A key that waits is shown as used up, however low its counters are.
pub proof fn waiting_keys_show_no_headroom(k: KeyStateView, now: u64)
    requires
        k.status == KeyStatus::RateLimited || k.status == KeyStatus::Cooldown,
    ensures
        ({
            let u = usage_at(k, now);
            &&& u.blocked_by_status
            &&& u.displayed() == Some(Share::full())
            &&& u.free() matches Some(s) && s.part == 0
        }),
{
}

/// A key that is limited at a moment has its counters used up then.
pub proof fn limited_keys_are_used_up(k: KeyStateView, now: u64)
    requires
        k.limited(now),
    ensures
        usage_at(k, now).counters_used_up(),
{
}

// ---------------------------------------------------------------- JSON of usage
/// Percentages as they are shown: of each limit, and in all.
#[derive(Debug)]
pub struct UsagePercents {
    pub rpm: Option<Number>,
    pub rpd: Option<Number>,
    pub tpm: Option<Number>,
    pub tpd: Option<Number>,
    pub display: Option<Number>,
    pub max: Option<Number>,
    pub headroom: Option<Number>,
}

/// An optional number as JSON.
pub open spec fn opt_number_json(n: Option<NumberView>) -> JsonView {
    match n {
        Some(v) => JsonView::Number(v),
        None => JsonView::Null,
    }
}

/// How much of a limit is used, as JSON.
pub open spec fn axis_json(a: AxisUsage, percent: Option<NumberView>) -> JsonView {
    JsonView::Object(
        seq![
            ("limit"@, opt_num_json(wide32(a.limit))),
            ("used"@, num(a.used as u64)),
            ("remaining"@, opt_num_json(wide32(a.left()))),
            ("percent"@, opt_number_json(percent)),
            ("window_active"@, JsonView::Bool(a.window_active)),
            ("exhausted"@, JsonView::Bool(a.used_up())),
        ],
    )
}

/// How much of its limits a key has used, as JSON.
pub open spec fn usage_json(u: RateUsage, p: UsagePercents) -> JsonView {
    JsonView::Object(
        seq![
            (
                "axes"@,
                JsonView::Object(
                    seq![
                        ("rpm"@, axis_json(u.rpm, opt_number(p.rpm))),
                        ("rpd"@, axis_json(u.rpd, opt_number(p.rpd))),
                        ("tpm"@, axis_json(u.tpm, opt_number(p.tpm))),
                        ("tpd"@, axis_json(u.tpd, opt_number(p.tpd))),
                    ],
                ),
            ),
            ("constrained"@, JsonView::Bool(u.is_constrained())),
            ("exhausted"@, JsonView::Bool(u.counters_used_up() || u.blocked_by_status)),
            ("counter_exhausted"@, JsonView::Bool(u.counters_used_up())),
            ("blocked_by_status"@, JsonView::Bool(u.blocked_by_status)),
            ("display_percent"@, opt_number_json(opt_number(p.display))),
            ("max_percent"@, opt_number_json(opt_number(p.max))),
            ("headroom_percent"@, opt_number_json(opt_number(p.headroom))),
        ],
    )
}

fn axis_to_json(a: &AxisUsage, percent: &Option<Number>) -> (r: Json)
    ensures
        r@ == axis_json(*a, opt_number(*percent)),
{
    let mut o = ObjectBuilder::new();
    o.put_opt_num("limit", widen32(a.limit));
    o.put_num("used", a.used as u64);
    o.put_opt_num("remaining", widen32(a.remaining()));
    o.put_opt_number("percent", percent);
    o.put_bool("window_active", a.window_active);
    o.put_bool("exhausted", a.exhausted());
    assert(o@ =~= axis_json(*a, opt_number(*percent))->Object_0);
    o.done()
}

/// How much of its limits a key has used, as JSON.
pub fn key_rate_usage_json(u: &RateUsage, p: &UsagePercents) -> (r: Json)
    ensures
        r@ == usage_json(*u, *p),
{
    let mut axes = ObjectBuilder::new();
    axes.put("rpm", axis_to_json(&u.rpm, &p.rpm));
    axes.put("rpd", axis_to_json(&u.rpd, &p.rpd));
    axes.put("tpm", axis_to_json(&u.tpm, &p.tpm));
    axes.put("tpd", axis_to_json(&u.tpd, &p.tpd));
    assert(axes@ =~= usage_json(*u, *p)->Object_0[0].1->Object_0);
    let mut o = ObjectBuilder::new();
    o.put("axes", axes.done());
    o.put_bool("constrained", u.constrained());
    o.put_bool("exhausted", u.exhausted());
    o.put_bool("counter_exhausted", u.counter_exhausted());
    o.put_bool("blocked_by_status", u.blocked_by_status);
    o.put_opt_number("display_percent", &p.display);
    o.put_opt_number("max_percent", &p.max);
    o.put_opt_number("headroom_percent", &p.headroom);
    assert(o@ =~= usage_json(*u, *p)->Object_0);
    o.done()
}

// ---------------------------------------------------------------- all keys
/// Percentages of a key: of each limit, without a bound where more is used than
/// the limit allows, and those of its usage.
#[derive(Debug)]
pub struct KeyPercents {
    pub rpm: Option<Number>,
    pub rpd: Option<Number>,
    pub tpm: Option<Number>,
    pub tpd: Option<Number>,
    pub usage: UsagePercents,
}

/// What of an axis is a percentage of what, without a bound; the whole where
/// the limit is zero.
pub fn raw_share(a: &AxisUsage) -> (r: Option<(u32, u32)>)
    ensures
        r == match a.limit {
            Some(limit) => Some(
                if limit > 0 {
                    (a.used, limit)
                } else {
                    (1u32, 1u32)
                },
            ),
            None => None,
        },
{
    match a.limit {
        Some(limit) => Some(
            if limit > 0 {
                (a.used, limit)
            } else {
                (1, 1)
            },
        ),
        None => None,
    }
}

/// A limit with where it comes from, as JSON.
pub open spec fn request_limit_json(
    a: AxisUsage,
    percent: Option<NumberView>,
    source: Option<Seq<char>>,
) -> JsonView {
    JsonView::Object(
        seq![
            ("limit"@, opt_num_json(wide32(a.limit))),
            ("used"@, num(a.used as u64)),
            ("percent"@, opt_number_json(percent)),
            ("source"@, opt_text_json(source)),
        ],
    )
}

/// A limit on tokens as JSON.
pub open spec fn token_limit_json(a: AxisUsage, percent: Option<NumberView>) -> JsonView {
    JsonView::Object(
        seq![
            ("limit"@, opt_num_json(wide32(a.limit))),
            ("used"@, num(a.used as u64)),
            ("percent"@, opt_number_json(percent)),
        ],
    )
}

/// The limits of a key as JSON.
pub open spec fn limits_json(k: KeyStateView, now: u64, p: KeyPercents) -> JsonView {
    let u = usage_at(k, now);
    JsonView::Object(
        seq![
            ("rpm"@, request_limit_json(u.rpm, opt_number(p.rpm), k.rpm_limit_source)),
            ("rpd"@, request_limit_json(u.rpd, opt_number(p.rpd), k.rpd_limit_source)),
            ("tpm"@, token_limit_json(u.tpm, opt_number(p.tpm))),
            ("tpd"@, token_limit_json(u.tpd, opt_number(p.tpd))),
        ],
    )
}

/// What every list of keys begins with: the key, masked, and what happened to
/// it.
pub open spec fn key_head(k: KeyStateView) -> Seq<(Seq<char>, JsonView)> {
    seq![
        ("key_id"@, JsonView::Text(k.key_id)),
        ("key"@, JsonView::Text(mask(k.key))),
        ("tier"@, JsonView::Text(tier_name(k.tier))),
        ("status"@, JsonView::Text(status_name(k.status))),
        ("success_count"@, num(k.success_count)),
        ("fail_count"@, num(k.fail_count as u64)),
        ("total_fail_count"@, num(k.total_fail_count)),
        ("last_success_at"@, opt_num_json(k.last_success_at)),
        ("last_error_at"@, opt_num_json(k.last_error_at)),
        ("last_error_status"@, opt_num_json(wide16(k.last_error_status))),
        ("status_updated_at"@, opt_num_json(k.status_updated_at)),
        ("last_recovered_at"@, opt_num_json(k.last_recovered_at)),
    ]
}

/// A key in full as JSON.
pub open spec fn key_detail(k: KeyStateView, now: u64, p: KeyPercents) -> JsonView {
    JsonView::Object(
        key_head(k) + seq![
            ("cooldown_until"@, opt_num_json(k.cooldown_until)),
            ("models"@, strings_json(k.models)),
            ("rate_limits"@, limits_json(k, now, p)),
            ("rate_usage"@, usage_json(usage_at(k, now), p.usage)),
        ],
    )
}

/// What every list of keys begins with.
pub(crate) fn key_head_of(k: &KeyState) -> (o: ObjectBuilder)
    requires
        maskable(k.key@),
    ensures
        o@ == key_head(k@),
{
    let mut o = ObjectBuilder::new();
    o.put_text("key_id", k.key_id.as_str());
    o.put_text("key", k.masked_key().as_str());
    o.put_text("tier", k.tier.to_string().as_str());
    o.put_text("status", k.status.name());
    o.put_num("success_count", k.success_count);
    o.put_num("fail_count", k.fail_count as u64);
    o.put_num("total_fail_count", k.total_fail_count);
    o.put_opt_num("last_success_at", k.last_success_at);
    o.put_opt_num("last_error_at", k.last_error_at);
    o.put_opt_num("last_error_status", widen16(k.last_error_status));
    o.put_opt_num("status_updated_at", k.status_updated_at);
    o.put_opt_num("last_recovered_at", k.last_recovered_at);
    assert(o@ =~= key_head(k@));
    o
}

fn request_limit_to_json(a: &AxisUsage, percent: &Option<Number>, source: &Option<String>) -> (r:
    Json)
    ensures
        r@ == request_limit_json(*a, opt_number(*percent), opt_view(*source)),
{
    let mut o = ObjectBuilder::new();
    o.put_opt_num("limit", widen32(a.limit));
    o.put_num("used", a.used as u64);
    o.put_opt_number("percent", percent);
    o.put_opt_text("source", str_of(source));
    assert(o@ =~= request_limit_json(
        *a,
        opt_number(*percent),
        opt_view(*source),
    )->Object_0);
    o.done()
}

fn token_limit_to_json(a: &AxisUsage, percent: &Option<Number>) -> (r: Json)
    ensures
        r@ == token_limit_json(*a, opt_number(*percent)),
{
    let mut o = ObjectBuilder::new();
    o.put_opt_num("limit", widen32(a.limit));
    o.put_num("used", a.used as u64);
    o.put_opt_number("percent", percent);
    assert(o@ =~= token_limit_json(*a, opt_number(*percent))->Object_0);
    o.done()
}

/// A key in full as JSON.
pub fn key_detail_json(k: &KeyState, now: u64, p: &KeyPercents) -> (r: Json)
    requires
        maskable(k.key@),
    ensures
        r@ == key_detail(k@, now, *p),
{
    let u = key_rate_usage_at(k, now);
    let mut limits = ObjectBuilder::new();
    limits.put("rpm", request_limit_to_json(&u.rpm, &p.rpm, &k.rpm_limit_source));
    limits.put("rpd", request_limit_to_json(&u.rpd, &p.rpd, &k.rpd_limit_source));
    limits.put("tpm", token_limit_to_json(&u.tpm, &p.tpm));
    limits.put("tpd", token_limit_to_json(&u.tpd, &p.tpd));
    assert(limits@ =~= limits_json(k@, now, *p)->Object_0);
    let mut o = key_head_of(k);
    o.put_opt_num("cooldown_until", k.cooldown_until);
    o.put_strings("models", &k.models);
    o.put("rate_limits", limits.done());
    o.put("rate_usage", key_rate_usage_json(&u, &p.usage));
    assert(o@ =~= key_detail(k@, now, *p)->Object_0);
    o.done()
}

/// Whether every key of a snapshot can be masked.
pub open spec fn snapshot_maskable(snapshot: Seq<(String, Vec<KeyState>)>) -> bool {
    forall|i: int, j: int|
        0 <= i < snapshot.len() && 0 <= j < snapshot[i].1@.len() ==> maskable(
            (#[trigger] snapshot[i].1@[j]).key@,
        )
}

/// Whether every key of a snapshot can be masked.
pub fn can_show(snapshot: &Vec<(String, Vec<KeyState>)>) -> (r: bool)
    ensures
        r == snapshot_maskable(snapshot@),
{
    let mut i: usize = 0;
    while i < snapshot.len()
        invariant
            i <= snapshot@.len(),
            forall|a: int, j: int|
                0 <= a < i && 0 <= j < snapshot@[a].1@.len() ==> maskable(
                    (#[trigger] snapshot@[a].1@[j]).key@,
                ),
        decreases snapshot@.len() - i,
    {
        let keys = &snapshot[i].1;
        let mut j: usize = 0;
        while j < keys.len()
            invariant
                i < snapshot@.len(),
                j <= keys@.len(),
                *keys == snapshot@[i as int].1,
                forall|b: int| 0 <= b < j ==> maskable((#[trigger] keys@[b]).key@),
            decreases keys@.len() - j,
        {
            if !can_mask(keys[j].key.as_str()) {
                assert(!maskable(snapshot@[i as int].1@[j as int].key@));
                return false;
            }
            j += 1;
        }
        i += 1;
    }
    true
}

/// A snapshot of a hub whose keys can be masked can be shown.
pub proof fn snapshots_can_be_shown(
    snapshot: Seq<(String, Vec<KeyState>)>,
    hub: HubView,
)
    requires
        hub_maskable(hub),
        lists_masked(snapshot, hub),
    ensures
        snapshot_maskable(snapshot),
{
    assert forall|i: int, j: int|
        0 <= i < snapshot.len() && 0 <= j < snapshot[i].1@.len() implies maskable(
        (#[trigger] snapshot[i].1@[j]).key@,
    ) by {
        let name = snapshot[i].0@;
        assert(hub.pools.contains_key(name));
        let shown = state_views(snapshot[i].1@);
        assert(shown[j] == snapshot[i].1@[j]@);
        let masked = hub.pools[name].keys.map_values(|k: KeyStateView| k.masked());
        assert(shown == masked);
        assert(shown.len() == masked.len());
        let key = hub.pools[name].keys[j];
        assert(masked[j] == key.masked());
        assert(maskable(key.key));
        masking_is_idempotent(hub.pools[name].keys[j].key);
    }
}

/// Whether there are percentages for each key of a snapshot.
pub open spec fn percents_for(
    snapshot: Seq<(String, Vec<KeyState>)>,
    percents: Seq<Vec<KeyPercents>>,
) -> bool {
    percents.len() == snapshot.len() && forall|i: int|
        0 <= i < snapshot.len() ==> (#[trigger] percents[i])@.len() == snapshot[i].1@.len()
}

/// The keys of a provider in full.
pub open spec fn details(keys: Seq<KeyState>, now: u64, percents: Seq<KeyPercents>) -> JsonView {
    JsonView::Array(Seq::new(keys.len(), |j: int| key_detail(keys[j]@, now, percents[j])))
}

/// The keys of all providers in full.
pub open spec fn keys_answer(
    snapshot: Seq<(String, Vec<KeyState>)>,
    now: u64,
    percents: Seq<Vec<KeyPercents>>,
) -> JsonView {
    JsonView::Object(
        seq![
            (
                "providers"@,
                JsonView::Object(
                    Seq::new(
                        snapshot.len(),
                        |i: int| (snapshot[i].0@, details(snapshot[i].1@, now, percents[i]@)),
                    ),
                ),
            ),
        ],
    )
}

fn details_of(keys: &Vec<KeyState>, now: u64, percents: &Vec<KeyPercents>) -> (r: Json)
    requires
        percents@.len() == keys@.len(),
        forall|j: int| 0 <= j < keys@.len() ==> maskable((#[trigger] keys@[j]).key@),
    ensures
        r@ == details(keys@, now, percents@),
{
    broadcast use group_json_views;

    let mut list: Vec<Json> = Vec::new();
    let mut j: usize = 0;
    while j < keys.len()
        invariant
            j <= keys@.len(),
            percents@.len() == keys@.len(),
            forall|j: int| 0 <= j < keys@.len() ==> maskable((#[trigger] keys@[j]).key@),
            list@.len() == j,
            forall|b: int|
                0 <= b < j ==> (#[trigger] list@[b])@ == key_detail(keys@[b]@, now, percents@[b]),
        decreases keys@.len() - j,
    {
        let detail = key_detail_json(&keys[j], now, &percents[j]);
        list.push(detail);
        j += 1;
    }
    assert(items_view(list@) =~= details(keys@, now, percents@)->Array_0);
    Json::Array(list)
}

/// The keys of all providers in full.
pub fn admin_keys(
    snapshot: &Vec<(String, Vec<KeyState>)>,
    now: u64,
    percents: &Vec<Vec<KeyPercents>>,
) -> (r: Json)
    requires
        snapshot_maskable(snapshot@),
        percents_for(snapshot@, percents@),
    ensures
        r@ == keys_answer(snapshot@, now, percents@),
{
    let ghost shown = keys_answer(snapshot@, now, percents@)->Object_0[0].1->Object_0;
    let mut providers = ObjectBuilder::new();
    let mut i: usize = 0;
    assert(providers@ =~= shown.take(0));
    while i < snapshot.len()
        invariant
            i <= snapshot@.len(),
            snapshot_maskable(snapshot@),
            percents_for(snapshot@, percents@),
            shown == keys_answer(snapshot@, now, percents@)->Object_0[0].1->Object_0,
            providers@ == shown.take(i as int),
        decreases snapshot@.len() - i,
    {
        assert(percents@[i as int]@.len() == snapshot@[i as int].1@.len());
        assert forall|j: int| 0 <= j < snapshot@[i as int].1@.len() implies maskable(
            (#[trigger] snapshot@[i as int].1@[j]).key@,
        ) by {}
        let list = details_of(&snapshot[i].1, now, &percents[i]);
        providers.put(snapshot[i].0.as_str(), list);
        i += 1;
        assert(shown.take(i as int) =~= shown.take(i - 1).push(shown[i - 1]));
    }
    assert(shown.take(snapshot@.len() as int) =~= shown);
    let mut o = ObjectBuilder::new();
    o.put("providers", providers.done());
    assert(o@ =~= keys_answer(snapshot@, now, percents@)->Object_0);
    o.done()
}

/// What is shown of a key depends on the key only through its mask.
pub proof fn details_show_the_mask_only(a: KeyStateView, secret: Seq<char>, now: u64, p: KeyPercents)
    requires
        mask(secret) == mask(a.key),
    ensures
        key_detail(KeyStateView { key: secret, ..a }, now, p) == key_detail(a, now, p),
{
}

} // verus!
