//! The trial of a key: one model after another is asked, until one answers or
//! an error says something of the key.
use crate::api::admin::events::{event, event_json};
use crate::api::admin::validation::{
    admin_test_model_candidates, answer_previewable, answering_model, attempt_record, blames_key,
    can_be_tried, candidates_of, content_preview, disabled_of, failure_status, health_check_of,
    is_validation_model_mismatch, model_mismatch, models_of_id, models_of_key,
    record_admin_validation_attempt, response_model_and_preview,
    validation_error_should_update_key_state, validation_failure_status, ValidationAttempt,
    ValidationAttemptView,
};
use crate::api::models::{DisabledModels, is_disabled};
use crate::clock::{Moment, now_millis, now_seconds};
use crate::config::Config;
use crate::error::{GatewayError, GatewayResult, message_of, status_of};
use crate::json::{Json, json_list, JsonView, num, ObjectBuilder, opt_text_json, strings_json};
use crate::keyhub::KeyHub;
use crate::keyhub::hub::{acquires, HubView};
use crate::keyhub::pool::{id_index, RoundRobin};
use crate::lists::{firsts, firsts_are_distinct, kept, kept_satisfies, lookup, named_in};
use crate::providers::traits::ChatResponse;
use crate::text::{concat2, concat3, decimal_int, i64_text, is_blank, list_has, opt_view, views};
use vstd::prelude::*;

verus! {

/// A model that did not suit.
#[derive(Debug)]
pub struct SkippedModel {
    pub model: String,
    pub http_status: u16,
    pub error: String,
}

/// What a [`SkippedModel`] holds.
pub struct SkippedView {
    pub model: Seq<char>,
    pub http_status: u16,
    pub error: Seq<char>,
}

impl View for SkippedModel {
    type V = SkippedView;

    open spec fn view(&self) -> SkippedView {
        SkippedView { model: self.model@, http_status: self.http_status, error: self.error@ }
    }
}

/// The views of some skipped models.
pub open spec fn skipped_views(list: Seq<SkippedModel>) -> Seq<SkippedView> {
    list.map_values(|s: SkippedModel| s@)
}

/// The trial of a key. One that was chosen for its provider has no identifier
/// here, and its request was reserved.
#[derive(Debug)]
pub struct KeyTrial {
    pub provider: String,
    pub key_id: Option<String>,
    pub api_key: String,
    pub request_id: String,
    pub timeout_seconds: u64,
    pub candidates: Vec<String>,
    pub skipped: Vec<SkippedModel>,
}

/// What a [`KeyTrial`] holds.
pub struct TrialView {
    pub provider: Seq<char>,
    pub key_id: Option<Seq<char>>,
    pub api_key: Seq<char>,
    pub request_id: Seq<char>,
    pub timeout_seconds: u64,
    pub candidates: Seq<Seq<char>>,
    pub skipped: Seq<SkippedView>,
}

impl View for KeyTrial {
    type V = TrialView;

    open spec fn view(&self) -> TrialView {
        TrialView {
            provider: self.provider@,
            key_id: opt_view(self.key_id),
            api_key: self.api_key@,
            request_id: self.request_id@,
            timeout_seconds: self.timeout_seconds,
            candidates: views(self.candidates@),
            skipped: skipped_views(self.skipped@),
        }
    }
}

impl TrialView {
    /// Whether some model is still to be tried.
    pub open spec fn goes_on(self) -> bool {
        self.skipped.len() < self.candidates.len()
    }

    /// The model that is tried next.
    pub open spec fn model(self) -> Seq<char> {
        self.candidates[self.skipped.len() as int]
    }

    /// The trial after a model that did not suit.
    pub open spec fn skipping(self, e: GatewayError) -> TrialView {
        TrialView {
            skipped: self.skipped.push(
                SkippedView {
                    model: self.model(),
                    http_status: status_of(e),
                    error: message_of(e),
                },
            ),
            ..self
        }
    }

    /// What is recorded of the attempt with the next model.
    pub open spec fn record(
        self,
        result: Result<u16, GatewayError>,
        fallback: bool,
        now: Moment,
    ) -> ValidationAttemptView {
        attempt_record(
            self.request_id,
            (self.skipped.len() + 1) as i64,
            self.provider,
            self.model(),
            self.api_key,
            result,
            fallback,
            now,
        )
    }
}

// ---------------------------------------------------------------- replies
/// The identifier of a key as a member, where it is told.
pub open spec fn id_member(key_id: Option<Seq<char>>) -> Seq<(Seq<char>, JsonView)> {
    match key_id {
        Some(id) => seq![("key_id"@, JsonView::Text(id))],
        None => Seq::empty(),
    }
}

/// A skipped model as JSON.
pub open spec fn skipped_json(s: SkippedView) -> JsonView {
    JsonView::Object(
        seq![
            ("model"@, JsonView::Text(s.model)),
            ("http_status"@, num(s.http_status as u64)),
            ("error"@, JsonView::Text(s.error)),
        ],
    )
}

/// Skipped models as JSON.
pub open spec fn skipped_list(list: Seq<SkippedView>) -> JsonView {
    JsonView::Array(list.map_values(|s: SkippedView| skipped_json(s)))
}

/// The beginning of every reply.
pub open spec fn reply_head(t: TrialView, success: bool) -> Seq<(Seq<char>, JsonView)> {
    seq![("success"@, JsonView::Bool(success)), ("provider"@, JsonView::Text(t.provider))]
        + id_member(t.key_id)
}

/// The reply to a trial in which a model answered.
pub open spec fn success_reply(
    t: TrialView,
    status: u16,
    body: JsonView,
    latency: u64,
) -> JsonView {
    JsonView::Object(
        reply_head(t, true) + seq![
            ("model"@, JsonView::Text(answering_model(body, t.model()))),
            ("attempted_models"@, strings_json(t.candidates)),
            ("skipped_models"@, skipped_list(t.skipped)),
            ("latency_ms"@, num(latency)),
            ("status"@, num(status as u64)),
            ("response_preview"@, opt_text_json(content_preview(body))),
        ],
    )
}

/// The reply to a trial that an error ended.
pub open spec fn failure_reply(t: TrialView, e: GatewayError) -> JsonView {
    JsonView::Object(
        reply_head(t, false) + seq![
            ("model"@, JsonView::Text(t.model())),
            ("attempted_models"@, strings_json(t.candidates)),
            ("skipped_models"@, skipped_list(t.skipped)),
            ("error"@, JsonView::Text(message_of(e))),
            ("http_status"@, num(status_of(e) as u64)),
            ("validation_status"@, JsonView::Text(failure_status(e))),
            ("key_state_updated"@, JsonView::Bool(blames_key(e))),
        ],
    )
}

/// The reply to a trial in which no model suited, or none could be tried.
pub open spec fn no_model_reply(t: TrialView) -> JsonView {
    if t.skipped.len() > 0 {
        JsonView::Object(
            reply_head(t, false) + seq![
                ("attempted_models"@, strings_json(t.candidates)),
                ("skipped_models"@, skipped_list(t.skipped)),
                ("error"@, JsonView::Text(t.skipped.last().error)),
                ("http_status"@, num(t.skipped.last().http_status as u64)),
            ],
        )
    } else {
        JsonView::Object(
            reply_head(t, false) + seq![
                (
                    "error"@,
                    JsonView::Text(
                        "Invalid request: "@ + "No enabled validation models available"@,
                    ),
                ),
                ("http_status"@, num(500)),
            ],
        )
    }
}

/// What listeners are told of a key that works.
pub open spec fn success_data(t: TrialView, latency: u64) -> JsonView {
    JsonView::Object(
        seq![("provider"@, JsonView::Text(t.provider))] + id_member(t.key_id) + seq![
            ("success"@, JsonView::Bool(true)),
            ("latency_ms"@, num(latency)),
            ("model"@, JsonView::Text(t.model())),
        ],
    )
}

/// The kind of event that tells of a key that works.
pub open spec fn success_kind(t: TrialView) -> Seq<char> {
    if t.key_id is Some {
        "key_validate"@
    } else {
        "provider_test"@
    }
}

fn put_id(o: &mut ObjectBuilder, key_id: &Option<String>)
    ensures
        final(o)@ == old(o)@ + id_member(opt_view(*key_id)),
{
    match key_id {
        Some(id) => {
            o.put_text("key_id", id.as_str());
            assert(o@ =~= old(o)@ + id_member(opt_view(*key_id)));
        },
        None => {
            assert(o@ =~= old(o)@ + id_member(opt_view(*key_id)));
        },
    }
}

fn skipped_to_json(s: &SkippedModel) -> (r: Json)
    ensures
        r@ == skipped_json(s@),
{
    let mut o = ObjectBuilder::new();
    o.put_text("model", s.model.as_str());
    o.put_num("http_status", s.http_status as u64);
    o.put_text("error", s.error.as_str());
    assert(o@ =~= skipped_json(s@)->Object_0);
    o.done()
}

impl KeyTrial {
    /// The model that is tried next, where there is one.
    pub fn next_model(&self) -> (r: Option<&str>)
        ensures
            match r {
                Some(m) => self@.goes_on() && m@ == self@.model(),
                None => !self@.goes_on(),
            },
    {
        let at = self.skipped.len();
        if at < self.candidates.len() {
            Some(self.candidates[at].as_str())
        } else {
            None
        }
    }

    fn head(&self, success: bool) -> (o: ObjectBuilder)
        ensures
            o@ == reply_head(self@, success),
    {
        let mut o = ObjectBuilder::new();
        o.put_bool("success", success);
        o.put_text("provider", self.provider.as_str());
        assert(o@ =~= seq![
            ("success"@, JsonView::Bool(success)),
            ("provider"@, JsonView::Text(self.provider@)),
        ]);
        put_id(&mut o, &self.key_id);
        o
    }

    fn skipped_to_list(&self) -> (r: Json)
        ensures
            r@ == skipped_list(self@.skipped),
    {
        let describe = |s: &SkippedModel| -> (j: Json)
            ensures
                j@ == skipped_json(s@),
            { skipped_to_json(s) };
        let r = json_list(&self.skipped, describe, Ghost(|s: SkippedModel| skipped_json(s@)));
        assert(self.skipped@.map_values(|s: SkippedModel| skipped_json(s@))
            =~= self@.skipped.map_values(|s: SkippedView| skipped_json(s)));
        r
    }

    /// The reply to a trial in which a model answered.
    fn success_to_json(&self, model: &str, status: u16, body: &Json, latency: u64) -> (r: Json)
        requires
            answer_previewable(body@),
            self@.goes_on(),
            model@ == self@.model(),
        ensures
            r@ == success_reply(self@, status, body@, latency),
    {
        let (answering, preview) = response_model_and_preview(body, model);
        let mut o = self.head(true);
        o.put_text("model", answering.as_str());
        o.put_strings("attempted_models", &self.candidates);
        o.put("skipped_models", self.skipped_to_list());
        o.put_num("latency_ms", latency);
        o.put_num("status", status as u64);
        o.put_opt_text(
            "response_preview",
            match &preview {
                Some(p) => Some(p.as_str()),
                None => None,
            },
        );
        assert(o@ =~= success_reply(self@, status, body@, latency)->Object_0);
        o.done()
    }

    /// The reply to a trial that an error ended.
    fn failure_to_json(&self, model: &str, e: &GatewayError) -> (r: Json)
        requires
            self@.goes_on(),
            model@ == self@.model(),
        ensures
            r@ == failure_reply(self@, *e),
    {
        let mut o = self.head(false);
        o.put_text("model", model);
        o.put_strings("attempted_models", &self.candidates);
        o.put("skipped_models", self.skipped_to_list());
        o.put_text("error", e.to_string().as_str());
        o.put_num("http_status", e.http_status() as u64);
        o.put_text("validation_status", validation_failure_status(e));
        o.put_bool("key_state_updated", validation_error_should_update_key_state(e));
        assert(o@ =~= failure_reply(self@, *e)->Object_0);
        o.done()
    }

    /// What listeners are told of a key that works.
    fn success_event(&self, model: &str, latency: u64, now: u64) -> (r: Json)
        requires
            self@.goes_on(),
            model@ == self@.model(),
        ensures
            r@ == event_json(success_kind(self@), success_data(self@, latency), now),
    {
        let mut o = ObjectBuilder::new();
        o.put_text("provider", self.provider.as_str());
        assert(o@ =~= seq![("provider"@, JsonView::Text(self.provider@))]);
        put_id(&mut o, &self.key_id);
        o.put_bool("success", true);
        o.put_num("latency_ms", latency);
        o.put_text("model", model);
        assert(o@ =~= success_data(self@, latency)->Object_0);
        let kind = match &self.key_id {
            Some(_) => "key_validate",
            None => "provider_test",
        };
        event(kind, o.done(), now)
    }
}

// ---------------------------------------------------------------- steps
/// What follows from one answer: what is recorded, what listeners are told, and
/// the reply that ends the trial, where it ends.
#[derive(Debug)]
pub struct TrialStep {
    pub attempt: ValidationAttempt,
    pub event: Option<Json>,
    pub reply: Option<Json>,
}

/// Whether a step is what an answer means. A model that does not suit is passed
/// over without a word on the key; any other error ends the trial, and only one
/// that blames the key is held against it.
pub open spec fn steps(
    trial: TrialView,
    after: TrialView,
    hub: HubView,
    hub_after: HubView,
    result: GatewayResult<(ChatResponse, u64)>,
    step: TrialStep,
    at: Moment,
    moment: Moment,
    now: u64,
    then: u64,
) -> bool {
    match result {
        Ok(o) => {
            &&& after == trial
            &&& hub_after == hub.succeeded(
                trial.provider,
                trial.api_key,
                None,
                None,
                trial.key_id is None,
                now,
            )
            &&& step.attempt@ == trial.record(Ok(o.0.status), false, at)
            &&& step.event matches Some(told) && told@ == event_json(
                success_kind(trial),
                success_data(trial, o.1),
                then,
            )
            &&& step.reply matches Some(reply) && reply@ == success_reply(
                trial,
                o.0.status,
                o.0.body@,
                o.1,
            )
        },
        Err(e) => if model_mismatch(e) {
            &&& after == trial.skipping(e)
            &&& hub_after == hub
            &&& step.attempt@ == trial.record(
                Err(e),
                trial.skipped.len() + 1 < trial.candidates.len(),
                at,
            )
            &&& step.event is None
            &&& step.reply is None
        } else {
            &&& after == trial
            &&& hub_after == if blames_key(e) {
                hub.charged(trial.provider, trial.api_key, e, moment, now)
            } else {
                hub
            }
            &&& step.attempt@ == trial.record(Err(e), false, at)
            &&& step.event is None
            &&& step.reply matches Some(reply) && reply@ == failure_reply(trial, e)
        },
    }
}

impl KeyTrial {
    /// Takes the outcome of the request to the next model into account.
    pub fn on_answer(
        &mut self,
        keyhub: &mut KeyHub,
        result: GatewayResult<(ChatResponse, u64)>,
    ) -> (r: TrialStep)
        requires
            old(self)@.goes_on(),
            old(keyhub).wf(),
            result matches Ok(o) ==> answer_previewable(o.0.body@),
        ensures
            final(keyhub).wf(),
            exists|at: Moment, moment: Moment, now: u64, then: u64|
                0 <= at.seconds && 0 <= moment.seconds && #[trigger] steps(
                    old(self)@,
                    final(self)@,
                    old(keyhub)@,
                    final(keyhub)@,
                    result,
                    r,
                    at,
                    moment,
                    now,
                    then,
                ),
    {
        let ghost trial = self@;
        let ghost hub = keyhub@;
        let ghost given = result;
        let ghost never = Moment { seconds: 0, nanos: 0 };
        let at = self.skipped.len();
        let total = self.candidates.len();
        assert(at < total);
        let model = self.candidates[at].clone();
        let index = (at + 1) as i64;
        match result {
            Ok((response, latency)) => {
                let attempt = record_admin_validation_attempt(
                    self.request_id.as_str(),
                    index,
                    self.provider.as_str(),
                    model.as_str(),
                    self.api_key.as_str(),
                    Ok(response.status),
                    false,
                );
                let ghost recorded = choose|now: Moment|
                    0 <= now.seconds && attempt@ == #[trigger] attempt_record(
                        trial.request_id,
                        index,
                        trial.provider,
                        model@,
                        trial.api_key,
                        Ok(response.status),
                        false,
                        now,
                    );
                let chosen = match &self.key_id {
                    Some(_) => false,
                    None => true,
                };
                if chosen {
                    keyhub.report_reserved_success(
                        self.provider.as_str(),
                        self.api_key.as_str(),
                        None,
                        None,
                    );
                } else {
                    keyhub.report_success(
                        self.provider.as_str(),
                        self.api_key.as_str(),
                        None,
                        None,
                    );
                }
                let ghost now = choose|now: u64|
                    keyhub@ == #[trigger] hub.succeeded(
                        trial.provider,
                        trial.api_key,
                        None,
                        None,
                        chosen,
                        now,
                    );
                let then = now_seconds();
                let told = self.success_event(model.as_str(), latency, then);
                let reply = self.success_to_json(
                    model.as_str(),
                    response.status,
                    &response.body,
                    latency,
                );
                let r = TrialStep { attempt, event: Some(told), reply: Some(reply) };
                assert(steps(
                    trial,
                    self@,
                    hub,
                    keyhub@,
                    given,
                    r,
                    recorded,
                    never,
                    now,
                    then,
                ));
                r
            },
            Err(e) => {
                let mismatch = is_validation_model_mismatch(&e);
                let fallback = mismatch && at + 1 < total;
                let attempt = record_admin_validation_attempt(
                    self.request_id.as_str(),
                    index,
                    self.provider.as_str(),
                    model.as_str(),
                    self.api_key.as_str(),
                    Err(&e),
                    fallback,
                );
                let ghost recorded = choose|now: Moment|
                    0 <= now.seconds && attempt@ == #[trigger] attempt_record(
                        trial.request_id,
                        index,
                        trial.provider,
                        model@,
                        trial.api_key,
                        Err(e),
                        fallback,
                        now,
                    );
                if mismatch {
                    self.skipped.push(
                        SkippedModel {
                            model,
                            http_status: e.http_status(),
                            error: e.to_string(),
                        },
                    );
                    let r = TrialStep { attempt, event: None, reply: None };
                    assert(self@.skipped =~= trial.skipping(e).skipped);
                    assert(steps(
                        trial,
                        self@,
                        hub,
                        keyhub@,
                        given,
                        r,
                        recorded,
                        never,
                        0,
                        0,
                    ));
                    return r;
                }
                let reply = self.failure_to_json(model.as_str(), &e);
                let ghost mut moment = never;
                let ghost mut now: u64 = 0;
                if validation_error_should_update_key_state(&e) {
                    keyhub.report_gateway_error(
                        self.provider.as_str(),
                        self.api_key.as_str(),
                        &e,
                    );
                    proof {
                        let (m, n) = choose|m: Moment, n: u64|
                            0 <= m.seconds && keyhub@ == #[trigger] hub.charged(
                                trial.provider,
                                trial.api_key,
                                e,
                                m,
                                n,
                            );
                        moment = m;
                        now = n;
                    }
                }
                let r = TrialStep { attempt, event: None, reply: Some(reply) };
                assert(steps(
                    trial,
                    self@,
                    hub,
                    keyhub@,
                    given,
                    r,
                    recorded,
                    moment,
                    now,
                    0,
                ));
                r
            },
        }
    }

    /// The reply where no model is left to be tried. Nothing is held against the
    /// key.
    pub fn finish(&self, keyhub: &mut KeyHub) -> (r: Json)
        requires
            old(keyhub).wf(),
        ensures
            final(keyhub).wf(),
            final(keyhub)@ == old(keyhub)@,
            r@ == no_model_reply(self@),
    {
        let mut o = self.head(false);
        let n = self.skipped.len();
        if n > 0 {
            let last = &self.skipped[n - 1];
            assert(last@ == self@.skipped.last());
            o.put_strings("attempted_models", &self.candidates);
            o.put("skipped_models", self.skipped_to_list());
            o.put_text("error", last.error.as_str());
            o.put_num("http_status", last.http_status as u64);
        } else {
            let e = GatewayError::InvalidRequest(
                "No enabled validation models available".to_owned(),
            );
            keyhub.report_gateway_error(self.provider.as_str(), self.api_key.as_str(), &e);
            o.put_text("error", e.to_string().as_str());
            o.put_num("http_status", e.http_status() as u64);
        }
        assert(o@ =~= no_model_reply(self@)->Object_0);
        o.done()
    }
}

// ---------------------------------------------------------------- beginnings
/// The seconds that a provider has for an answer.
pub open spec fn provider_timeout(config: Config, provider: Seq<char>) -> u64 {
    match named_in(config.providers@, provider) {
        Some(pc) => pc.timeout_seconds,
        None => 30,
    }
}

fn timeout_of(config: &Config, provider_name: &str) -> (r: u64)
    ensures
        r == provider_timeout(*config, provider_name@),
{
    match lookup(&config.providers, provider_name) {
        Some(pc) => pc.timeout_seconds,
        None => 30,
    }
}

/// What is said of a provider that is not there.
pub open spec fn provider_missing(provider: Seq<char>) -> Seq<char> {
    "Provider '"@ + provider + "' not found"@
}

/// A refusal for a reason.
pub open spec fn refusal(error: Seq<char>) -> JsonView {
    JsonView::Object(
        seq![("success"@, JsonView::Bool(false)), ("error"@, JsonView::Text(error))],
    )
}

/// A refusal for a reason.
pub fn refusal_to_json(error: &str) -> (r: Json)
    ensures
        r@ == refusal(error@),
{
    let mut o = ObjectBuilder::new();
    o.put_bool("success", false);
    o.put_text("error", error);
    assert(o@ =~= refusal(error@)->Object_0);
    o.done()
}

/// A refusal for a reason, of a key.
pub open spec fn key_refusal(provider: Seq<char>, key_id: Seq<char>, error: Seq<char>) -> JsonView {
    JsonView::Object(
        seq![
            ("success"@, JsonView::Bool(false)),
            ("provider"@, JsonView::Text(provider)),
            ("key_id"@, JsonView::Text(key_id)),
            ("error"@, JsonView::Text(error)),
        ],
    )
}

/// A refusal for a reason, of a key.
pub fn key_refusal_to_json(provider: &str, key_id: &str, error: &str) -> (r: Json)
    ensures
        r@ == key_refusal(provider@, key_id@, error@),
{
    let mut o = ObjectBuilder::new();
    o.put_bool("success", false);
    o.put_text("provider", provider);
    o.put_text("key_id", key_id);
    o.put_text("error", error);
    assert(o@ =~= key_refusal(provider@, key_id@, error@)->Object_0);
    o.done()
}

/// The trial of a key of a provider, before any model was tried.
pub open spec fn fresh_trial(
    config: Config,
    disabled: Seq<(String, Vec<String>)>,
    hub: HubView,
    provider: Seq<char>,
    key_id: Option<Seq<char>>,
    api_key: Seq<char>,
    millis: i64,
) -> TrialView {
    let timeout = provider_timeout(config, provider);
    TrialView {
        provider,
        key_id,
        api_key,
        request_id: match key_id {
            Some(id) => "admin-validate-"@ + provider + "-"@ + id + "-"@ + decimal_int(
                millis as int,
            ),
            None => "admin-test-"@ + provider + "-"@ + decimal_int(millis as int),
        },
        timeout_seconds: if key_id is None {
            timeout
        } else if timeout < 5 {
            5
        } else if timeout > 60 {
            60
        } else {
            timeout
        },
        candidates: candidates_of(config, disabled, hub, provider, Some(api_key), key_id),
        skipped: Seq::empty(),
    }
}

/// Whether a result is what the beginning of a test of a provider gives, where
/// acquiring a key gave `key` and left the hub in the middle state.
pub open spec fn begins_test(
    r: Result<KeyTrial, Json>,
    config: Config,
    disabled: Seq<(String, Vec<String>)>,
    provider: Seq<char>,
    key: GatewayResult<String>,
    middle: HubView,
    after: HubView,
    now: u64,
    millis: i64,
) -> bool {
    match key {
        Err(e) => after == middle && (r matches Err(j) && j@ == refusal(
            "No available key: "@ + message_of(e),
        )),
        Ok(k) => {
            &&& after == middle.reserved(provider, k@, now)
            &&& if middle.can_reserve(provider, k@, now) {
                r matches Ok(t) && t@ == fresh_trial(
                    config,
                    disabled,
                    after,
                    provider,
                    None,
                    k@,
                    millis,
                )
            } else {
                r matches Err(j) && j@ == refusal("Selected key is no longer available"@)
            }
        },
    }
}

/// Begins a test of a provider: takes a key of it and reserves a request.
pub fn admin_provider_test(
    config: &Config,
    registered: &Vec<String>,
    keyhub: &mut KeyHub,
    counter: &mut RoundRobin,
    disabled: &DisabledModels,
    provider_name: &str,
) -> (r: Result<KeyTrial, Json>)
    requires
        old(keyhub).wf(),
    ensures
        final(keyhub).wf(),
        !views(registered@).contains(provider_name@) ==> {
            &&& final(keyhub)@ == old(keyhub)@
            &&& *final(counter) == *old(counter)
            &&& r matches Err(j) && j@ == refusal(provider_missing(provider_name@))
        },
        views(registered@).contains(provider_name@) ==> exists|
            key: GatewayResult<String>,
            middle: HubView,
            now: u64,
            millis: i64,
        |
            {
                &&& acquires(
                    old(keyhub)@,
                    *old(counter),
                    provider_name@,
                    key,
                    middle,
                    *final(counter),
                )
                &&& #[trigger] begins_test(
                    r,
                    *config,
                    disabled@,
                    provider_name@,
                    key,
                    middle,
                    final(keyhub)@,
                    now,
                    millis,
                )
            },
{
    if !list_has(registered, provider_name) {
        return Err(refusal_to_json(concat3("Provider '", provider_name, "' not found").as_str()));
    }
    let acquired = keyhub.acquire_key(provider_name, counter);
    let ghost key = acquired;
    let ghost middle = keyhub@;
    let api_key = match acquired {
        Ok(k) => k,
        Err(e) => {
            let r: Result<KeyTrial, Json> = Err(
                refusal_to_json(concat2("No available key: ", e.to_string().as_str()).as_str()),
            );
            assert(begins_test(
                r,
                *config,
                disabled@,
                provider_name@,
                key,
                middle,
                keyhub@,
                0,
                0,
            ));
            return r;
        },
    };
    let reserved = keyhub.reserve_key(provider_name, api_key.as_str());
    let ghost now = choose|now: u64|
        reserved == middle.can_reserve(provider_name@, api_key@, now) && keyhub@
            == #[trigger] middle.reserved(provider_name@, api_key@, now);
    if !reserved {
        let r: Result<KeyTrial, Json> = Err(refusal_to_json("Selected key is no longer available"));
        assert(begins_test(
            r,
            *config,
            disabled@,
            provider_name@,
            key,
            middle,
            keyhub@,
            now,
            0,
        ));
        return r;
    }
    let candidates = admin_test_model_candidates(
        config,
        disabled,
        keyhub,
        provider_name,
        Some(api_key.as_str()),
        None,
    );
    let millis = now_millis();
    let mut request_id = concat3("admin-test-", provider_name, "-");
    request_id.push_str(i64_text(millis).as_str());
    let trial = KeyTrial {
        provider: provider_name.to_owned(),
        key_id: None,
        api_key,
        request_id,
        timeout_seconds: timeout_of(config, provider_name),
        candidates,
        skipped: Vec::new(),
    };
    assert(trial@.skipped =~= Seq::<SkippedView>::empty());
    let r: Result<KeyTrial, Json> = Ok(trial);
    assert(begins_test(
        r,
        *config,
        disabled@,
        provider_name@,
        key,
        middle,
        keyhub@,
        now,
        millis,
    ));
    r
}

/// Begins the validation of one key of a provider, whatever its state is.
pub fn admin_provider_key_validate(
    config: &Config,
    registered: &Vec<String>,
    keyhub: &KeyHub,
    disabled: &DisabledModels,
    provider_name: &str,
    key_id: &str,
) -> (r: Result<KeyTrial, Json>)
    requires
        keyhub.wf(),
    ensures
        if !views(registered@).contains(provider_name@) {
            r matches Err(j) && j@ == key_refusal(
                provider_name@,
                key_id@,
                provider_missing(provider_name@),
            )
        } else if !keyhub@.pools.contains_key(provider_name@) {
            r matches Err(j) && j@ == key_refusal(
                provider_name@,
                key_id@,
                "Provider not found: "@ + provider_name@,
            )
        } else {
            match id_index(keyhub@.pools[provider_name@].keys, key_id@, 0) {
                None => r matches Err(j) && j@ == key_refusal(
                    provider_name@,
                    key_id@,
                    "Invalid request: "@ + ("Key id not found: "@ + key_id@),
                ),
                Some(i) => exists|millis: i64|
                    r matches Ok(t) && t@ == #[trigger] fresh_trial(
                        *config,
                        disabled@,
                        keyhub@,
                        provider_name@,
                        Some(key_id@),
                        keyhub@.pools[provider_name@].keys[i].key,
                        millis,
                    ),
            }
        },
{
    if !list_has(registered, provider_name) {
        return Err(
            key_refusal_to_json(
                provider_name,
                key_id,
                concat3("Provider '", provider_name, "' not found").as_str(),
            ),
        );
    }
    let api_key = match keyhub.key_by_id(provider_name, key_id) {
        Ok(k) => k,
        Err(e) => {
            return Err(key_refusal_to_json(provider_name, key_id, e.to_string().as_str()));
        },
    };
    let timeout = timeout_of(config, provider_name);
    let candidates = admin_test_model_candidates(
        config,
        disabled,
        keyhub,
        provider_name,
        Some(api_key.as_str()),
        Some(key_id),
    );
    let millis = now_millis();
    let mut request_id = concat3("admin-validate-", provider_name, "-");
    request_id.push_str(key_id);
    request_id.push_str("-");
    request_id.push_str(i64_text(millis).as_str());
    let trial = KeyTrial {
        provider: provider_name.to_owned(),
        key_id: Some(key_id.to_owned()),
        api_key,
        request_id,
        timeout_seconds: if timeout < 5 {
            5
        } else if timeout > 60 {
            60
        } else {
            timeout
        },
        candidates,
        skipped: Vec::new(),
    };
    assert(trial@.skipped =~= Seq::<SkippedView>::empty());
    assert(trial@ == fresh_trial(
        *config,
        disabled@,
        keyhub@,
        provider_name@,
        Some(key_id@),
        api_key@,
        millis,
    ));
    Ok(trial)
}

// ---------------------------------------------------------------- laws
/// Every model that is tried is named, is not switched off and is tried once.
pub proof fn trials_are_of_enabled_models(
    config: Config,
    disabled: Seq<(String, Vec<String>)>,
    hub: HubView,
    provider: Seq<char>,
    key_id: Option<Seq<char>>,
    api_key: Seq<char>,
    millis: i64,
    i: int,
)
    requires
        0 <= i < fresh_trial(config, disabled, hub, provider, key_id, api_key, millis).candidates.len(),
    ensures
        ({
            let tried = fresh_trial(config, disabled, hub, provider, key_id, api_key, millis).candidates;
            &&& !is_blank(tried[i])
            &&& !is_disabled(disabled, provider, tried[i])
            &&& forall|j: int| 0 <= j < tried.len() && j != i ==> tried[j] != tried[i]
        }),
{
    let by_id = match key_id {
        Some(id) => models_of_id(hub, provider, id),
        None => Seq::empty(),
    };
    let all = by_id + models_of_key(hub, provider, api_key)
        + health_check_of(config, provider);
    let off = disabled_of(disabled, provider);
    let p = can_be_tried(off);
    let usable = kept(all, p);
    kept_satisfies(all, p);
    firsts_are_distinct(usable);
    let tried = fresh_trial(config, disabled, hub, provider, key_id, api_key, millis).candidates;
    assert(tried == firsts(usable));
    assert(tried.contains(tried[i]));
    assert(usable.contains(tried[i]));
    let k = choose|k: int| 0 <= k < usable.len() && usable[k] == tried[i];
    assert(p(usable[k]));
}

/// An error that says nothing of the key leaves every key as it is.
pub proof fn inconclusive_errors_leave_keys_alone(
    trial: TrialView,
    after: TrialView,
    hub: HubView,
    hub_after: HubView,
    e: GatewayError,
    step: TrialStep,
    at: Moment,
    moment: Moment,
    now: u64,
    then: u64,
)
    requires
        steps(trial, after, hub, hub_after, Err(e), step, at, moment, now, then),
        !blames_key(e),
    ensures
        hub_after == hub,
{
}

/// A trial ends: each answer either ends it or leaves one model less to try.
pub proof fn trials_end(
    trial: TrialView,
    after: TrialView,
    hub: HubView,
    hub_after: HubView,
    result: GatewayResult<(ChatResponse, u64)>,
    step: TrialStep,
    at: Moment,
    moment: Moment,
    now: u64,
    then: u64,
)
    requires
        trial.goes_on(),
        steps(trial, after, hub, hub_after, result, step, at, moment, now, then),
    ensures
        step.reply is Some || after.candidates.len() - after.skipped.len()
            < trial.candidates.len() - trial.skipped.len(),
        after.skipped.len() <= after.candidates.len(),
{
}

} // verus!
