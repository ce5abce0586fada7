//! The analysis of recent attempts, by the gateway itself or by a model, and
//! requests that explain the adaptive routing.
use crate::adaptive::routing::AdaptiveScope;
use crate::api::admin::validation::{plain_request, user_request};
use crate::api::attempts::{
    analysis_prompt, AttemptAnalysisQuery, AttemptCategorySummary, AttemptDeploymentSummary,
    AttemptRoutingAnalysis, build_attempt_analysis_prompt, DeploymentView,
};
use crate::error::{GatewayResult, message_of};
use crate::identifiers::{is_random_uuid, new_uuid};
use crate::json::{
    get_in, group_json_views, int_json, items_view, Json, json_list, JsonView, num, Number,
    NumberView, ObjectBuilder, opt_int_json, opt_text_json, strings_json,
};
use crate::lists::{lookup, named_in};
use crate::metadata::rows::{attempt_views, AttemptView, RequestAttemptRow};
use crate::models::{ChatCompletionRequest, content_text, content_to_text, RequestView};
use crate::text::{concat2, str_of, views};
use vstd::prelude::*;

verus! {

// ---------------------------------------------------------------- JSON
/// An attempt as JSON.
pub open spec fn attempt_json(a: AttemptView) -> JsonView {
    JsonView::Object(
        seq![
            ("id"@, int_json(a.id as int)),
            ("request_id"@, JsonView::Text(a.request_id)),
            ("attempt_index"@, int_json(a.attempt_index as int)),
            ("provider"@, JsonView::Text(a.provider)),
            ("model_id"@, JsonView::Text(a.model_id)),
            ("key_id"@, JsonView::Text(a.key_id)),
            ("success"@, JsonView::Bool(a.success)),
            ("error_category"@, opt_text_json(a.error_category)),
            ("http_status"@, opt_int_json(a.http_status)),
            ("error_message"@, opt_text_json(a.error_message)),
            ("cooldown_seconds"@, opt_int_json(a.cooldown_seconds)),
            ("fallback"@, JsonView::Bool(a.fallback)),
            ("created_at"@, int_json(a.created_at as int)),
        ],
    )
}

/// Attempts as JSON.
pub open spec fn attempts_json(attempts: Seq<AttemptView>) -> JsonView {
    JsonView::Array(attempts.map_values(|a: AttemptView| attempt_json(a)))
}

fn attempt_to_json(a: &RequestAttemptRow) -> (r: Json)
    ensures
        r@ == attempt_json(a@),
{
    let mut o = ObjectBuilder::new();
    o.put_int("id", a.id);
    o.put_text("request_id", a.request_id.as_str());
    o.put_int("attempt_index", a.attempt_index);
    o.put_text("provider", a.provider.as_str());
    o.put_text("model_id", a.model_id.as_str());
    o.put_text("key_id", a.key_id.as_str());
    o.put_bool("success", a.success);
    o.put_opt_text("error_category", str_of(&a.error_category));
    o.put_opt_int("http_status", a.http_status);
    o.put_opt_text("error_message", str_of(&a.error_message));
    o.put_opt_int("cooldown_seconds", a.cooldown_seconds);
    o.put_bool("fallback", a.fallback);
    o.put_int("created_at", a.created_at);
    assert(o@ =~= attempt_json(a@)->Object_0);
    o.done()
}

fn attempts_to_json(attempts: &Vec<RequestAttemptRow>) -> (r: Json)
    ensures
        r@ == attempts_json(attempt_views(attempts@)),
{
    let describe = |a: &RequestAttemptRow| -> (j: Json)
        ensures
            j@ == attempt_json(a@),
        { attempt_to_json(a) };
    let r = json_list(attempts, describe, Ghost(|a: RequestAttemptRow| attempt_json(a@)));
    assert(r@->Array_0 =~= attempts_json(attempt_views(attempts@))->Array_0);
    r
}

/// The recent attempts.
pub open spec fn attempts_answer(attempts: Seq<AttemptView>, limit: i64) -> JsonView {
    JsonView::Object(
        seq![
            ("attempts"@, attempts_json(attempts)),
            ("total"@, num(attempts.len() as u64)),
            ("limit"@, int_json(limit as int)),
        ],
    )
}

/// The recent attempts.
pub fn admin_metadata_attempts(attempts: &Vec<RequestAttemptRow>, limit: i64) -> (r: Json)
    ensures
        r@ == attempts_answer(attempt_views(attempts@), limit),
{
    let mut o = ObjectBuilder::new();
    o.put("attempts", attempts_to_json(attempts));
    o.put_num("total", attempts.len() as u64);
    o.put_int("limit", limit);
    assert(o@ =~= attempts_answer(attempt_views(attempts@), limit)->Object_0);
    o.done()
}

/// A kind of error with its count, as JSON.
pub open spec fn category_json(c: AttemptCategorySummary) -> JsonView {
    JsonView::Object(
        seq![("category"@, JsonView::Text(c.category@)), ("count"@, num(c.count as u64))],
    )
}

/// A deployment with its counts, as JSON.
pub open spec fn deployment_json(d: DeploymentView) -> JsonView {
    JsonView::Object(
        seq![
            ("deployment"@, JsonView::Text(d.deployment)),
            ("provider"@, JsonView::Text(d.provider)),
            ("model_id"@, JsonView::Text(d.model_id)),
            ("key_id"@, JsonView::Text(d.key_id)),
            ("attempts"@, num(d.attempts as u64)),
            ("failures"@, num(d.failures as u64)),
            ("last_error_category"@, opt_text_json(d.last_error_category)),
            ("last_http_status"@, opt_int_json(d.last_http_status)),
        ],
    )
}

/// An analysis as JSON.
pub open spec fn analysis_json(a: AttemptRoutingAnalysis) -> JsonView {
    JsonView::Object(
        seq![
            ("total_attempts"@, num(a.total_attempts as u64)),
            ("successful_attempts"@, num(a.successful_attempts as u64)),
            ("failed_attempts"@, num(a.failed_attempts as u64)),
            ("fallback_attempts"@, num(a.fallback_attempts as u64)),
            (
                "top_error_categories"@,
                JsonView::Array(
                    a.top_error_categories@.map_values(
                        |c: AttemptCategorySummary| category_json(c),
                    ),
                ),
            ),
            (
                "hot_deployments"@,
                JsonView::Array(
                    a.hot_deployments@.map_values(
                        |d: AttemptDeploymentSummary| deployment_json(d@),
                    ),
                ),
            ),
            ("recommendations"@, strings_json(views(a.recommendations@))),
        ],
    )
}

fn category_to_json(c: &AttemptCategorySummary) -> (r: Json)
    ensures
        r@ == category_json(*c),
{
    let mut o = ObjectBuilder::new();
    o.put_text("category", c.category.as_str());
    o.put_num("count", c.count as u64);
    assert(o@ =~= category_json(*c)->Object_0);
    o.done()
}

fn deployment_to_json(d: &AttemptDeploymentSummary) -> (r: Json)
    ensures
        r@ == deployment_json(d@),
{
    let mut o = ObjectBuilder::new();
    o.put_text("deployment", d.deployment.as_str());
    o.put_text("provider", d.provider.as_str());
    o.put_text("model_id", d.model_id.as_str());
    o.put_text("key_id", d.key_id.as_str());
    o.put_num("attempts", d.attempts as u64);
    o.put_num("failures", d.failures as u64);
    o.put_opt_text("last_error_category", str_of(&d.last_error_category));
    o.put_opt_int("last_http_status", d.last_http_status);
    assert(o@ =~= deployment_json(d@)->Object_0);
    o.done()
}

/// An analysis as JSON.
pub fn analysis_to_json(a: &AttemptRoutingAnalysis) -> (r: Json)
    ensures
        r@ == analysis_json(*a),
{
    let ghost goal = analysis_json(*a);
    let describe_category = |c: &AttemptCategorySummary| -> (j: Json)
        ensures
            j@ == category_json(*c),
        { category_to_json(c) };
    let categories = json_list(
        &a.top_error_categories,
        describe_category,
        Ghost(|c: AttemptCategorySummary| category_json(c)),
    );
    assert(categories@->Array_0 =~= goal->Object_0[4].1->Array_0);
    let describe_deployment = |d: &AttemptDeploymentSummary| -> (j: Json)
        ensures
            j@ == deployment_json(d@),
        { deployment_to_json(d) };
    let deployments = json_list(
        &a.hot_deployments,
        describe_deployment,
        Ghost(|d: AttemptDeploymentSummary| deployment_json(d@)),
    );
    assert(deployments@->Array_0 =~= goal->Object_0[5].1->Array_0);
    let mut o = ObjectBuilder::new();
    o.put_num("total_attempts", a.total_attempts as u64);
    o.put_num("successful_attempts", a.successful_attempts as u64);
    o.put_num("failed_attempts", a.failed_attempts as u64);
    o.put_num("fallback_attempts", a.fallback_attempts as u64);
    o.put("top_error_categories", categories);
    o.put("hot_deployments", deployments);
    o.put_strings("recommendations", &a.recommendations);
    assert(o@ =~= goal->Object_0);
    o.done()
}

// ---------------------------------------------------------------- analysis by a model
/// The model that analyzes attempts: the one that is asked for, else `chat`.
pub open spec fn analyzing_model(query: AttemptAnalysisQuery) -> Seq<char> {
    match query.model {
        Some(m) => m@,
        None => "chat"@,
    }
}

/// The request to analyze attempts, under a fresh identifier.
pub open spec fn analysis_request_of(
    model: Seq<char>,
    attempts: Seq<AttemptView>,
    limit: i64,
    id: Seq<char>,
) -> RequestView {
    RequestView {
        temperature: Some(NumberView::Float("0.1"@)),
        max_tokens: Some(700u32),
        user: Some("admin-log-analysis"@),
        request_id: Some("admin-log-analysis-"@ + id),
        agent_name: Some("admin"@),
        ..plain_request(model, analysis_prompt(attempts, limit))
    }
}

/// The request to analyze attempts.
pub fn analysis_request(
    query: &AttemptAnalysisQuery,
    attempts: &Vec<RequestAttemptRow>,
    limit: i64,
) -> (r: ChatCompletionRequest)
    ensures
        exists|id: Seq<char>|
            is_random_uuid(id) && r@ == #[trigger] analysis_request_of(
                analyzing_model(*query),
                attempt_views(attempts@),
                limit,
                id,
            ),
{
    let prompt = build_attempt_analysis_prompt(attempts.as_slice(), limit);
    let mut r = match &query.model {
        Some(m) => user_request(m.as_str(), prompt.as_str()),
        None => user_request("chat", prompt.as_str()),
    };
    let id = new_uuid();
    r.temperature = Some(Number::Float("0.1".to_owned()));
    r.max_tokens = Some(700);
    r.user = Some("admin-log-analysis".to_owned());
    r.request_id = Some(concat2("admin-log-analysis-", id.as_str()));
    r.agent_name = Some("admin".to_owned());
    assert(r@ == analysis_request_of(
        analyzing_model(*query),
        attempt_views(attempts@),
        limit,
        id@,
    ));
    r
}

/// The text of the first choice of an answer; none where a part of the way to it
/// is missing.
pub open spec fn answered_text(body: JsonView) -> Seq<char> {
    let content = match body.get("choices"@) {
        Some(choices) => match choices.item(0) {
            Some(choice) => get_in(choice.get("message"@), "content"@),
            None => None,
        },
        None => None,
    };
    content_text(
        match content {
            Some(c) => c,
            None => JsonView::Null,
        },
    )
}

fn text_answered(body: &Json) -> (r: String)
    ensures
        r@ == answered_text(body@),
{
    let nothing = Json::Null;
    let content = match body.get("choices") {
        Some(choices) => match choices.item(0) {
            Some(choice) => match choice.get("message") {
                Some(message) => message.get("content"),
                None => None,
            },
            None => None,
        },
        None => None,
    };
    match content {
        Some(c) => content_to_text(c),
        None => content_to_text(&nothing),
    }
}

/// How attempts are analyzed: by the gateway alone, or by a model too, with what
/// it answered.
#[derive(Debug)]
pub enum ModelAnalysis {
    NotAsked,
    Asked { model: String, answer: GatewayResult<Json> },
}

/// The beginning of the answer to an analysis.
pub open spec fn analysis_head(
    analysis: AttemptRoutingAnalysis,
    attempts: Seq<AttemptView>,
    limit: i64,
) -> Seq<(Seq<char>, JsonView)> {
    seq![
        ("analysis"@, analysis_json(analysis)),
        ("attempts"@, attempts_json(attempts)),
        ("total"@, num(attempts.len() as u64)),
        ("limit"@, int_json(limit as int)),
    ]
}

/// The answer to an analysis. A model that was asked costs quota, whatever it
/// answered.
pub open spec fn analysis_answer(
    analysis: AttemptRoutingAnalysis,
    attempts: Seq<AttemptView>,
    limit: i64,
    by_model: ModelAnalysis,
) -> JsonView {
    JsonView::Object(
        analysis_head(analysis, attempts, limit) + match by_model {
            ModelAnalysis::NotAsked => seq![
                ("model_analysis"@, JsonView::Null),
                ("model_call_costs_quota"@, JsonView::Bool(false)),
            ],
            ModelAnalysis::Asked { model, answer } => match answer {
                Ok(body) => seq![
                    ("model_analysis"@, JsonView::Text(answered_text(body@))),
                    ("model"@, JsonView::Text(model@)),
                    ("model_call_costs_quota"@, JsonView::Bool(true)),
                ],
                Err(e) => seq![
                    ("model_analysis"@, JsonView::Null),
                    ("model"@, JsonView::Text(model@)),
                    ("model_call_costs_quota"@, JsonView::Bool(true)),
                    ("model_error"@, JsonView::Text(message_of(e))),
                ],
            },
        },
    )
}

/// The answer to an analysis.
pub fn admin_metadata_attempts_analyze(
    analysis: &AttemptRoutingAnalysis,
    attempts: &Vec<RequestAttemptRow>,
    limit: i64,
    by_model: &ModelAnalysis,
) -> (r: Json)
    ensures
        r@ == analysis_answer(*analysis, attempt_views(attempts@), limit, *by_model),
{
    let mut o = ObjectBuilder::new();
    o.put("analysis", analysis_to_json(analysis));
    o.put("attempts", attempts_to_json(attempts));
    o.put_num("total", attempts.len() as u64);
    o.put_int("limit", limit);
    match by_model {
        ModelAnalysis::NotAsked => {
            o.put("model_analysis", Json::Null);
            o.put_bool("model_call_costs_quota", false);
        },
        ModelAnalysis::Asked { model, answer } => match answer {
            Ok(body) => {
                o.put_text("model_analysis", text_answered(body).as_str());
                o.put_text("model", model.as_str());
                o.put_bool("model_call_costs_quota", true);
            },
            Err(e) => {
                o.put("model_analysis", Json::Null);
                o.put_text("model", model.as_str());
                o.put_bool("model_call_costs_quota", true);
                o.put_text("model_error", e.to_string().as_str());
            },
        },
    }
    assert(o@ =~= analysis_answer(
        *analysis,
        attempt_views(attempts@),
        limit,
        *by_model,
    )->Object_0);
    o.done()
}

/// The answer where the attempts cannot be read: an analysis of none, with the
/// reason where there is one.
pub open spec fn no_attempts_answer(
    error: Option<Seq<char>>,
    analysis: AttemptRoutingAnalysis,
) -> JsonView {
    JsonView::Object(
        (match error {
            Some(e) => seq![("error"@, JsonView::Text(e))],
            None => Seq::empty(),
        }) + seq![
            ("analysis"@, analysis_json(analysis)),
            ("attempts"@, JsonView::Array(Seq::empty())),
            ("total"@, num(0)),
            ("model_analysis"@, JsonView::Null),
        ],
    )
}

/// The answer where the attempts cannot be read.
pub fn unread_attempts(error: Option<&str>, analysis: &AttemptRoutingAnalysis) -> (r: Json)
    ensures
        r@ == no_attempts_answer(
            match error {
                Some(e) => Some(e@),
                None => None,
            },
            *analysis,
        ),
{
    broadcast use group_json_views;

    let ghost goal = no_attempts_answer(
        match error {
            Some(e) => Some(e@),
            None => None,
        },
        *analysis,
    );
    let none: Vec<Json> = Vec::new();
    assert(items_view(none@) =~= Seq::<JsonView>::empty());
    let mut o = ObjectBuilder::new();
    if let Some(e) = error {
        o.put_text("error", e);
    }
    o.put("analysis", analysis_to_json(analysis));
    o.put("attempts", Json::Array(none));
    o.put_num("total", 0);
    o.put("model_analysis", Json::Null);
    assert(o@ =~= goal->Object_0);
    o.done()
}

// ---------------------------------------------------------------- diagnostics
/// The value of a query under a name.
pub open spec fn query_text(query: Seq<(String, String)>, name: Seq<char>) -> Option<Seq<char>> {
    match named_in(query, name) {
        Some(v) => Some(v@),
        None => None,
    }
}

/// What a query asks the routing to be explained for: a provider before a group
/// before an agent, else anything.
pub fn diagnostics_scope(query: &Vec<(String, String)>) -> (r: AdaptiveScope)
    ensures
        match r {
            AdaptiveScope::Provider(p) => query_text(query@, "provider"@) == Some(p@),
            AdaptiveScope::ProviderGroup(g) => query_text(query@, "provider"@) is None
                && query_text(query@, "group"@) == Some(g@),
            AdaptiveScope::Agent(a) => query_text(query@, "provider"@) is None && query_text(
                query@,
                "group"@,
            ) is None && query_text(query@, "agent"@) == Some(a@),
            AdaptiveScope::Auto => query_text(query@, "provider"@) is None && query_text(
                query@,
                "group"@,
            ) is None && query_text(query@, "agent"@) is None,
        },
{
    match lookup(query, "provider") {
        Some(p) => AdaptiveScope::Provider(p.clone()),
        None => match lookup(query, "group") {
            Some(g) => AdaptiveScope::ProviderGroup(g.clone()),
            None => match lookup(query, "agent") {
                Some(a) => AdaptiveScope::Agent(a.clone()),
                None => AdaptiveScope::Auto,
            },
        },
    }
}

/// The request that a query asks the routing to be explained for.
pub open spec fn diagnosed_request(query: Seq<(String, String)>) -> RequestView {
    RequestView {
        agent_name: query_text(query, "agent"@),
        ..plain_request(
            match query_text(query, "model"@) {
                Some(m) => m,
                None => "auto"@,
            },
            match query_text(query, "q"@) {
                Some(q) => q,
                None => "diagnose adaptive route"@,
            },
        )
    }
}

/// The request that a query asks the routing to be explained for.
pub fn diagnostics_request(query: &Vec<(String, String)>) -> (r: ChatCompletionRequest)
    ensures
        r@ == diagnosed_request(query@),
{
    let model = match lookup(query, "model") {
        Some(m) => m.clone(),
        None => "auto".to_owned(),
    };
    let content = match lookup(query, "q") {
        Some(q) => q.clone(),
        None => "diagnose adaptive route".to_owned(),
    };
    let mut r = user_request(model.as_str(), content.as_str());
    r.agent_name = match lookup(query, "agent") {
        Some(a) => Some(a.clone()),
        None => None,
    };
    r
}

} // verus!
