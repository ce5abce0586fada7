//! The models that the gateway shows: which are visible, how they fall into
//! families, and what is known of them.
use crate::api::attempts::larger_count_first;
use crate::config::{Config, ModelAlias};
use crate::json::{
    group_json_views, items_view, Json, json_list, JsonView, num, NumberView, ObjectBuilder,
    opt_bool_json, opt_int_json, strings_json,
};
use crate::keyhub::KeyHub;
use crate::keyhub::hub::serves_free;
use crate::lists::{
    collected, collected_all, collected_next, kept, kept_all, kept_next, kept_satisfies, lookup,
    named_in,
};
use crate::metadata::rows::ModelMetaRow;
use crate::models::{ModelInfo, opt_number};
use crate::sorting::{
    deduped, pair_order, pair_order_is_order, sort_and_dedup, sort_and_dedup_pairs, sort_stably,
    sorted, sorted_and_deduped, sorted_is_permutation, sorted_maps, sorted_set,
    sorted_set_is_increasing, strictly_ordered, text_order, text_pairs,
};
use crate::text::{
    before, before_irreflexive, comes_before, copy_opt, list_has, opt_view, same, strip_suffix,
    views,
};
use vstd::prelude::*;

verus! {

/// What a [`ModelInfo`] holds.
pub struct ModelInfoView {
    pub id: Seq<char>,
    pub object: Seq<char>,
    pub created: i64,
    pub owned_by: Seq<char>,
    pub provider: Option<Seq<char>>,
    pub context_window: Option<i64>,
    pub supports_vision: Option<bool>,
    pub supports_tools: Option<bool>,
    pub supports_reasoning: Option<bool>,
    pub pricing_prompt: Option<NumberView>,
    pub pricing_completion: Option<NumberView>,
}

impl View for ModelInfo {
    type V = ModelInfoView;

    open spec fn view(&self) -> ModelInfoView {
        ModelInfoView {
            id: self.id@,
            object: self.object@,
            created: self.created,
            owned_by: self.owned_by@,
            provider: opt_view(self.provider),
            context_window: self.context_window,
            supports_vision: self.supports_vision,
            supports_tools: self.supports_tools,
            supports_reasoning: self.supports_reasoning,
            pricing_prompt: opt_number(self.pricing_prompt),
            pricing_completion: opt_number(self.pricing_completion),
        }
    }
}

/// The views of some models.
pub open spec fn info_views(list: Seq<ModelInfo>) -> Seq<ModelInfoView> {
    list.map_values(|m: ModelInfo| m@)
}

impl ModelInfoView {
    /// The provider of a model: its own, else its owner.
    pub open spec fn served_by(self) -> Seq<char> {
        match self.provider {
            Some(p) => p,
            None => self.owned_by,
        }
    }
}

impl ModelInfo {
    /// The same model.
    pub fn copy(&self) -> (r: ModelInfo)
        ensures
            r@ == self@,
    {
        ModelInfo {
            id: self.id.clone(),
            object: self.object.clone(),
            created: self.created,
            owned_by: self.owned_by.clone(),
            provider: copy_opt(&self.provider),
            context_window: self.context_window,
            supports_vision: self.supports_vision,
            supports_tools: self.supports_tools,
            supports_reasoning: self.supports_reasoning,
            pricing_prompt: match &self.pricing_prompt {
                Some(n) => Some(n.copy()),
                None => None,
            },
            pricing_completion: match &self.pricing_completion {
                Some(n) => Some(n.copy()),
                None => None,
            },
        }
    }

    fn provider_name(&self) -> (r: &str)
        ensures
            r@ == self@.served_by(),
    {
        match &self.provider {
            Some(p) => p.as_str(),
            None => self.owned_by.as_str(),
        }
    }
}

// ---------------------------------------------------------------- families
/// The family of a model and its tier: what stands before a pricing suffix, and
/// the suffix; a model without one is the default of its own family.
pub open spec fn family_of(id: Seq<char>) -> (Seq<char>, Seq<char>) {
    if ":free"@.is_suffix_of(id) {
        (id.take(id.len() - ":free"@.len()), "free"@)
    } else if ":paid"@.is_suffix_of(id) {
        (id.take(id.len() - ":paid"@.len()), "paid"@)
    } else if ":extended"@.is_suffix_of(id) {
        (id.take(id.len() - ":extended"@.len()), "extended"@)
    } else {
        (id, "default"@)
    }
}

/// The family of a model and its tier.
pub fn model_family_id(model_id: &str) -> (r: (String, String))
    ensures
        (r.0@, r.1@) == family_of(model_id@),
{
    if let Some(base) = strip_suffix(model_id, ":free") {
        return (base, "free".to_owned());
    }
    if let Some(base) = strip_suffix(model_id, ":paid") {
        return (base, "paid".to_owned());
    }
    if let Some(base) = strip_suffix(model_id, ":extended") {
        return (base, "extended".to_owned());
    }
    (model_id.to_owned(), "default".to_owned())
}

/// The families of some models, each once, in order.
pub open spec fn family_names(models: Seq<ModelInfoView>) -> Seq<Seq<char>> {
    sorted_set(models.map_values(|m: ModelInfoView| family_of(m.id).0))
}

/// Whether a model is of a family.
pub open spec fn in_family(family: Seq<char>) -> spec_fn(ModelInfoView) -> bool {
    |m: ModelInfoView| family_of(m.id).0 == family
}

/// The models of a family, in the order in which they are listed.
pub open spec fn variants_of(models: Seq<ModelInfoView>, family: Seq<char>) -> Seq<ModelInfoView> {
    kept(models, in_family(family))
}

/// The rank of a tier: the default first, then free, extended and paid.
pub open spec fn tier_rank(tier: Seq<char>) -> int {
    if tier == "default"@ {
        0
    } else if tier == "free"@ {
        1
    } else if tier == "extended"@ {
        2
    } else if tier == "paid"@ {
        3
    } else {
        4
    }
}

/// Whether one string precedes another, or they are equal and `rest` decides.
pub open spec fn before_or(a: Seq<char>, b: Seq<char>, rest: bool) -> bool {
    before(a, b) || (a == b && rest)
}

/// Which variant of a family is preferred: by tier, then by provider, by
/// identifier and by owner.
pub open spec fn preferred_variant() -> spec_fn(ModelInfoView, ModelInfoView) -> bool {
    |a: ModelInfoView, b: ModelInfoView|
        {
            let ra = tier_rank(family_of(a.id).1);
            let rb = tier_rank(family_of(b.id).1);
            ra < rb || (ra == rb && before_or(
                a.served_by(),
                b.served_by(),
                before_or(a.id, b.id, before(a.owned_by, b.owned_by)),
            ))
        }
}

/// A family as one model: its preferred variant, under the family's name.
pub open spec fn merged_family(models: Seq<ModelInfoView>, family: Seq<char>) -> ModelInfoView {
    ModelInfoView {
        id: family,
        ..sorted(variants_of(models, family), preferred_variant())[0]
    }
}

/// Every family of some models as one model, in order.
pub open spec fn merged_families(models: Seq<ModelInfoView>) -> Seq<ModelInfoView> {
    family_names(models).map_values(|f: Seq<char>| merged_family(models, f))
}

fn rank_of_tier(tier: &str) -> (r: u8)
    ensures
        r == tier_rank(tier@),
{
    if same(tier, "default") {
        0
    } else if same(tier, "free") {
        1
    } else if same(tier, "extended") {
        2
    } else if same(tier, "paid") {
        3
    } else {
        4
    }
}

fn prefer_variant(a: &ModelInfo, b: &ModelInfo) -> (r: bool)
    ensures
        r == preferred_variant()(a@, b@),
{
    let (_, ta) = model_family_id(a.id.as_str());
    let (_, tb) = model_family_id(b.id.as_str());
    let ra = rank_of_tier(ta.as_str());
    let rb = rank_of_tier(tb.as_str());
    if ra != rb {
        return ra < rb;
    }
    let pa = a.provider_name();
    let pb = b.provider_name();
    if !same(pa, pb) {
        return comes_before(pa, pb);
    }
    proof {
        before_irreflexive(pa@);
        before_irreflexive(a.id@);
    }
    if !same(a.id.as_str(), b.id.as_str()) {
        return comes_before(a.id.as_str(), b.id.as_str());
    }
    comes_before(a.owned_by.as_str(), b.owned_by.as_str())
}

fn names_of_families(models: &Vec<ModelInfo>) -> (r: Vec<String>)
    ensures
        views(r@) == family_names(info_views(models@)),
{
    let mut list: Vec<String> = Vec::new();
    let mut i: usize = 0;
    while i < models.len()
        invariant
            i <= models@.len(),
            list@.len() == i,
            forall|j: int| 0 <= j < i ==> (#[trigger] list@[j])@ == family_of(models@[j]@.id).0,
        decreases models@.len() - i,
    {
        let (family, _) = model_family_id(models[i].id.as_str());
        list.push(family);
        i += 1;
    }
    assert(views(list@) =~= info_views(models@).map_values(
        |m: ModelInfoView| family_of(m.id).0,
    ));
    sort_and_dedup(list)
}

fn family_members(models: &Vec<ModelInfo>, family: &str) -> (r: Vec<ModelInfo>)
    ensures
        info_views(r@) == variants_of(info_views(models@), family@),
{
    let ghost all = info_views(models@);
    let ghost p = in_family(family@);
    let mut r: Vec<ModelInfo> = Vec::new();
    let mut i: usize = 0;
    proof {
        kept_all(all, p);
        assert(info_views(r@) =~= kept(all.take(0), p));
    }
    while i < models.len()
        invariant
            i <= models@.len(),
            all == info_views(models@),
            p == in_family(family@),
            info_views(r@) == kept(all.take(i as int), p),
        decreases models@.len() - i,
    {
        proof {
            kept_next(all, p, i as int);
            assert(all[i as int] == models@[i as int]@);
        }
        let (here, _) = model_family_id(models[i].id.as_str());
        if same(here.as_str(), family) {
            let ghost so_far = info_views(r@);
            let m = models[i].copy();
            r.push(m);
            assert(info_views(r@) =~= so_far.push(m@));
        }
        i += 1;
    }
    r
}

proof fn families_have_variants(models: Seq<ModelInfoView>, family: Seq<char>)
    requires
        family_names(models).contains(family),
    ensures
        variants_of(models, family).len() > 0,
{
    let names = models.map_values(|m: ModelInfoView| family_of(m.id).0);
    sorted_set_is_increasing(names);
    let k = choose|k: int| 0 <= k < names.len() && names[k] == family;
    kept_satisfies(models, in_family(family));
    assert(models.contains(models[k]));
    assert(variants_of(models, family).contains(models[k]));
}

fn sort_variants(list: Vec<ModelInfo>) -> (r: Vec<ModelInfo>)
    ensures
        info_views(r@) == sorted(info_views(list@), preferred_variant()),
{
    let ghost precedes = |a: ModelInfo, b: ModelInfo| preferred_variant()(a@, b@);
    let comes = |a: &ModelInfo, b: &ModelInfo| -> (c: bool)
        ensures
            c == preferred_variant()(a@, b@),
        { prefer_variant(a, b) };
    let ghost given = list@;
    let r = sort_stably(list, comes, Ghost(precedes));
    proof {
        sorted_maps(given, precedes, |m: ModelInfo| m@, preferred_variant());
    }
    r
}

/// Shows every family as one model: its preferred variant, under the family's
/// name.
pub fn merge_model_families(models: &Vec<ModelInfo>) -> (r: Vec<ModelInfo>)
    ensures
        info_views(r@) == merged_families(info_views(models@)),
{
    let ghost all = info_views(models@);
    let names = names_of_families(models);
    let mut r: Vec<ModelInfo> = Vec::new();
    let mut i: usize = 0;
    while i < names.len()
        invariant
            i <= names@.len(),
            all == info_views(models@),
            views(names@) == family_names(all),
            r@.len() == i,
            forall|j: int| 0 <= j < i ==> (#[trigger] r@[j])@ == merged_family(all, names@[j]@),
        decreases names@.len() - i,
    {
        let ghost family = names@[i as int]@;
        proof {
            assert(views(names@)[i as int] == family);
            assert(family_names(all).contains(family));
            families_have_variants(all, family);
            sorted_is_permutation(
                variants_of(all, family),
                preferred_variant(),
            );
        }
        let variants = sort_variants(family_members(models, names[i].as_str()));
        proof {
            let ordered = sorted(variants_of(all, family), preferred_variant());
            assert(ordered.to_multiset().len() == ordered.len()) by {
                ordered.to_multiset_ensures();
            }
            variants_of(all, family).to_multiset_ensures();
            assert(variants@.len() == ordered.len());
            assert(info_views(variants@)[0] == variants@[0]@);
        }
        let mut chosen = variants[0].copy();
        chosen.id = names[i].clone();
        r.push(chosen);
        i += 1;
    }
    assert(info_views(r@) =~= merged_families(all));
    r
}

/// A merged list shows every family once, under its own name, in order.
pub proof fn every_family_is_shown_once(models: Seq<ModelInfoView>)
    ensures
        ({
            let ids = merged_families(models).map_values(|m: ModelInfoView| m.id);
            &&& strictly_ordered(ids, text_order())
            &&& forall|f: Seq<char>| #[trigger]
                ids.contains(f) <==> models.map_values(
                    |m: ModelInfoView| family_of(m.id).0,
                ).contains(f)
        }),
{
    let ids = merged_families(models).map_values(|m: ModelInfoView| m.id);
    assert(ids =~= family_names(models));
    sorted_set_is_increasing(models.map_values(|m: ModelInfoView| family_of(m.id).0));
}

// ---------------------------------------------------------------- families as JSON
/// A number of any kind, or `null`.
pub open spec fn price_json(n: Option<NumberView>) -> JsonView {
    match n {
        Some(v) => JsonView::Number(v),
        None => JsonView::Null,
    }
}

/// A variant of a family as JSON.
pub open spec fn variant_json(m: ModelInfoView) -> JsonView {
    JsonView::Object(
        seq![
            ("id"@, JsonView::Text(m.id)),
            ("object"@, JsonView::Text(m.object)),
            ("provider"@, JsonView::Text(m.served_by())),
            ("owned_by"@, JsonView::Text(m.owned_by)),
            ("tier"@, JsonView::Text(family_of(m.id).1)),
            ("context_window"@, opt_int_json(m.context_window)),
            ("supports_vision"@, opt_bool_json(m.supports_vision)),
            ("supports_tools"@, opt_bool_json(m.supports_tools)),
            ("supports_reasoning"@, opt_bool_json(m.supports_reasoning)),
            ("pricing_prompt"@, price_json(m.pricing_prompt)),
            ("pricing_completion"@, price_json(m.pricing_completion)),
        ],
    )
}

/// By provider, then by identifier.
pub open spec fn by_provider_and_id() -> spec_fn(ModelInfoView, ModelInfoView) -> bool {
    |a: ModelInfoView, b: ModelInfoView|
        before_or(a.served_by(), b.served_by(), before(a.id, b.id))
}

/// Whether a capability is there: known of any variant, known of none, or not
/// known at all.
pub open spec fn any_known(known: Seq<bool>) -> Option<bool> {
    if known.contains(true) {
        Some(true)
    } else if known.len() > 0 {
        Some(false)
    } else {
        None
    }
}

/// The largest of some numbers.
pub open spec fn largest(known: Seq<i64>) -> Option<i64>
    decreases known.len(),
{
    if known.len() == 0 {
        None
    } else {
        match largest(known.drop_last()) {
            Some(m) => if m > known.last() {
                Some(m)
            } else {
                Some(known.last())
            },
            None => Some(known.last()),
        }
    }
}

/// The providers of some variants, each once, in order.
pub open spec fn providers_of(variants: Seq<ModelInfoView>) -> Seq<Seq<char>> {
    sorted_set(variants.map_values(|m: ModelInfoView| m.served_by()))
}

/// The tiers of some variants, each once, in order.
pub open spec fn tiers_of(variants: Seq<ModelInfoView>) -> Seq<Seq<char>> {
    sorted_set(variants.map_values(|m: ModelInfoView| family_of(m.id).1))
}

/// A family as JSON.
pub open spec fn family_json(models: Seq<ModelInfoView>, family: Seq<char>) -> JsonView {
    let variants = sorted(variants_of(models, family), by_provider_and_id());
    JsonView::Object(
        seq![
            ("id"@, JsonView::Text(family)),
            ("object"@, JsonView::Text("model_family"@)),
            ("variant_count"@, num(variants.len() as u64)),
            ("provider_count"@, num(providers_of(variants).len() as u64)),
            ("providers"@, strings_json(providers_of(variants))),
            ("tiers"@, strings_json(tiers_of(variants))),
            (
                "max_context_window"@,
                opt_int_json(
                    largest(collected(variants, |m: ModelInfoView| m.context_window)),
                ),
            ),
            (
                "supports_vision"@,
                opt_bool_json(
                    any_known(collected(variants, |m: ModelInfoView| m.supports_vision)),
                ),
            ),
            (
                "supports_tools"@,
                opt_bool_json(
                    any_known(collected(variants, |m: ModelInfoView| m.supports_tools)),
                ),
            ),
            (
                "supports_reasoning"@,
                opt_bool_json(
                    any_known(collected(variants, |m: ModelInfoView| m.supports_reasoning)),
                ),
            ),
            (
                "variants"@,
                JsonView::Array(variants.map_values(|m: ModelInfoView| variant_json(m))),
            ),
        ],
    )
}

/// The families of some models with the number of their variants: those with
/// more first, those alike in order of their names.
pub open spec fn ordered_families(models: Seq<ModelInfoView>) -> Seq<(Seq<char>, usize)> {
    sorted(
        family_names(models).map_values(
            |f: Seq<char>| (f, variants_of(models, f).len() as usize),
        ),
        larger_count_first(),
    )
}

/// Whether a family has variants of more than one provider.
pub open spec fn crosses_providers(models: Seq<ModelInfoView>) -> spec_fn(
    (Seq<char>, usize),
) -> bool {
    |f: (Seq<char>, usize)|
        providers_of(sorted(variants_of(models, f.0), by_provider_and_id())).len() > 1
}

/// Whether a family has more than one variant.
pub open spec fn has_variants() -> spec_fn((Seq<char>, usize)) -> bool {
    |f: (Seq<char>, usize)| f.1 > 1
}

/// The families of some models as JSON, with a summary.
pub open spec fn families_json(models: Seq<ModelInfoView>) -> JsonView {
    let families = ordered_families(models);
    JsonView::Object(
        seq![
            ("object"@, JsonView::Text("list"@)),
            (
                "summary"@,
                JsonView::Object(
                    seq![
                        ("total_models"@, num(models.len() as u64)),
                        ("total_families"@, num(families.len() as u64)),
                        (
                            "multi_variant_families"@,
                            num(kept(families, has_variants()).len() as u64),
                        ),
                        (
                            "cross_provider_families"@,
                            num(kept(families, crosses_providers(models)).len() as u64),
                        ),
                        (
                            "grouping_rule"@,
                            JsonView::Text("strip_openrouter_pricing_suffix_only"@),
                        ),
                    ],
                ),
            ),
            (
                "families"@,
                JsonView::Array(
                    families.map_values(|f: (Seq<char>, usize)| family_json(models, f.0)),
                ),
            ),
        ],
    )
}

fn model_variant_json(model: &ModelInfo) -> (r: Json)
    ensures
        r@ == variant_json(model@),
{
    let (_, tier) = model_family_id(model.id.as_str());
    let mut o = ObjectBuilder::new();
    o.put_text("id", model.id.as_str());
    o.put_text("object", model.object.as_str());
    o.put_text("provider", model.provider_name());
    o.put_text("owned_by", model.owned_by.as_str());
    o.put_text("tier", tier.as_str());
    o.put_opt_int("context_window", model.context_window);
    o.put_opt_bool("supports_vision", model.supports_vision);
    o.put_opt_bool("supports_tools", model.supports_tools);
    o.put_opt_bool("supports_reasoning", model.supports_reasoning);
    o.put_opt_number("pricing_prompt", &model.pricing_prompt);
    o.put_opt_number("pricing_completion", &model.pricing_completion);
    assert(o@ =~= variant_json(model@)->Object_0);
    o.done()
}

fn sort_for_family(list: Vec<ModelInfo>) -> (r: Vec<ModelInfo>)
    ensures
        info_views(r@) == sorted(info_views(list@), by_provider_and_id()),
{
    let ghost precedes = |a: ModelInfo, b: ModelInfo| by_provider_and_id()(a@, b@);
    let comes = |a: &ModelInfo, b: &ModelInfo| -> (c: bool)
        ensures
            c == by_provider_and_id()(a@, b@),
        {
            let pa = a.provider_name();
            let pb = b.provider_name();
            comes_before(pa, pb) || (same(pa, pb) && comes_before(a.id.as_str(), b.id.as_str()))
        };
    let ghost given = list@;
    let r = sort_stably(list, comes, Ghost(precedes));
    proof {
        sorted_maps(given, precedes, |m: ModelInfo| m@, by_provider_and_id());
    }
    r
}

/// What is asked of the variants of a family.
pub enum Capability {
    Vision,
    Tools,
    Reasoning,
}

/// What a model says of a capability.
pub open spec fn capability_of(m: ModelInfoView, c: Capability) -> Option<bool> {
    match c {
        Capability::Vision => m.supports_vision,
        Capability::Tools => m.supports_tools,
        Capability::Reasoning => m.supports_reasoning,
    }
}

fn family_capability(variants: &Vec<ModelInfo>, c: Capability) -> (r: Option<bool>)
    ensures
        r == any_known(
            collected(info_views(variants@), |m: ModelInfoView| capability_of(m, c)),
        ),
{
    let ghost all = info_views(variants@);
    let ghost f = |m: ModelInfoView| capability_of(m, c);
    let mut known = false;
    let mut yes = false;
    let mut i: usize = 0;
    proof {
        collected_all(all, f);
    }
    while i < variants.len()
        invariant
            i <= variants@.len(),
            all == info_views(variants@),
            f == (|m: ModelInfoView| capability_of(m, c)),
            known == (collected(all.take(i as int), f).len() > 0),
            yes == collected(all.take(i as int), f).contains(true),
        decreases variants@.len() - i,
    {
        let ghost so_far = collected(all.take(i as int), f);
        proof {
            collected_next(all, f, i as int);
            assert(all[i as int] == variants@[i as int]@);
        }
        let value = match c {
            Capability::Vision => variants[i].supports_vision,
            Capability::Tools => variants[i].supports_tools,
            Capability::Reasoning => variants[i].supports_reasoning,
        };
        if let Some(b) = value {
            known = true;
            proof {
                let next = so_far.push(b);
                if so_far.contains(true) {
                    let k = choose|k: int| 0 <= k < so_far.len() && so_far[k];
                    assert(next[k]);
                }
                assert(next[so_far.len() as int] == b);
                if next.contains(true) && !b {
                    let k = choose|k: int| 0 <= k < next.len() && next[k];
                    assert(so_far[k]);
                }
            }
            if b {
                yes = true;
            }
        }
        i += 1;
    }
    if yes {
        Some(true)
    } else if known {
        Some(false)
    } else {
        None
    }
}

fn family_context(variants: &Vec<ModelInfo>) -> (r: Option<i64>)
    ensures
        r == largest(
            collected(info_views(variants@), |m: ModelInfoView| m.context_window),
        ),
{
    let ghost all = info_views(variants@);
    let ghost f = |m: ModelInfoView| m.context_window;
    let mut r: Option<i64> = None;
    let mut i: usize = 0;
    proof {
        collected_all(all, f);
    }
    while i < variants.len()
        invariant
            i <= variants@.len(),
            all == info_views(variants@),
            f == (|m: ModelInfoView| m.context_window),
            r == largest(collected(all.take(i as int), f)),
        decreases variants@.len() - i,
    {
        let ghost so_far = collected(all.take(i as int), f);
        proof {
            collected_next(all, f, i as int);
            assert(all[i as int] == variants@[i as int]@);
        }
        if let Some(w) = variants[i].context_window {
            assert(so_far.push(w).drop_last() =~= so_far);
            r = match r {
                Some(m) => if m > w {
                    Some(m)
                } else {
                    Some(w)
                },
                None => Some(w),
            };
        }
        i += 1;
    }
    r
}

fn provider_list(variants: &Vec<ModelInfo>) -> (r: Vec<String>)
    ensures
        views(r@) == providers_of(info_views(variants@)),
{
    let mut list: Vec<String> = Vec::new();
    let mut i: usize = 0;
    while i < variants.len()
        invariant
            i <= variants@.len(),
            list@.len() == i,
            forall|j: int| 0 <= j < i ==> (#[trigger] list@[j])@ == variants@[j]@.served_by(),
        decreases variants@.len() - i,
    {
        list.push(variants[i].provider_name().to_owned());
        i += 1;
    }
    assert(views(list@) =~= info_views(variants@).map_values(|m: ModelInfoView| m.served_by()));
    sort_and_dedup(list)
}

fn tier_list(variants: &Vec<ModelInfo>) -> (r: Vec<String>)
    ensures
        views(r@) == tiers_of(info_views(variants@)),
{
    let mut list: Vec<String> = Vec::new();
    let mut i: usize = 0;
    while i < variants.len()
        invariant
            i <= variants@.len(),
            list@.len() == i,
            forall|j: int| 0 <= j < i ==> (#[trigger] list@[j])@ == family_of(variants@[j]@.id).1,
        decreases variants@.len() - i,
    {
        let (_, tier) = model_family_id(variants[i].id.as_str());
        list.push(tier);
        i += 1;
    }
    assert(views(list@) =~= info_views(variants@).map_values(
        |m: ModelInfoView| family_of(m.id).1,
    ));
    sort_and_dedup(list)
}

fn describe_family(models: &Vec<ModelInfo>, family: &str) -> (r: (Json, usize))
    ensures
        r.0@ == family_json(info_views(models@), family@),
        r.1 == providers_of(
            sorted(variants_of(info_views(models@), family@), by_provider_and_id()),
        ).len(),
{
    let ghost all = info_views(models@);
    let variants = sort_for_family(family_members(models, family));
    let ghost vs = info_views(variants@);
    assert(variants@.len() == vs.len());
    let providers = provider_list(&variants);
    assert(providers@.len() == providers_of(vs).len());
    let tiers = tier_list(&variants);
    let describe = |m: &ModelInfo| -> (j: Json)
        ensures
            j@ == variant_json(m@),
        { model_variant_json(m) };
    let list = json_list(&variants, describe, Ghost(|m: ModelInfo| variant_json(m@)));
    assert(variants@.map_values(|m: ModelInfo| variant_json(m@)) =~= vs.map_values(
        |m: ModelInfoView| variant_json(m),
    ));
    let mut o = ObjectBuilder::new();
    o.put_text("id", family);
    o.put_text("object", "model_family");
    o.put_num("variant_count", variants.len() as u64);
    o.put_num("provider_count", providers.len() as u64);
    o.put_strings("providers", &providers);
    o.put_strings("tiers", &tiers);
    o.put_opt_int("max_context_window", family_context(&variants));
    o.put_opt_bool("supports_vision", family_capability(&variants, Capability::Vision));
    o.put_opt_bool("supports_tools", family_capability(&variants, Capability::Tools));
    o.put_opt_bool("supports_reasoning", family_capability(&variants, Capability::Reasoning));
    o.put("variants", list);
    proof {
        assert((|m: ModelInfoView| capability_of(m, Capability::Vision)) =~= (
        |m: ModelInfoView| m.supports_vision));
        assert((|m: ModelInfoView| capability_of(m, Capability::Tools)) =~= (
        |m: ModelInfoView| m.supports_tools));
        assert((|m: ModelInfoView| capability_of(m, Capability::Reasoning)) =~= (
        |m: ModelInfoView| m.supports_reasoning));
        assert(o@ =~= family_json(all, family@)->Object_0);
    }
    (o.done(), providers.len())
}

fn count_families(models: &Vec<ModelInfo>) -> (r: Vec<(String, usize)>)
    ensures
        r@.map_values(|p: (String, usize)| (p.0@, p.1)) == ordered_families(info_views(models@)),
{
    let ghost all = info_views(models@);
    let names = names_of_families(models);
    let mut list: Vec<(String, usize)> = Vec::new();
    let mut i: usize = 0;
    while i < names.len()
        invariant
            i <= names@.len(),
            all == info_views(models@),
            list@.len() == i,
            forall|j: int|
                0 <= j < i ==> (#[trigger] list@[j]).0@ == names@[j]@ && list@[j].1 == variants_of(
                    all,
                    names@[j]@,
                ).len(),
        decreases names@.len() - i,
    {
        let members = family_members(models, names[i].as_str());
        assert(members@.len() == info_views(members@).len());
        list.push((names[i].clone(), members.len()));
        i += 1;
    }
    assert(list@.map_values(|p: (String, usize)| (p.0@, p.1)) =~= family_names(all).map_values(
        |f: Seq<char>| (f, variants_of(all, f).len() as usize),
    ));
    let ghost precedes = |a: (String, usize), b: (String, usize)| a.1 > b.1;
    let comes = |a: &(String, usize), b: &(String, usize)| -> (c: bool)
        ensures
            c == (a.1 > b.1),
        { a.1 > b.1 };
    let ghost given = list@;
    let r = sort_stably(list, comes, Ghost(precedes));
    proof {
        sorted_maps(
            given,
            precedes,
            |p: (String, usize)| (p.0@, p.1),
            larger_count_first(),
        );
    }
    r
}

/// The families of some models, with a summary.
pub fn model_families_json(models: &Vec<ModelInfo>) -> (r: Json)
    ensures
        r@ == families_json(info_views(models@)),
{
    broadcast use group_json_views;

    let ghost all = info_views(models@);
    let counted = count_families(models);
    let ghost families = ordered_families(all);
    let mut list: Vec<Json> = Vec::new();
    let mut multi: usize = 0;
    let mut cross: usize = 0;
    let mut i: usize = 0;
    proof {
        kept_all(families, has_variants());
        kept_all(families, crosses_providers(all));
    }
    while i < counted.len()
        invariant
            i <= counted@.len(),
            all == info_views(models@),
            families == ordered_families(all),
            counted@.map_values(|p: (String, usize)| (p.0@, p.1)) == families,
            list@.len() == i,
            forall|j: int|
                0 <= j < i ==> (#[trigger] list@[j])@ == family_json(all, families[j].0),
            multi <= i,
            cross <= i,
            multi == kept(families.take(i as int), has_variants()).len(),
            cross == kept(families.take(i as int), crosses_providers(all)).len(),
        decreases counted@.len() - i,
    {
        proof {
            kept_next(families, has_variants(), i as int);
            kept_next(families, crosses_providers(all), i as int);
            assert(families[i as int] == (counted@[i as int].0@, counted@[i as int].1));
        }
        let (json, providers) = describe_family(models, counted[i].0.as_str());
        list.push(json);
        if counted[i].1 > 1 {
            multi += 1;
        }
        if providers > 1 {
            cross += 1;
        }
        i += 1;
    }
    assert(counted@.len() == families.len());
    assert(items_view(list@) =~= families.map_values(
        |f: (Seq<char>, usize)| family_json(all, f.0),
    ));
    let mut summary = ObjectBuilder::new();
    summary.put_num("total_models", models.len() as u64);
    summary.put_num("total_families", counted.len() as u64);
    summary.put_num("multi_variant_families", multi as u64);
    summary.put_num("cross_provider_families", cross as u64);
    summary.put_text("grouping_rule", "strip_openrouter_pricing_suffix_only");
    assert(summary@ =~= families_json(all)->Object_0[1].1->Object_0);
    let mut o = ObjectBuilder::new();
    o.put_text("object", "list");
    o.put("summary", summary.done());
    o.put("families", Json::Array(list));
    assert(o@ =~= families_json(all)->Object_0);
    o.done()
}

// ---------------------------------------------------------------- visibility
/// The models that are switched off, by provider.
pub type DisabledModels = Vec<(String, Vec<String>)>;

/// Whether a model of a provider is switched off.
pub open spec fn is_disabled(
    disabled: Seq<(String, Vec<String>)>,
    provider: Seq<char>,
    model: Seq<char>,
) -> bool {
    match named_in(disabled, provider) {
        Some(list) => views(list@).contains(model),
        None => false,
    }
}

/// Whether a model of a provider is switched off.
pub fn model_disabled(disabled: &DisabledModels, provider: &str, model: &str) -> (r: bool)
    ensures
        r == is_disabled(disabled@, provider@, model@),
{
    match lookup(disabled, provider) {
        Some(list) => list_has(list, model),
        None => false,
    }
}

/// A model of which nothing but its name and its provider is known.
pub open spec fn plain_info(id: Seq<char>, owner: Seq<char>, created: i64) -> ModelInfoView {
    ModelInfoView {
        id,
        object: "model"@,
        created,
        owned_by: owner,
        provider: Some(owner),
        context_window: None,
        supports_vision: None,
        supports_tools: None,
        supports_reasoning: None,
        pricing_prompt: None,
        pricing_completion: None,
    }
}

/// A model of which nothing but its name and its provider is known.
pub fn plain_model(id: &str, owner: &str, created: i64) -> (r: ModelInfo)
    ensures
        r@ == plain_info(id@, owner@, created),
{
    ModelInfo {
        id: id.to_owned(),
        object: "model".to_owned(),
        created,
        owned_by: owner.to_owned(),
        provider: Some(owner.to_owned()),
        context_window: None,
        supports_vision: None,
        supports_tools: None,
        supports_reasoning: None,
        pricing_prompt: None,
        pricing_completion: None,
    }
}

/// Model and provider of a served pair, unless the model is switched off.
pub open spec fn shown_model(disabled: Seq<(String, Vec<String>)>) -> spec_fn(
    (Seq<char>, Seq<char>),
) -> Option<(Seq<char>, Seq<char>)> {
    |a: (Seq<char>, Seq<char>)|
        if is_disabled(disabled, a.0, a.1) {
            None
        } else {
            Some((a.1, a.0))
        }
}

/// Whether a served pair of provider and model is what an alias stands for.
pub open spec fn serves_alias(alias: ModelAlias) -> spec_fn((Seq<char>, Seq<char>)) -> bool {
    |a: (Seq<char>, Seq<char>)|
        a.1 == alias.model@ && (alias.provider@.len() == 0 || a.0 == alias.provider@)
}

/// The name of an alias with the provider that serves its model first, unless
/// nobody does or the model is switched off there.
pub open spec fn shown_alias(
    available: Seq<(Seq<char>, Seq<char>)>,
    disabled: Seq<(String, Vec<String>)>,
) -> spec_fn((String, ModelAlias)) -> Option<(Seq<char>, Seq<char>)> {
    |a: (String, ModelAlias)|
        {
            let serving = kept(available, serves_alias(a.1));
            if serving.len() == 0 || is_disabled(disabled, serving[0].0, a.1.model@) {
                None
            } else {
                Some((a.0@, serving[0].0))
            }
        }
}

/// The pairs of model and owner that are shown, each once, in order.
pub open spec fn shown_pairs(
    aliases: Seq<(String, ModelAlias)>,
    available: Seq<(Seq<char>, Seq<char>)>,
    disabled: Seq<(String, Vec<String>)>,
) -> Seq<(Seq<char>, Seq<char>)> {
    deduped(
        sorted(
            collected(available, shown_model(disabled)) + collected(
                aliases,
                shown_alias(available, disabled),
            ),
            pair_order(),
        ),
    )
}

/// The models that are shown: those that free keys serve, and the aliases of
/// such models.
pub open spec fn visible(
    aliases: Seq<(String, ModelAlias)>,
    available: Seq<(Seq<char>, Seq<char>)>,
    disabled: Seq<(String, Vec<String>)>,
    created: i64,
) -> Seq<ModelInfoView> {
    shown_pairs(aliases, available, disabled).map_values(
        |p: (Seq<char>, Seq<char>)| plain_info(p.0, p.1, created),
    )
}

fn serving_provider(available: &Vec<(String, String)>, alias: &ModelAlias) -> (r: Option<String>)
    ensures
        match r {
            Some(p) => kept(text_pairs(available@), serves_alias(*alias)).len() > 0 && kept(
                text_pairs(available@),
                serves_alias(*alias),
            )[0].0 == p@,
            None => kept(text_pairs(available@), serves_alias(*alias)).len() == 0,
        },
{
    let ghost all = text_pairs(available@);
    let ghost p = serves_alias(*alias);
    let mut r: Option<String> = None;
    let mut i: usize = 0;
    proof {
        kept_all(all, p);
    }
    while i < available.len()
        invariant
            i <= available@.len(),
            all == text_pairs(available@),
            p == serves_alias(*alias),
            match r {
                Some(o) => kept(all.take(i as int), p).len() > 0 && kept(all.take(i as int), p)[0].0
                    == o@,
                None => kept(all.take(i as int), p).len() == 0,
            },
        decreases available@.len() - i,
    {
        let ghost so_far = kept(all.take(i as int), p);
        proof {
            kept_next(all, p, i as int);
            assert(all[i as int] == (available@[i as int].0@, available@[i as int].1@));
        }
        let (provider, model) = (&available[i].0, &available[i].1);
        if same(model.as_str(), alias.model.as_str()) && (same(alias.provider.as_str(), "") || same(
            provider.as_str(),
            alias.provider.as_str(),
        )) {
            proof {
                reveal_strlit("");
                assert(so_far.len() > 0 ==> so_far.push(all[i as int])[0] == so_far[0]);
                if alias.provider@ == ""@ {
                    assert(alias.provider@.len() == 0);
                }
            }
            if r.is_none() {
                r = Some(provider.clone());
            }
        } else {
            proof {
                reveal_strlit("");
                if alias.provider@.len() == 0 {
                    assert(alias.provider@ =~= ""@);
                }
            }
        }
        i += 1;
    }
    r
}

/// The models that are shown, from those that free keys serve.
pub fn visible_from(
    aliases: &Vec<(String, ModelAlias)>,
    available: &Vec<(String, String)>,
    disabled: &DisabledModels,
    created: i64,
) -> (r: Vec<ModelInfo>)
    ensures
        info_views(r@) == visible(aliases@, text_pairs(available@), disabled@, created),
{
    let ghost all = text_pairs(available@);
    let ghost f = shown_model(disabled@);
    let mut pairs: Vec<(String, String)> = Vec::new();
    let mut i: usize = 0;
    proof {
        collected_all(all, f);
        assert(text_pairs(pairs@) =~= collected(all.take(0), f));
    }
    while i < available.len()
        invariant
            i <= available@.len(),
            all == text_pairs(available@),
            f == shown_model(disabled@),
            text_pairs(pairs@) == collected(all.take(i as int), f),
        decreases available@.len() - i,
    {
        proof {
            collected_next(all, f, i as int);
            assert(all[i as int] == (available@[i as int].0@, available@[i as int].1@));
        }
        if !model_disabled(disabled, available[i].0.as_str(), available[i].1.as_str()) {
            let ghost so_far = text_pairs(pairs@);
            pairs.push((available[i].1.clone(), available[i].0.clone()));
            assert(text_pairs(pairs@) =~= so_far.push(
                (available@[i as int].1@, available@[i as int].0@),
            ));
        }
        i += 1;
    }
    let ghost first = text_pairs(pairs@);
    let ghost g = shown_alias(all, disabled@);
    let mut k: usize = 0;
    proof {
        collected_all(aliases@, g);
        assert(first + collected(aliases@.take(0), g) =~= first);
    }
    while k < aliases.len()
        invariant
            k <= aliases@.len(),
            all == text_pairs(available@),
            g == shown_alias(all, disabled@),
            text_pairs(pairs@) == first + collected(aliases@.take(k as int), g),
        decreases aliases@.len() - k,
    {
        proof {
            collected_next(aliases@, g, k as int);
        }
        let alias = &aliases[k];
        if let Some(provider) = serving_provider(available, &alias.1) {
            if !model_disabled(disabled, provider.as_str(), alias.1.model.as_str()) {
                let ghost so_far = text_pairs(pairs@);
                let ghost before_it = collected(aliases@.take(k as int), g);
                let ghost owner = provider@;
                pairs.push((alias.0.clone(), provider));
                assert(text_pairs(pairs@) =~= so_far.push((alias.0@, owner)));
                assert(so_far.push((alias.0@, owner)) =~= first + before_it.push(
                    (alias.0@, owner),
                ));
            }
        }
        k += 1;
    }
    let shown = sort_and_dedup_pairs(pairs);
    let ghost goal = visible(aliases@, all, disabled@, created);
    let mut r: Vec<ModelInfo> = Vec::new();
    let mut n: usize = 0;
    while n < shown.len()
        invariant
            n <= shown@.len(),
            r@.len() == n,
            goal == text_pairs(shown@).map_values(
                |p: (Seq<char>, Seq<char>)| plain_info(p.0, p.1, created),
            ),
            forall|j: int| 0 <= j < n ==> (#[trigger] r@[j])@ == goal[j],
        decreases shown@.len() - n,
    {
        let m = plain_model(shown[n].0.as_str(), shown[n].1.as_str(), created);
        assert(m@ == goal[n as int]);
        r.push(m);
        n += 1;
    }
    assert(info_views(r@) =~= goal);
    r
}

/// The models that the gateway shows: those that its free keys serve, and the
/// aliases of such models.
pub fn visible_models(
    config: &Config,
    keyhub: &mut KeyHub,
    disabled: &DisabledModels,
    created: i64,
) -> (r: Vec<ModelInfo>)
    requires
        old(keyhub).wf(),
    ensures
        final(keyhub).wf(),
        exists|available: Seq<(Seq<char>, Seq<char>)>, now: u64|
            {
                &&& final(keyhub)@ == #[trigger] old(keyhub)@.all_refreshed(now)
                &&& info_views(r@) == #[trigger] visible(
                    config.models@,
                    available,
                    disabled@,
                    created,
                )
                &&& strictly_ordered(available, pair_order())
                &&& forall|p: Seq<char>, m: Seq<char>| #[trigger]
                    available.contains((p, m)) <==> serves_free(
                        old(keyhub)@,
                        p,
                        m,
                        now,
                    )
            },
{
    let available = keyhub.available_free_models();
    visible_from(&config.models, &available, disabled, created)
}

/// The models of the public list: what is visible, every family as one model.
pub fn merged_visible_models(
    config: &Config,
    keyhub: &mut KeyHub,
    disabled: &DisabledModels,
    created: i64,
) -> (r: Vec<ModelInfo>)
    requires
        old(keyhub).wf(),
    ensures
        final(keyhub).wf(),
        exists|available: Seq<(Seq<char>, Seq<char>)>, now: u64|
            {
                &&& final(keyhub)@ == #[trigger] old(keyhub)@.all_refreshed(now)
                &&& info_views(r@) == merged_families(
                    #[trigger] visible(config.models@, available, disabled@, created),
                )
                &&& strictly_ordered(available, pair_order())
                &&& forall|p: Seq<char>, m: Seq<char>| #[trigger]
                    available.contains((p, m)) <==> serves_free(
                        old(keyhub)@,
                        p,
                        m,
                        now,
                    )
            },
{
    let models = visible_models(config, keyhub, disabled, created);
    merge_model_families(&models)
}

proof fn collected_from<T, U>(s: Seq<T>, f: spec_fn(T) -> Option<U>, x: U)
    requires
        collected(s, f).contains(x),
    ensures
        exists|i: int| 0 <= i < s.len() && f(#[trigger] s[i]) == Some(x),
    decreases s.len(),
{
    if s.len() > 0 {
        let c = collected(s.drop_last(), f);
        if c.contains(x) {
            collected_from(s.drop_last(), f, x);
            let i = choose|i: int| 0 <= i < s.drop_last().len() && f(#[trigger] s.drop_last()[i])
                == Some(x);
            assert(s[i] == s.drop_last()[i]);
        } else {
            let k = choose|k: int| 0 <= k < collected(s, f).len() && collected(s, f)[k] == x;
            assert(k >= c.len()) by {
                if k < c.len() {
                    assert(c[k] == x);
                }
            }
            assert(f(s[s.len() - 1]) == Some(x));
        }
    }
}

/// No model that is switched off is shown under its own name, where no alias
/// has that name.
pub proof fn disabled_models_are_hidden(
    aliases: Seq<(String, ModelAlias)>,
    available: Seq<(Seq<char>, Seq<char>)>,
    disabled: Seq<(String, Vec<String>)>,
    provider: Seq<char>,
    model: Seq<char>,
)
    requires
        is_disabled(disabled, provider, model),
        forall|i: int| 0 <= i < aliases.len() ==> (#[trigger] aliases[i]).0@ != model,
    ensures
        !shown_pairs(aliases, available, disabled).contains((model, provider)),
{
    let a = collected(available, shown_model(disabled));
    let b = collected(aliases, shown_alias(available, disabled));
    pair_order_is_order();
    sorted_and_deduped(a + b, pair_order());
    if shown_pairs(aliases, available, disabled).contains((model, provider)) {
        assert((a + b).contains((model, provider)));
        let k = choose|k: int| 0 <= k < (a + b).len() && (a + b)[k] == (model, provider);
        if k < a.len() {
            assert(a[k] == (model, provider));
            collected_from(available, shown_model(disabled), (model, provider));
        } else {
            assert(b[k - a.len()] == (model, provider));
            collected_from(aliases, shown_alias(available, disabled), (model, provider));
        }
        assert(false);
    }
}

// ---------------------------------------------------------------- metadata
/// Whether a row is of a provider's model.
pub open spec fn row_of(provider: Seq<char>, model: Seq<char>) -> spec_fn(ModelMetaRow) -> bool {
    |r: ModelMetaRow| r.provider@ == provider && r.model_id@ == model
}

/// A model with what the last row of its provider and name says of it.
pub open spec fn enriched(m: ModelInfoView, rows: Seq<ModelMetaRow>) -> ModelInfoView {
    let mine = kept(rows, row_of(m.served_by(), m.id));
    if mine.len() == 0 {
        m
    } else {
        let row = mine.last();
        ModelInfoView {
            context_window: row.context_window,
            supports_vision: row.supports_vision,
            supports_tools: row.supports_tools,
            supports_reasoning: row.supports_reasoning,
            pricing_prompt: opt_number(row.pricing_prompt),
            pricing_completion: opt_number(row.pricing_completion),
            ..m
        }
    }
}

fn enrich(m: &ModelInfo, rows: &Vec<ModelMetaRow>) -> (r: ModelInfo)
    ensures
        r@ == enriched(m@, rows@),
{
    let mut r = m.copy();
    let ghost p = row_of(m@.served_by(), m.id@);
    let mut i: usize = 0;
    proof {
        kept_all(rows@, p);
    }
    while i < rows.len()
        invariant
            i <= rows@.len(),
            p == row_of(m@.served_by(), m.id@),
            r@ == enriched(m@, rows@.take(i as int)),
        decreases rows@.len() - i,
    {
        proof {
            kept_next(rows@, p, i as int);
        }
        let row = &rows[i];
        if same(row.provider.as_str(), m.provider_name()) && same(
            row.model_id.as_str(),
            m.id.as_str(),
        ) {
            r.context_window = row.context_window;
            r.supports_vision = row.supports_vision;
            r.supports_tools = row.supports_tools;
            r.supports_reasoning = row.supports_reasoning;
            r.pricing_prompt = match &row.pricing_prompt {
                Some(n) => Some(n.copy()),
                None => None,
            };
            r.pricing_completion = match &row.pricing_completion {
                Some(n) => Some(n.copy()),
                None => None,
            };
        }
        i += 1;
    }
    assert(rows@.take(rows@.len() as int) =~= rows@);
    r
}

/// Models with what metadata says of them.
pub fn enrich_model_metadata(models: &Vec<ModelInfo>, rows: &Vec<ModelMetaRow>) -> (r: Vec<
    ModelInfo,
>)
    ensures
        info_views(r@) == info_views(models@).map_values(|m: ModelInfoView| enriched(m, rows@)),
{
    let mut r: Vec<ModelInfo> = Vec::new();
    let mut i: usize = 0;
    while i < models.len()
        invariant
            i <= models@.len(),
            r@.len() == i,
            forall|j: int| 0 <= j < i ==> (#[trigger] r@[j])@ == enriched(models@[j]@, rows@),
        decreases models@.len() - i,
    {
        r.push(enrich(&models[i], rows));
        i += 1;
    }
    assert(info_views(r@) =~= info_views(models@).map_values(
        |m: ModelInfoView| enriched(m, rows@),
    ));
    r
}

} // verus!
