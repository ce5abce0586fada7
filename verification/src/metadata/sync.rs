//! What public catalogs say of models.
use crate::json_text::document;
use crate::metadata::learner::{
    either, learn_from_models_response, ModelUpdate, ModelUpdateView, update_views,
    updates_from_list,
};
use crate::text::{copy_opt, list_has, opt_view, views};
use vstd::prelude::*;

verus! {

/// A model in OpenRouter's catalog.
#[derive(Debug)]
pub struct OpenRouterModel {
    pub id: String,
    pub name: Option<String>,
    pub context_length: Option<i64>,
    pub per_request_limits: Option<i64>,
    pub architecture: Option<Architecture>,
    pub pricing: Option<Pricing>,
    pub top_provider: Option<TopProvider>,
    pub supported_parameters: Option<Vec<String>>,
}

#[derive(Debug)]
pub struct Architecture {
    pub modality: Option<String>,
    pub input_modalities: Option<Vec<String>>,
}

#[derive(Debug)]
pub struct Pricing {
    pub prompt: Option<String>,
    pub completion: Option<String>,
}

#[derive(Debug)]
pub struct TopProvider {
    pub context_length: Option<i64>,
    pub max_completion_tokens: Option<i64>,
}

/// Whether a text is among some, where they are known.
pub open spec fn listed(list: Option<Vec<String>>, text: Seq<char>) -> Option<bool> {
    match list {
        Some(l) => Some(views(l@).contains(text)),
        None => None,
    }
}

/// Whether either of two texts is among some, where they are known.
pub open spec fn either_listed(list: Option<Vec<String>>, a: Seq<char>, b: Seq<char>) -> Option<
    bool,
> {
    match list {
        Some(l) => Some(views(l@).contains(a) || views(l@).contains(b)),
        None => None,
    }
}

/// What an entry of the catalog says of a model.
pub open spec fn catalog_entry(model: OpenRouterModel) -> ModelUpdateView {
    ModelUpdateView {
        provider: "openrouter"@,
        model_id: model.id@,
        display_name: opt_view(model.name),
        context_window: either(
            model.context_length,
            match model.top_provider {
                Some(t) => t.context_length,
                None => None,
            },
        ),
        max_completion_tokens: match model.top_provider {
            Some(t) => t.max_completion_tokens,
            None => None,
        },
        supports_vision: match model.architecture {
            Some(a) => listed(a.input_modalities, "image"@),
            None => None,
        },
        supports_tools: either_listed(model.supported_parameters, "tools"@, "tool_choice"@),
        supports_reasoning: listed(model.supported_parameters, "reasoning"@),
        pricing_prompt: match model.pricing {
            Some(p) => opt_view(p.prompt),
            None => None,
        },
        pricing_completion: match model.pricing {
            Some(p) => opt_view(p.completion),
            None => None,
        },
        architecture_modality: match model.architecture {
            Some(a) => opt_view(a.modality),
            None => None,
        },
        rpm_limit: model.per_request_limits,
        rpd_limit: None,
        tpm_limit: None,
        tpd_limit: None,
        source: "public_sync"@,
    }
}

fn list_says(list: &Option<Vec<String>>, text: &str) -> (r: Option<bool>)
    ensures
        r == listed(*list, text@),
{
    match list {
        Some(l) => Some(list_has(l, text)),
        None => None,
    }
}

/// What an entry of the catalog says of a model.
pub fn catalog_update(model: &OpenRouterModel) -> (r: ModelUpdate)
    ensures
        r@ == catalog_entry(*model),
{
    let supports_vision = match &model.architecture {
        Some(a) => list_says(&a.input_modalities, "image"),
        None => None,
    };
    let supports_tools = match &model.supported_parameters {
        Some(l) => Some(list_has(l, "tools") || list_has(l, "tool_choice")),
        None => None,
    };
    let context_window = match model.context_length {
        Some(n) => Some(n),
        None => match &model.top_provider {
            Some(t) => t.context_length,
            None => None,
        },
    };
    ModelUpdate {
        provider: "openrouter".to_owned(),
        model_id: model.id.clone(),
        display_name: copy_opt(&model.name),
        context_window,
        max_completion_tokens: match &model.top_provider {
            Some(t) => t.max_completion_tokens,
            None => None,
        },
        supports_vision,
        supports_tools,
        supports_reasoning: list_says(&model.supported_parameters, "reasoning"),
        pricing_prompt: match &model.pricing {
            Some(p) => copy_opt(&p.prompt),
            None => None,
        },
        pricing_completion: match &model.pricing {
            Some(p) => copy_opt(&p.completion),
            None => None,
        },
        architecture_modality: match &model.architecture {
            Some(a) => copy_opt(&a.modality),
            None => None,
        },
        rpm_limit: model.per_request_limits,
        rpd_limit: None,
        tpm_limit: None,
        tpd_limit: None,
        source: "public_sync".to_owned(),
    }
}

/// What every entry of the catalog says.
pub fn catalog_updates(models: &Vec<OpenRouterModel>) -> (r: Vec<ModelUpdate>)
    ensures
        update_views(r@) == models@.map_values(|m: OpenRouterModel| catalog_entry(m)),
{
    let mut r: Vec<ModelUpdate> = Vec::new();
    let mut i: usize = 0;
    while i < models.len()
        invariant
            i <= models@.len(),
            r@.len() == i,
            forall|j: int| 0 <= j < i ==> (#[trigger] r@[j])@ == catalog_entry(models@[j]),
        decreases models@.len() - i,
    {
        r.push(catalog_update(&models[i]));
        i += 1;
    }
    assert(update_views(r@) =~= models@.map_values(|m: OpenRouterModel| catalog_entry(m)));
    r
}

/// What is learned from a catalog: first what its entries say, then what a
/// provider's own list of models would say in their place.
#[derive(Debug)]
pub struct CatalogSync {
    pub source: String,
    pub updates: Vec<ModelUpdate>,
    pub learned: Vec<ModelUpdate>,
}

/// What is learned from OpenRouter's catalog, given as text and as the entries
/// that were read from it.
pub fn sync_openrouter(body: &str, models: &Vec<OpenRouterModel>) -> (r: CatalogSync)
    ensures
        r.source@ == "openrouter"@,
        update_views(r.updates@) == models@.map_values(|m: OpenRouterModel| catalog_entry(m)),
        update_views(r.learned@) == match document(body@) {
            Some(v) => updates_from_list("openrouter"@, v),
            None => Seq::empty(),
        },
{
    CatalogSync {
        source: "openrouter".to_owned(),
        updates: catalog_updates(models),
        learned: learn_from_models_response("openrouter", body),
    }
}

} // verus!
