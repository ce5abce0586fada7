//! Laws of the listed models and of what attempts are summed up to.
use crate::api::attempts::{
    advice, category_count, deployment_advice, deployment_names, deployment_of, deployment_summary,
    DeploymentView, failed_at, failed_with, failing_deployments, failure_categories,
    failure_category, hotter, is_fallback, is_success, larger_count_first, limited_key,
    limited_keys, limited_pair, limited_pairs, more_keys_first, saturated_pairs, SaturatedView,
    saturation_advice, top_categories, went_to,
};
use crate::api::models::{
    any_known, by_provider_and_id, enriched, family_json, family_names, family_of, in_family,
    is_disabled, largest, merged_families, merged_family, ModelInfoView, ordered_families,
    plain_info, preferred_variant, serves_alias, shown_alias, shown_model, shown_pairs, tier_rank,
    variant_json, variants_of, visible,
};
use crate::config::ModelAlias;
use crate::json::{int_json, JsonView, member_at, num};
use crate::lists::{collected, collected_from, collected_has, kept, kept_satisfies};
use crate::metadata::rows::{AttemptView, ModelMetaRow};
use crate::models::opt_number;
use crate::sorting::{
    deduped, deduped_holds_the_same, is_order, pair_order, sorted, sorted_holds_the_same,
    sorted_is_in_order, sorted_is_permutation, sorted_set, sorted_set_is_increasing,
};
use crate::text::{before_asymmetric, before_irreflexive, before_total, before_transitive};
use vstd::prelude::*;

verus! {

// ---------------------------------------------------------------- families
/// A pricing suffix names the tier of a model, what stands before it its
/// family. A model without one is the default of its own family.
pub proof fn suffixes_name_tiers(base: Seq<char>)
    ensures
        family_of(base + ":free"@) == (base, "free"@),
        family_of(base + ":paid"@) == (base, "paid"@),
        family_of(base + ":extended"@) == (base, "extended"@),
        !":free"@.is_suffix_of(base) && !":paid"@.is_suffix_of(base) && !":extended"@.is_suffix_of(
            base,
        ) ==> family_of(base) == (base, "default"@),
{
    reveal_strlit(":free");
    reveal_strlit(":paid");
    assert(":free"@.len() == 5);
    assert(":paid"@.len() == 5);
    assert(":free"@[1] != ":paid"@[1]);
    reveal_strlit(":extended");
    assert(":free"@.len() == 5);
    assert(":paid"@.len() == 5);
    assert(":extended"@.len() == 9);
    assert(":free"@[1] != ":paid"@[1]);
    let f = base + ":free"@;
    let p = base + ":paid"@;
    let e = base + ":extended"@;
    assert(f.subrange(f.len() - 5, f.len() as int) =~= ":free"@);
    assert(p.subrange(p.len() - 5, p.len() as int) =~= ":paid"@);
    assert(e.subrange(e.len() - 9, e.len() as int) =~= ":extended"@);
    assert(f.take(f.len() - 5) =~= base);
    assert(p.take(p.len() - 5) =~= base);
    assert(e.take(e.len() - 9) =~= base);
    assert(p.last() == 'd' && ":free"@.last() == 'e');
    if ":free"@.is_suffix_of(p) {
        assert(p.subrange(p.len() - 5, p.len() as int)[4] == ":free"@[4]);
    }
    if ":free"@.is_suffix_of(e) {
        assert(e.subrange(e.len() - 5, e.len() as int)[4] == ":free"@[4]);
        assert(e.last() == 'd');
    }
    if ":paid"@.is_suffix_of(e) {
        assert(e.subrange(e.len() - 5, e.len() as int)[3] == ":paid"@[3]);
        assert(e[e.len() - 2] == 'e');
    }
}

proof fn preference_is_order()
    ensures
        is_order(preferred_variant()),
{
    let p = preferred_variant();
    assert forall|a: ModelInfoView, b: ModelInfoView, c: ModelInfoView|
        !(#[trigger] p(b, a)) && !(#[trigger] p(c, b)) implies !p(c, a) by {
        texts_ordered(a.served_by(), b.served_by(), c.served_by());
        texts_ordered(a.id, b.id, c.id);
        texts_ordered(a.owned_by, b.owned_by, c.owned_by);
    }
    assert forall|a: ModelInfoView, b: ModelInfoView| #[trigger] p(a, b) implies !p(b, a) by {
        texts_ordered(a.served_by(), b.served_by(), a.served_by());
        texts_ordered(a.id, b.id, a.id);
        texts_ordered(a.owned_by, b.owned_by, a.owned_by);
    }
}

/// What the order of three texts comes to.
proof fn texts_ordered(a: Seq<char>, b: Seq<char>, c: Seq<char>)
    ensures
        !(crate::text::before(a, b) && crate::text::before(b, a)),
        !(crate::text::before(b, c) && crate::text::before(c, b)),
        !(crate::text::before(a, c) && crate::text::before(c, a)),
        !crate::text::before(a, a),
        !crate::text::before(b, b),
        !crate::text::before(c, c),
        a == b || crate::text::before(a, b) || crate::text::before(b, a),
        b == c || crate::text::before(b, c) || crate::text::before(c, b),
        a == c || crate::text::before(a, c) || crate::text::before(c, a),
        crate::text::before(a, b) && crate::text::before(b, c) ==> crate::text::before(a, c),
        crate::text::before(c, b) && crate::text::before(b, a) ==> crate::text::before(c, a),
        crate::text::before(b, c) && crate::text::before(c, a) ==> crate::text::before(b, a),
        crate::text::before(c, a) && crate::text::before(a, b) ==> crate::text::before(c, b),
{
    before_total(a, b);
    before_total(b, c);
    before_total(a, c);
    before_irreflexive(a);
    before_irreflexive(b);
    before_irreflexive(c);
    if crate::text::before(a, b) {
        before_asymmetric(a, b);
        if crate::text::before(b, c) {
            before_transitive(a, b, c);
        }
        if crate::text::before(c, a) {
            before_transitive(c, a, b);
        }
    }
    if crate::text::before(b, c) {
        before_asymmetric(b, c);
        if crate::text::before(c, a) {
            before_transitive(b, c, a);
        }
    }
    if crate::text::before(a, c) {
        before_asymmetric(a, c);
    }
    if crate::text::before(c, b) && crate::text::before(b, a) {
        before_transitive(c, b, a);
    }
}

/// A family is shown as one of its variants, under the family's name: a plain
/// one where there is one, else a free one, else an extended one.
pub proof fn families_are_shown_by_their_best_variant(models: Seq<ModelInfoView>, i: int)
    requires
        0 <= i < models.len(),
    ensures
        ({
            let family = family_of(models[i].id).0;
            let shown = merged_family(models, family);
            exists|w: int|
                {
                    &&& 0 <= w < models.len()
                    &&& family_of((#[trigger] models[w]).id).0 == family
                    &&& shown == (ModelInfoView { id: family, ..models[w] })
                    &&& family_of(models[i].id).1 == "default"@ ==> family_of(models[w].id).1
                        == "default"@
                    &&& family_of(models[i].id).1 == "free"@ ==> family_of(models[w].id).1
                        == "default"@ || family_of(models[w].id).1 == "free"@
                    &&& family_of(models[i].id).1 == "extended"@ ==> family_of(models[w].id).1
                        != "paid"@
                }
        }),
{
    reveal_strlit("default");
    reveal_strlit("free");
    reveal_strlit("extended");
    assert("default"@.len() == 7);
    assert("free"@.len() == 4);
    assert("extended"@.len() == 8);
    reveal_strlit("paid");
    assert("default"@.len() == 7);
    assert("free"@.len() == 4);
    assert("extended"@.len() == 8);
    assert("paid"@.len() == 4);
    assert("free"@[0] != "paid"@[0]);
    let family = family_of(models[i].id).0;
    let p = in_family(family);
    let mine = variants_of(models, family);
    kept_satisfies(models, p);
    assert(models.contains(models[i]) && p(models[i]));
    assert(mine.contains(models[i]));
    preference_is_order();
    let order = preferred_variant();
    let r = sorted(mine, order);
    sorted_is_in_order(mine, order);
    sorted_is_permutation(mine, order);
    sorted_holds_the_same(mine, order, models[i]);
    sorted_holds_the_same(mine, order, r[0]);
    assert(r.contains(r[0]));
    assert(mine.contains(r[0]));
    let m = choose|m: int| 0 <= m < mine.len() && mine[m] == r[0];
    assert(p(mine[m]) && models.contains(mine[m]));
    let w = choose|w: int| 0 <= w < models.len() && models[w] == r[0];
    let k = choose|k: int| 0 <= k < r.len() && r[k] == models[i];
    if k > 0 {
        assert(!order(r[k], r[0]));
    }
    assert(tier_rank(family_of(r[0].id).1) <= tier_rank(family_of(models[i].id).1));
    assert(family_of(models[w].id).0 == family);
}

/// The listed families are those of the models, each once, in order.
pub proof fn families_are_listed(models: Seq<ModelInfoView>, family: Seq<char>)
    ensures
        (exists|i: int|
            0 <= i < models.len() && family_of((#[trigger] models[i]).id).0 == family) <==> exists|
            k: int,
        |
            0 <= k < merged_families(models).len() && (#[trigger] merged_families(models)[k]).id
                == family,
        forall|a: int, b: int|
            0 <= a < b < merged_families(models).len() ==> (#[trigger] merged_families(
                models,
            )[a]).id != (#[trigger] merged_families(models)[b]).id,
{
    let names = models.map_values(|m: ModelInfoView| family_of(m.id).0);
    let listed = family_names(models);
    let r = merged_families(models);
    sorted_set_is_increasing(names);
    assert forall|k: int| 0 <= k < r.len() implies (#[trigger] r[k]).id == listed[k] by {}
    if exists|i: int| 0 <= i < models.len() && family_of((#[trigger] models[i]).id).0 == family {
        let i = choose|i: int|
            0 <= i < models.len() && family_of((#[trigger] models[i]).id).0 == family;
        assert(names[i] == family);
        assert(names.contains(family));
        assert(listed.contains(family));
        let k = choose|k: int| 0 <= k < listed.len() && listed[k] == family;
        assert(r[k].id == family);
    }
    if exists|k: int| 0 <= k < r.len() && (#[trigger] r[k]).id == family {
        let k = choose|k: int| 0 <= k < r.len() && (#[trigger] r[k]).id == family;
        assert(listed[k] == family);
        assert(listed.contains(family));
        assert(names.contains(family));
        let i = choose|i: int| 0 <= i < names.len() && names[i] == family;
        assert(family_of(models[i].id).0 == family);
    }
    assert forall|a: int, b: int| 0 <= a < b < r.len() implies (#[trigger] r[a]).id
        != (#[trigger] r[b]).id by {
        assert(listed[a] != listed[b]);
    }
}

/// A capability is known of a family where it is known of a variant, and it is
/// there where any variant has it.
pub proof fn capabilities_of_any_variant_count(known: Seq<bool>)
    ensures
        any_known(known) == Some(true) <==> known.contains(true),
        any_known(known) is None <==> known.len() == 0,
{
}

/// The largest of some numbers is one of them, and none is larger.
pub proof fn the_largest_is_the_largest(known: Seq<i64>, i: int)
    requires
        0 <= i < known.len(),
    ensures
        largest(known) matches Some(m) && m >= known[i] && known.contains(m),
    decreases known.len(),
{
    let rest = known.drop_last();
    let n = known.len() - 1;
    assert(known[n] == known.last());
    if rest.len() > 0 {
        the_largest_is_the_largest(rest, if i < n {
            i
        } else {
            0
        });
        let m = largest(rest)->0;
        let w = choose|w: int| 0 <= w < rest.len() && rest[w] == m;
        assert(known[w] == m);
        if i < n {
            assert(rest[i] == known[i]);
        }
    }
}

/// Families with more variants are listed first.
pub proof fn larger_families_come_first(models: Seq<ModelInfoView>, i: int, j: int)
    requires
        0 <= i < j < ordered_families(models).len(),
    ensures
        ordered_families(models)[i].1 >= ordered_families(models)[j].1,
{
    let list = family_names(models).map_values(
        |f: Seq<char>| (f, variants_of(models, f).len() as usize),
    );
    sorted_is_in_order(list, larger_count_first());
    let r = ordered_families(models);
    assert(!larger_count_first()(r[j], r[i]));
}

/// A family is told with the number of its variants, and with the capabilities
/// that any of them has.
pub proof fn families_are_told(models: Seq<ModelInfoView>, family: Seq<char>, i: int)
    requires
        0 <= i < models.len(),
        family_of(models[i].id).0 == family,
        variants_of(models, family).len() <= u64::MAX,
    ensures
        family_json(models, family).get("id"@) == Some(JsonView::Text(family)),
        family_json(models, family).get("variant_count"@) == Some(
            num(variants_of(models, family).len() as u64),
        ),
        models[i].supports_vision == Some(true) ==> family_json(models, family).get(
            "supports_vision"@,
        ) == Some(JsonView::Bool(true)),
        models[i].supports_tools == Some(true) ==> family_json(models, family).get(
            "supports_tools"@,
        ) == Some(JsonView::Bool(true)),
        models[i].supports_reasoning == Some(true) ==> family_json(models, family).get(
            "supports_reasoning"@,
        ) == Some(JsonView::Bool(true)),
        models[i].context_window matches Some(n) ==> exists|m: i64|
            m >= n && family_json(models, family).get("max_context_window"@) == Some(
                #[trigger] int_json(m as int),
            ),
{
    reveal_strlit("id");
    reveal_strlit("object");
    reveal_strlit("variant_count");
    reveal_strlit("provider_count");
    reveal_strlit("providers");
    reveal_strlit("tiers");
    reveal_strlit("max_context_window");
    reveal_strlit("supports_vision");
    reveal_strlit("supports_tools");
    reveal_strlit("supports_reasoning");
    assert("id"@.len() == 2);
    assert("object"@.len() == 6);
    assert("variant_count"@.len() == 13);
    assert("provider_count"@.len() == 14);
    assert("providers"@.len() == 9);
    assert("tiers"@.len() == 5);
    assert("max_context_window"@.len() == 18);
    assert("supports_vision"@.len() == 15);
    assert("supports_tools"@.len() == 14);
    assert("supports_reasoning"@.len() == 18);
    assert("provider_count"@[0] != "supports_tools"@[0]);
    assert("max_context_window"@[0] != "supports_reasoning"@[0]);
    let m = (family_json(models, family))->Object_0;
    assert(m[0].0 == "id"@);
    member_at(m, 0);
    assert(m[2].0 == "variant_count"@);
    member_at(m, 2);
    assert(m[6].0 == "max_context_window"@);
    member_at(m, 6);
    assert(m[7].0 == "supports_vision"@);
    member_at(m, 7);
    assert(m[8].0 == "supports_tools"@);
    member_at(m, 8);
    assert(m[9].0 == "supports_reasoning"@);
    member_at(m, 9);
    let mine = variants_of(models, family);
    let order = by_provider_and_id();
    let list = sorted(mine, order);
    sorted_is_permutation(mine, order);
    mine.to_multiset_ensures();
    list.to_multiset_ensures();
    let p = in_family(family);
    kept_satisfies(models, p);
    assert(models.contains(models[i]) && p(models[i]));
    assert(mine.contains(models[i]));
    sorted_holds_the_same(mine, order, models[i]);
    let k = choose|k: int| 0 <= k < list.len() && list[k] == models[i];
    let vision = |m: ModelInfoView| m.supports_vision;
    let tools = |m: ModelInfoView| m.supports_tools;
    let reasoning = |m: ModelInfoView| m.supports_reasoning;
    let window = |m: ModelInfoView| m.context_window;
    if models[i].supports_vision == Some(true) {
        assert(vision(list[k]) == Some(true));
        collected_has(list, vision, k);
    }
    if models[i].supports_tools == Some(true) {
        assert(tools(list[k]) == Some(true));
        collected_has(list, tools, k);
    }
    if models[i].supports_reasoning == Some(true) {
        assert(reasoning(list[k]) == Some(true));
        collected_has(list, reasoning, k);
    }
    if models[i].context_window is Some {
        let n = models[i].context_window->0;
        assert(window(list[k]) == Some(n));
        collected_has(list, window, k);
        let known = collected(list, window);
        let w = choose|w: int| 0 <= w < known.len() && known[w] == n;
        the_largest_is_the_largest(known, w);
        let most = largest(known)->0;
        assert(most >= n && family_json(models, family).get("max_context_window"@) == Some(
            int_json(most as int),
        ));
    }
}

/// A variant is told with what serves it, its tier, and what it can do.
pub proof fn variants_are_told(m: ModelInfoView)
    ensures
        variant_json(m).get("id"@) == Some(JsonView::Text(m.id)),
        variant_json(m).get("provider"@) == Some(JsonView::Text(m.served_by())),
        variant_json(m).get("owned_by"@) == Some(JsonView::Text(m.owned_by)),
        variant_json(m).get("tier"@) == Some(JsonView::Text(family_of(m.id).1)),
        m.context_window matches Some(n) ==> variant_json(m).get("context_window"@) == Some(
            int_json(n as int),
        ),
        m.supports_vision matches Some(b) ==> variant_json(m).get("supports_vision"@) == Some(
            JsonView::Bool(b),
        ),
        m.supports_tools matches Some(b) ==> variant_json(m).get("supports_tools"@) == Some(
            JsonView::Bool(b),
        ),
        m.supports_reasoning matches Some(b) ==> variant_json(m).get("supports_reasoning"@) == Some(
            JsonView::Bool(b),
        ),
        m.pricing_prompt matches Some(n) ==> variant_json(m).get("pricing_prompt"@) == Some(
            JsonView::Number(n),
        ),
        m.pricing_completion matches Some(n) ==> variant_json(m).get("pricing_completion"@) == Some(
            JsonView::Number(n),
        ),
{
    reveal_strlit("id");
    reveal_strlit("object");
    reveal_strlit("provider");
    reveal_strlit("owned_by");
    reveal_strlit("tier");
    reveal_strlit("context_window");
    reveal_strlit("supports_vision");
    reveal_strlit("supports_tools");
    reveal_strlit("supports_reasoning");
    reveal_strlit("pricing_prompt");
    reveal_strlit("pricing_completion");
    assert("id"@.len() == 2);
    assert("object"@.len() == 6);
    assert("provider"@.len() == 8);
    assert("owned_by"@.len() == 8);
    assert("tier"@.len() == 4);
    assert("context_window"@.len() == 14);
    assert("supports_vision"@.len() == 15);
    assert("supports_tools"@.len() == 14);
    assert("supports_reasoning"@.len() == 18);
    assert("pricing_prompt"@.len() == 14);
    assert("pricing_completion"@.len() == 18);
    assert("provider"@[0] != "owned_by"@[0]);
    assert("context_window"@[0] != "supports_tools"@[0]);
    assert("context_window"@[0] != "pricing_prompt"@[0]);
    assert("supports_tools"@[0] != "pricing_prompt"@[0]);
    assert("supports_reasoning"@[0] != "pricing_completion"@[0]);
    let v = (variant_json(m))->Object_0;
    assert(v[0].0 == "id"@);
    member_at(v, 0);
    assert(v[2].0 == "provider"@);
    member_at(v, 2);
    assert(v[3].0 == "owned_by"@);
    member_at(v, 3);
    assert(v[4].0 == "tier"@);
    member_at(v, 4);
    assert(v[5].0 == "context_window"@);
    member_at(v, 5);
    assert(v[6].0 == "supports_vision"@);
    member_at(v, 6);
    assert(v[7].0 == "supports_tools"@);
    member_at(v, 7);
    assert(v[8].0 == "supports_reasoning"@);
    member_at(v, 8);
    assert(v[9].0 == "pricing_prompt"@);
    member_at(v, 9);
    assert(v[10].0 == "pricing_completion"@);
    member_at(v, 10);
}

// ---------------------------------------------------------------- visibility
/// A model that free keys serve is shown with its provider, unless it is
/// switched off there.
pub proof fn served_models_are_shown(
    aliases: Seq<(String, ModelAlias)>,
    available: Seq<(Seq<char>, Seq<char>)>,
    disabled: Seq<(String, Vec<String>)>,
    created: i64,
    i: int,
)
    requires
        0 <= i < available.len(),
        !is_disabled(disabled, available[i].0, available[i].1),
    ensures
        visible(aliases, available, disabled, created).contains(
            plain_info(available[i].1, available[i].0, created),
        ),
{
    let f = shown_model(disabled);
    let pair = (available[i].1, available[i].0);
    assert(f(available[i]) == Some(pair));
    collected_has(available, f, i);
    let first = collected(available, f);
    let all = first + collected(aliases, shown_alias(available, disabled));
    let w = choose|w: int| 0 <= w < first.len() && first[w] == pair;
    assert(all[w] == pair);
    sorted_holds_the_same(all, pair_order(), pair);
    deduped_holds_the_same(sorted(all, pair_order()));
    let shown = shown_pairs(aliases, available, disabled);
    assert(shown.contains(pair));
    let k = choose|k: int| 0 <= k < shown.len() && shown[k] == pair;
    assert(visible(aliases, available, disabled, created)[k] == plain_info(
        pair.0,
        pair.1,
        created,
    ));
}

/// Whatever is shown is a model that free keys serve, or an alias of one, under
/// the provider that serves it; none is switched off there.
pub proof fn what_is_shown_is_served(
    aliases: Seq<(String, ModelAlias)>,
    available: Seq<(Seq<char>, Seq<char>)>,
    disabled: Seq<(String, Vec<String>)>,
    created: i64,
    k: int,
)
    requires
        0 <= k < visible(aliases, available, disabled, created).len(),
    ensures
        ({
            let m = visible(aliases, available, disabled, created)[k];
            ||| available.contains((m.owned_by, m.id)) && !is_disabled(disabled, m.owned_by, m.id)
            ||| exists|a: int|
                {
                    &&& 0 <= a < aliases.len()
                    &&& (#[trigger] aliases[a]).0@ == m.id
                    &&& available.contains((m.owned_by, aliases[a].1.model@))
                    &&& aliases[a].1.provider@.len() == 0 || aliases[a].1.provider@ == m.owned_by
                    &&& !is_disabled(disabled, m.owned_by, aliases[a].1.model@)
                }
        }),
        visible(aliases, available, disabled, created)[k].object == "model"@,
        visible(aliases, available, disabled, created)[k].created == created,
{
    let f = shown_model(disabled);
    let g = shown_alias(available, disabled);
    let first = collected(available, f);
    let second = collected(aliases, g);
    let all = first + second;
    let shown = shown_pairs(aliases, available, disabled);
    let pair = shown[k];
    deduped_holds_the_same(sorted(all, pair_order()));
    assert(shown.contains(pair));
    assert(sorted(all, pair_order()).contains(pair));
    sorted_holds_the_same(all, pair_order(), pair);
    let w = choose|w: int| 0 <= w < all.len() && all[w] == pair;
    if w < first.len() {
        assert(first[w] == pair);
        assert(first.contains(pair));
        collected_from(available, f, pair);
        let i = choose|i: int| 0 <= i < available.len() && f(#[trigger] available[i]) == Some(pair);
        assert(available[i] == (pair.1, pair.0));
    } else {
        assert(second[w - first.len()] == pair);
        assert(second.contains(pair));
        collected_from(aliases, g, pair);
        let a = choose|a: int| 0 <= a < aliases.len() && g(#[trigger] aliases[a]) == Some(pair);
        let serving = kept(available, serves_alias(aliases[a].1));
        kept_satisfies(available, serves_alias(aliases[a].1));
        assert(serves_alias(aliases[a].1)(serving[0]) && available.contains(serving[0]));
        assert(serving[0] == (pair.1, aliases[a].1.model@));
    }
}

/// What is known of a shown model is what the row of its provider and name says.
pub proof fn rows_tell_of_their_model(m: ModelInfoView, rows: Seq<ModelMetaRow>, i: int)
    requires
        0 <= i < rows.len(),
        rows[i].provider@ == m.served_by(),
        rows[i].model_id@ == m.id,
        forall|j: int|
            0 <= j < rows.len() && j != i ==> (#[trigger] rows[j]).provider@ != m.served_by()
                || rows[j].model_id@ != m.id,
    ensures
        ({
            let r = enriched(m, rows);
            &&& r.context_window == rows[i].context_window
            &&& r.supports_vision == rows[i].supports_vision
            &&& r.supports_tools == rows[i].supports_tools
            &&& r.supports_reasoning == rows[i].supports_reasoning
            &&& r.pricing_prompt == opt_number(rows[i].pricing_prompt)
            &&& r.pricing_completion == opt_number(rows[i].pricing_completion)
            &&& r.id == m.id && r.owned_by == m.owned_by && r.provider == m.provider
        }),
{
    let p = crate::api::models::row_of(m.served_by(), m.id);
    let mine = kept(rows, p);
    kept_satisfies(rows, p);
    assert(rows.contains(rows[i]) && p(rows[i]));
    assert(mine.contains(rows[i]));
    let last = mine[mine.len() - 1];
    assert(p(last) && rows.contains(last));
    let w = choose|w: int| 0 <= w < rows.len() && rows[w] == last;
    assert(rows[w].provider@ == m.served_by() && rows[w].model_id@ == m.id);
}

// ---------------------------------------------------------------- attempts
/// One attempt more counts for what it was: a success, a fallback, a failure of
/// its category, and for its deployment.
pub proof fn attempts_count_for_what_they_were(
    attempts: Seq<AttemptView>,
    a: AttemptView,
    category: Seq<char>,
    name: Seq<char>,
)
    ensures
        kept(attempts.push(a), is_success()).len() == kept(attempts, is_success()).len() + (if a.success {
            1int
        } else {
            0
        }),
        kept(attempts.push(a), is_fallback()).len() == kept(attempts, is_fallback()).len() + (if a.fallback {
            1int
        } else {
            0
        }),
        category_count(attempts.push(a), category) == category_count(attempts, category) + (
        if !a.success && a.error_category == Some(category) {
            1int
        } else {
            0
        }),
        kept(attempts.push(a), went_to(name)).len() == kept(attempts, went_to(name)).len() + (
        if a.provider + "/"@ + a.model_id + "/"@ + a.key_id == name {
            1int
        } else {
            0
        }),
        kept(attempts.push(a), failed_at(name)).len() == kept(attempts, failed_at(name)).len() + (
        if a.provider + "/"@ + a.model_id + "/"@ + a.key_id == name && !a.success {
            1int
        } else {
            0
        }),
{
    assert(attempts.push(a).drop_last() =~= attempts);
}

/// What is said of a deployment is what its attempts were: how many, how many
/// of them failed, and how the last that failed did.
pub proof fn deployments_are_summed_up(attempts: Seq<AttemptView>, a: AttemptView)
    requires
        attempts.len() < 1_000_000_000,
    ensures
        ({
            let name = deployment_of(a);
            let s = deployment_summary(attempts.push(a), name);
            &&& s.deployment == name
            &&& s.attempts == kept(attempts, went_to(name)).len() + 1
            &&& a.success ==> s.failures == kept(attempts, failed_at(name)).len()
            &&& !a.success ==> s.failures == kept(attempts, failed_at(name)).len() + 1
                && s.last_error_category == a.error_category && s.last_http_status == a.http_status
        }),
{
    let name = deployment_of(a);
    attempts_count_for_what_they_were(attempts, a, Seq::empty(), name);
    crate::lists::kept_all(attempts, went_to(name));
    crate::lists::kept_all(attempts, failed_at(name));
    assert(attempts.push(a).drop_last() =~= attempts);
}

/// More frequent categories come first.
pub proof fn frequent_categories_come_first(attempts: Seq<AttemptView>, i: int, j: int)
    requires
        0 <= i < j < top_categories(attempts).len(),
    ensures
        top_categories(attempts)[i].1 >= top_categories(attempts)[j].1,
{
    let list = failure_categories(attempts).map_values(
        |c: Seq<char>| (c, category_count(attempts, c) as usize),
    );
    sorted_is_in_order(list, larger_count_first());
    let r = top_categories(attempts);
    assert(!larger_count_first()(r[j], r[i]));
}

/// Every category of a failure is listed, with the number of its failures.
pub proof fn categories_are_listed_with_their_counts(attempts: Seq<AttemptView>, i: int)
    requires
        0 <= i < attempts.len() < 1_000_000_000,
        !attempts[i].success,
        attempts[i].error_category is Some,
    ensures
        top_categories(attempts).contains(
            (
                attempts[i].error_category->0,
                category_count(attempts, attempts[i].error_category->0) as usize,
            ),
        ),
        category_count(attempts, attempts[i].error_category->0) > 0,
{
    let f = |a: AttemptView| failure_category(a);
    let c = attempts[i].error_category->0;
    collected_has(attempts, f, i);
    sorted_set_is_increasing(collected(attempts, f));
    let names = failure_categories(attempts);
    assert(names.contains(c));
    let k = choose|k: int| 0 <= k < names.len() && names[k] == c;
    let g = |c: Seq<char>| (c, category_count(attempts, c) as usize);
    let list = names.map_values(g);
    assert(list[k] == g(c));
    assert(list.contains(g(c)));
    sorted_holds_the_same(list, larger_count_first(), g(c));
    kept_satisfies(attempts, failed_with(c));
    assert(attempts.contains(attempts[i]) && failed_with(c)(attempts[i]));
    assert(kept(attempts, failed_with(c)).contains(attempts[i]));
}

/// Deployments that failed more often come first; with as many failures, those
/// that were tried more often. None stands there that did not fail.
pub proof fn failing_deployments_come_first(attempts: Seq<AttemptView>, i: int, j: int)
    requires
        0 <= i < j < failing_deployments(attempts).len(),
    ensures
        ({
            let a = failing_deployments(attempts)[i];
            let b = failing_deployments(attempts)[j];
            &&& a.failures >= b.failures
            &&& a.failures == b.failures ==> a.attempts >= b.attempts
            &&& b.failures > 0
        }),
{
    let f = |n: Seq<char>| deployment_summary(attempts, n);
    let p = |d: DeploymentView| d.failures > 0;
    let all = deployment_names(attempts).map_values(f);
    let list = kept(all, p);
    let r = failing_deployments(attempts);
    sorted_is_in_order(list, hotter());
    assert(!hotter()(r[j], r[i]));
    sorted_holds_the_same(list, hotter(), r[j]);
    assert(r.contains(r[j]));
    kept_satisfies(all, p);
    let w = choose|w: int| 0 <= w < list.len() && list[w] == r[j];
    assert(p(list[w]));
}

/// Every deployment with a failed attempt is among the failing ones.
pub proof fn failed_deployments_are_listed(attempts: Seq<AttemptView>, i: int)
    requires
        0 <= i < attempts.len() < 1_000_000_000,
        !attempts[i].success,
    ensures
        failing_deployments(attempts).contains(
            deployment_summary(attempts, deployment_of(attempts[i])),
        ),
{
    let name = deployment_of(attempts[i]);
    let f = |n: Seq<char>| deployment_summary(attempts, n);
    let p = |d: DeploymentView| d.failures > 0;
    let given = attempts.map_values(|a: AttemptView| deployment_of(a));
    let names = deployment_names(attempts);
    sorted_set_is_increasing(given);
    assert(given[i] == name);
    assert(given.contains(name));
    assert(names.contains(name));
    let k = choose|k: int| 0 <= k < names.len() && names[k] == name;
    let all = names.map_values(f);
    assert(all[k] == f(name));
    assert(all.contains(f(name)));
    kept_satisfies(attempts, failed_at(name));
    assert(attempts.contains(attempts[i]) && failed_at(name)(attempts[i]));
    assert(kept(attempts, failed_at(name)).contains(attempts[i]));
    crate::lists::kept_all(attempts, failed_at(name));
    assert(p(f(name)));
    kept_satisfies(all, p);
    let list = kept(all, p);
    assert(list.contains(f(name)));
    sorted_holds_the_same(list, hotter(), f(name));
}

/// Where two different keys were rate limited at the same provider and model,
/// that pair counts as saturated, with at least two keys.
pub proof fn two_limited_keys_saturate(attempts: Seq<AttemptView>, i: int, j: int)
    requires
        0 <= i < attempts.len() < 1_000_000_000,
        0 <= j < attempts.len(),
        !attempts[i].success && attempts[i].error_category == Some("rate_limited"@),
        !attempts[j].success && attempts[j].error_category == Some("rate_limited"@),
        attempts[i].provider == attempts[j].provider,
        attempts[i].model_id == attempts[j].model_id,
        attempts[i].key_id != attempts[j].key_id,
    ensures
        exists|k: int|
            {
                &&& 0 <= k < saturated_pairs(attempts).len()
                &&& (#[trigger] saturated_pairs(attempts)[k]).provider == attempts[i].provider
                &&& saturated_pairs(attempts)[k].model_id == attempts[i].model_id
                &&& saturated_pairs(attempts)[k].keys >= 2
            },
{
    let pair = (attempts[i].provider, attempts[i].model_id);
    let f = |a: AttemptView| limited_pair(a);
    assert(f(attempts[i]) == Some(pair));
    collected_has(attempts, f, i);
    let found = collected(attempts, f);
    sorted_holds_the_same(found, pair_order(), pair);
    deduped_holds_the_same(sorted(found, pair_order()));
    let pairs = limited_pairs(attempts);
    assert(pairs.contains(pair));
    let n = choose|n: int| 0 <= n < pairs.len() && pairs[n] == pair;
    let g = limited_key(pair);
    assert(g(attempts[i]) == Some(attempts[i].key_id));
    assert(g(attempts[j]) == Some(attempts[j].key_id));
    collected_has(attempts, g, i);
    collected_has(attempts, g, j);
    let keys = collected(attempts, g);
    sorted_set_is_increasing(keys);
    let set = sorted_set(keys);
    assert(set.contains(attempts[i].key_id) && set.contains(attempts[j].key_id));
    let x = choose|x: int| 0 <= x < set.len() && set[x] == attempts[i].key_id;
    let y = choose|y: int| 0 <= y < set.len() && set[y] == attempts[j].key_id;
    assert(x != y);
    assert(set.len() >= 2);
    keys_are_few(attempts, g);
    let h = |p: (Seq<char>, Seq<char>)|
        SaturatedView { provider: p.0, model_id: p.1, keys: limited_keys(attempts, p) as usize };
    let q = |s: SaturatedView| s.keys >= 2;
    let all = pairs.map_values(h);
    assert(all[n] == h(pair));
    assert(all.contains(h(pair)) && q(h(pair)));
    kept_satisfies(all, q);
    let list = kept(all, q);
    assert(list.contains(h(pair)));
    sorted_holds_the_same(list, more_keys_first(), h(pair));
    let r = saturated_pairs(attempts);
    let k = choose|k: int| 0 <= k < r.len() && r[k] == h(pair);
    assert(r[k].provider == attempts[i].provider);
}

proof fn keys_are_few(attempts: Seq<AttemptView>, g: spec_fn(AttemptView) -> Option<Seq<char>>)
    ensures
        sorted_set(collected(attempts, g)).len() <= attempts.len(),
{
    let keys = collected(attempts, g);
    crate::lists::collected_all(attempts, g);
    collected_is_short(attempts, g);
    sorted_is_permutation(keys, crate::sorting::text_order());
    deduped_is_short(sorted(keys, crate::sorting::text_order()));
}

proof fn collected_is_short<T, U>(s: Seq<T>, f: spec_fn(T) -> Option<U>)
    ensures
        collected(s, f).len() <= s.len(),
    decreases s.len(),
{
    if s.len() > 0 {
        collected_is_short(s.drop_last(), f);
    }
}

proof fn deduped_is_short<T>(s: Seq<T>)
    ensures
        deduped(s).len() <= s.len(),
    decreases s.len(),
{
    if s.len() > 0 {
        deduped_is_short(s.drop_last());
    }
}

/// Pairs with more limited keys come first, and each has at least two.
pub proof fn saturated_pairs_come_first(attempts: Seq<AttemptView>, i: int, j: int)
    requires
        0 <= i < j < saturated_pairs(attempts).len(),
    ensures
        saturated_pairs(attempts)[i].keys >= saturated_pairs(attempts)[j].keys,
        saturated_pairs(attempts)[j].keys >= 2,
{
    let h = |p: (Seq<char>, Seq<char>)|
        SaturatedView { provider: p.0, model_id: p.1, keys: limited_keys(attempts, p) as usize };
    let q = |s: SaturatedView| s.keys >= 2;
    let all = limited_pairs(attempts).map_values(h);
    let list = kept(all, q);
    let r = saturated_pairs(attempts);
    sorted_is_in_order(list, more_keys_first());
    assert(!more_keys_first()(r[j], r[i]));
    sorted_holds_the_same(list, more_keys_first(), r[j]);
    assert(r.contains(r[j]));
    kept_satisfies(all, q);
    let w = choose|w: int| 0 <= w < list.len() && list[w] == r[j];
    assert(q(list[w]));
}

/// What is advised names what it is of: the saturated pairs first, then the
/// failing deployments; and there is always some advice.
pub proof fn advice_names_what_it_is_of(attempts: Seq<AttemptView>, i: int)
    ensures
        advice(attempts).len() > 0,
        0 <= i < saturated_pairs(attempts).len() && i < 5 ==> advice(attempts)[i]
            == saturation_advice(saturated_pairs(attempts)[i]),
        saturated_pairs(attempts).len() == 0 && 0 <= i < failing_deployments(attempts).len() && i
            < 10 ==> advice(attempts)[i] == deployment_advice(failing_deployments(attempts)[i]),
        saturated_pairs(attempts).len() == 0 && failing_deployments(attempts).len() == 0
            ==> advice(attempts).len() == 1,
{
}

/// What is advised of a deployment begins with its name; a rate limit, refused
/// credentials and a failure of the provider are advised differently.
pub proof fn advice_depends_on_the_failure(d: DeploymentView)
    ensures
        d.deployment.is_prefix_of(deployment_advice(d)),
        d.last_error_category == Some("auth_failed"@) ==> deployment_advice(d) == d.deployment
            + " should be disabled until credentials are manually fixed"@,
        d.last_error_category == Some("rate_limited"@) ==> deployment_advice(d) == d.deployment
            + " should stay in cooldown/probing until a successful half-open request proves recovery"@,
        d.last_error_category is None ==> deployment_advice(d) == d.deployment
            + " needs more evidence before changing global routing"@,
{
    reveal_strlit("auth_failed");
    reveal_strlit("rate_limited");
    reveal_strlit("upstream_error");
    reveal_strlit("malformed_stream");
    reveal_strlit("empty_response");
    reveal_strlit("region_forbidden");
    assert("auth_failed"@.len() == 11);
    assert("rate_limited"@.len() == 12);
    assert("upstream_error"@.len() == 14);
    assert("malformed_stream"@.len() == 16);
    assert("empty_response"@.len() == 14);
    assert("region_forbidden"@.len() == 16);
    assert("upstream_error"@[0] != "empty_response"@[0]);
    assert("malformed_stream"@[0] != "region_forbidden"@[0]);
    reveal_strlit("model_forbidden");
    assert("auth_failed"@.len() == 11);
    assert("rate_limited"@.len() == 12);
    assert("upstream_error"@.len() == 14);
    assert("malformed_stream"@.len() == 16);
    assert("empty_response"@.len() == 14);
    assert("region_forbidden"@.len() == 16);
    assert("model_forbidden"@.len() == 15);
    assert("upstream_error"@[0] != "empty_response"@[0]);
    assert("malformed_stream"@[0] != "region_forbidden"@[0]);
    let t = deployment_advice(d);
    assert(t.subrange(0, d.deployment.len() as int) =~= d.deployment);
}

/// A deployment that never failed has no last failure, and no more is advised
/// than what is named: five pairs, ten deployments, and one line where there is
/// nothing to say.
pub proof fn advice_is_bounded(attempts: Seq<AttemptView>, name: Seq<char>)
    ensures
        kept(attempts, failed_at(name)).len() == 0 ==> deployment_summary(
            attempts,
            name,
        ).last_error_category is None && deployment_summary(attempts, name).last_http_status
            is None && deployment_summary(attempts, name).failures == 0,
        advice(attempts).len() <= 16,
        saturated_pairs(attempts).len() == 0 && failing_deployments(attempts).len() > 0 ==> advice(
            attempts,
        ).len() == (if failing_deployments(attempts).len() < 10 {
            failing_deployments(attempts).len() as int
        } else {
            10
        }),
{
}

} // verus!
