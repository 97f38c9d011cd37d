//! Meal ideas: the prompt listing the week's deals, and the checks on the
//! ingredients that the model says are on sale.

use vstd::prelude::*;
use crate::models::{Deal, SaleIngredient};
use crate::text::{i64_to_string, join, join_strings, opt_view, signed_decimal, views};

verus! {

/// The answer length allowed to the meal model.
pub const MEALS_MAX_TOKENS: u32 = 4096;

/// An ingredient the model says is on sale, with the id of its deal.
#[derive(Debug, Clone)]
pub struct IngredientRef {
    pub ingredient: String,
    pub deal_id: i64,
}

/// One meal as the model suggested it.
#[derive(Debug, Clone)]
pub struct MealSuggestion {
    pub name: String,
    pub description: String,
    pub on_sale_ingredients: Vec<IngredientRef>,
    pub additional_ingredients: Vec<String>,
    pub estimated_savings: String,
}

/// A meal ready to store: `(name, description, on_sale_ingredients,
/// additional_ingredients, estimated_savings)`.
pub type MealTuple = (String, String, Vec<SaleIngredient>, Vec<String>, String);

/// The line of a deal in the prompt: `- [ID:{id}] {item} ({brand}): {description} [{category}]`,
/// without the brand part when there is none.
pub open spec fn deal_line(d: Deal) -> Seq<char> {
    "- [ID:"@ + signed_decimal(d.id as int) + "] "@ + d.item_name@ + match opt_view(d.brand) {
        Some(b) => " ("@ + b + ")"@,
        None => Seq::empty(),
    } + ": "@ + d.deal_description@ + " ["@ + d.category@ + "]"@
}

/// The deals, one line each.
pub open spec fn deals_list(deals: Seq<Deal>) -> Seq<char> {
    join(deals.map_values(|d: Deal| deal_line(d)), "\n"@)
}

/// The deals listed for the meal prompt, one per line.
pub fn format_deals_list(deals: &[Deal]) -> (r: String)
    ensures
        r@ == deals_list(deals@),
{
    let mut lines: Vec<String> = Vec::new();
    let mut i: usize = 0;
    while i < deals.len()
        invariant
            i <= deals.len(),
            views(lines@) == deals@.take(i as int).map_values(|d: Deal| deal_line(d)),
        decreases deals.len() - i,
    {
        let d = &deals[i];
        let mut line = "- [ID:".to_string();
        let id = i64_to_string(d.id);
        line.append(id.as_str());
        line.append("] ");
        line.append(d.item_name.as_str());
        match &d.brand {
            Some(b) => {
                line.append(" (");
                line.append(b.as_str());
                line.append(")");
            },
            None => {},
        }
        line.append(": ");
        line.append(d.deal_description.as_str());
        line.append(" [");
        line.append(d.category.as_str());
        line.append("]");
        assert(line@ =~= deal_line(deals@[i as int]));
        let ghost before = views(lines@);
        let ghost lv = line@;
        lines.push(line);
        proof {
            assert(views(lines@) =~= before.push(lv));
            assert(deals@.take(i + 1).map_values(|d: Deal| deal_line(d)) =~= deals@.take(i as int).map_values(
                |d: Deal| deal_line(d),
            ).push(deal_line(deals@[i as int])));
        }
        i += 1;
    }
    assert(deals@.take(deals.len() as int) =~= deals@);
    join_strings(&lines, "\n")
}

/// The opening of the meal prompt, before the deal list.
pub open spec fn meal_prompt_intro() -> Seq<char> {
    "You are a helpful meal planning assistant. Based on the grocery deals below, suggest 5-8 meal ideas that take advantage of items currently on sale.\n\nCurrent deals:\n"@
}

/// What the meal prompt asks for, after the deal list.
pub open spec fn meal_prompt_instructions() -> Seq<char> {
    "\n\nFor each meal, respond with a JSON array of objects with these fields:\n- \"name\": short meal name\n- \"description\": 1-2 sentence description of the dish\n- \"on_sale_ingredients\": array of objects, each with \"ingredient\" (string) and \"deal_id\" (number matching the ID from the deals list above)\n- \"additional_ingredients\": array of common pantry/fridge items needed that aren't on sale\n- \"estimated_savings\": approximate savings compared to regular prices (e.g., \"$5-8\")\n\nFocus on practical, delicious meals. Prefer meals that use multiple on-sale items. Output ONLY the JSON array, no other text."@
}

/// The prompt asking for meal ideas around the deals.
pub open spec fn meal_prompt(deals: Seq<Deal>) -> Seq<char> {
    meal_prompt_intro() + deals_list(deals) + meal_prompt_instructions()
}

/// The prompt asking the model for 5-8 meals that use the deals.
pub fn build_meal_prompt(deals: &[Deal]) -> (r: String)
    ensures
        r@ == meal_prompt(deals@),
{
    let list = format_deals_list(deals);
    let mut prompt = "You are a helpful meal planning assistant. Based on the grocery deals below, suggest 5-8 meal ideas that take advantage of items currently on sale.\n\nCurrent deals:\n".to_string();
    prompt.append(list.as_str());
    prompt.append(
        "\n\nFor each meal, respond with a JSON array of objects with these fields:\n- \"name\": short meal name\n- \"description\": 1-2 sentence description of the dish\n- \"on_sale_ingredients\": array of objects, each with \"ingredient\" (string) and \"deal_id\" (number matching the ID from the deals list above)\n- \"additional_ingredients\": array of common pantry/fridge items needed that aren't on sale\n- \"estimated_savings\": approximate savings compared to regular prices (e.g., \"$5-8\")\n\nFocus on practical, delicious meals. Prefer meals that use multiple on-sale items. Output ONLY the JSON array, no other text.",
    );
    prompt
}

/// Whether some deal has the id.
pub open spec fn is_deal_id(deals: Seq<Deal>, id: i64) -> bool {
    exists|i: int| 0 <= i < deals.len() && deals[i].id == id
}

fn has_deal_id(deals: &[Deal], id: i64) -> (r: bool)
    ensures
        r == is_deal_id(deals@, id),
{
    let mut i: usize = 0;
    while i < deals.len()
        invariant
            i <= deals.len(),
            forall|k: int| 0 <= k < i ==> deals@[k].id != id,
        decreases deals.len() - i,
    {
        if deals[i].id == id {
            return true;
        }
        i += 1;
    }
    false
}

/// The ingredients that refer to one of the deals, in order.
pub open spec fn valid_ingredients(ingredients: Seq<IngredientRef>, deals: Seq<Deal>) -> Seq<(Seq<char>, i64)>
    decreases ingredients.len(),
{
    if ingredients.len() == 0 {
        Seq::empty()
    } else {
        let prev = valid_ingredients(ingredients.drop_last(), deals);
        let last = ingredients.last();
        if is_deal_id(deals, last.deal_id) {
            prev.push((last.ingredient@, last.deal_id))
        } else {
            prev
        }
    }
}

/// The characters and deal ids of sale ingredients.
pub open spec fn sale_views(v: Seq<SaleIngredient>) -> Seq<(Seq<char>, i64)> {
    v.map_values(|s: SaleIngredient| (s.ingredient@, s.deal_id))
}

/// Keeps only the ingredients whose deal id is one of the deals'.
pub fn validate_ingredient_ids(ingredients: Vec<IngredientRef>, deals: &[Deal]) -> (r: Vec<SaleIngredient>)
    ensures
        sale_views(r@) == valid_ingredients(ingredients@, deals@),
        r@.len() <= ingredients@.len(),
        forall|j: int| 0 <= j < r@.len() ==> is_deal_id(deals@, (#[trigger] r@[j]).deal_id)
            && ingredient_views(ingredients@).contains((r@[j].ingredient@, r@[j].deal_id)),
        forall|k: int| 0 <= k < ingredients@.len() && is_deal_id(deals@, (#[trigger] ingredients@[k]).deal_id)
            ==> sale_views(r@).contains((ingredients@[k].ingredient@, ingredients@[k].deal_id)),
{
    let mut r: Vec<SaleIngredient> = Vec::new();
    let mut i: usize = 0;
    while i < ingredients.len()
        invariant
            i <= ingredients.len(),
            sale_views(r@) == valid_ingredients(ingredients@.take(i as int), deals@),
        decreases ingredients.len() - i,
    {
        assert(ingredients@.take(i + 1).drop_last() =~= ingredients@.take(i as int));
        if has_deal_id(deals, ingredients[i].deal_id) {
            let s = SaleIngredient { ingredient: ingredients[i].ingredient.clone(), deal_id: ingredients[i].deal_id };
            r.push(s);
            assert(sale_views(r@) =~= sale_views(r@.drop_last()).push((r@.last().ingredient@, r@.last().deal_id)));
        }
        i += 1;
    }
    assert(ingredients@.take(ingredients.len() as int) =~= ingredients@);
    proof {
        lemma_valid_ingredients_refer_to_deals(ingredients@, deals@);
        assert forall|j: int| 0 <= j < r@.len() implies is_deal_id(deals@, (#[trigger] r@[j]).deal_id)
            && ingredient_views(ingredients@).contains((r@[j].ingredient@, r@[j].deal_id)) by {
            assert(sale_views(r@)[j] == (r@[j].ingredient@, r@[j].deal_id));
        }
    }
    r
}

/// The meal a suggestion becomes: its fields, with only valid sale ingredients.
pub open spec fn meal_of(s: MealSuggestion, deals: Seq<Deal>) -> (Seq<char>, Seq<char>, Seq<(Seq<char>, i64)>, Seq<Seq<char>>, Seq<char>) {
    (s.name@, s.description@, valid_ingredients(s.on_sale_ingredients@, deals), views(s.additional_ingredients@), s.estimated_savings@)
}

/// The characters and deal ids of the ingredients a suggestion names as on sale.
pub open spec fn ingredient_views(v: Seq<IngredientRef>) -> Seq<(Seq<char>, i64)> {
    v.map_values(|r: IngredientRef| (r.ingredient@, r.deal_id))
}

/// Validating keeps exactly the ingredients that refer to a deal: each kept
/// one is one of the given ingredients and its deal id is a deal's, and each
/// given ingredient whose deal id is a deal's is kept.
pub proof fn lemma_valid_ingredients_refer_to_deals(ingredients: Seq<IngredientRef>, deals: Seq<Deal>)
    ensures
        valid_ingredients(ingredients, deals).len() <= ingredients.len(),
        forall|j: int| 0 <= j < valid_ingredients(ingredients, deals).len() ==> is_deal_id(
            deals,
            (#[trigger] valid_ingredients(ingredients, deals)[j]).1,
        ) && ingredient_views(ingredients).contains(valid_ingredients(ingredients, deals)[j]),
        forall|k: int| 0 <= k < ingredients.len() && is_deal_id(deals, (#[trigger] ingredients[k]).deal_id)
            ==> valid_ingredients(ingredients, deals).contains((ingredients[k].ingredient@, ingredients[k].deal_id)),
    decreases ingredients.len(),
{
    if ingredients.len() > 0 {
        let init = ingredients.drop_last();
        lemma_valid_ingredients_refer_to_deals(init, deals);
        let v = valid_ingredients(ingredients, deals);
        let p = valid_ingredients(init, deals);
        let last = ingredients.len() - 1;
        let iv = ingredient_views(ingredients);
        let pv = ingredient_views(init);
        assert(ingredients[last] == ingredients.last());
        assert forall|j: int| 0 <= j < v.len() implies is_deal_id(deals, (#[trigger] v[j]).1) && iv.contains(v[j]) by {
            if j < p.len() {
                assert(v[j] == p[j]);
                let m = choose|m: int| 0 <= m < pv.len() && pv[m] == p[j];
                assert(init[m] == ingredients[m]);
                assert(iv[m] == v[j]);
            } else {
                assert(iv[last] == v[j]);
            }
        }
        assert forall|k: int| 0 <= k < ingredients.len() && is_deal_id(deals, (#[trigger] ingredients[k]).deal_id)
            implies v.contains((ingredients[k].ingredient@, ingredients[k].deal_id)) by {
            if k < last {
                assert(init[k] == ingredients[k]);
                let j = choose|j: int| 0 <= j < p.len() && p[j] == (init[k].ingredient@, init[k].deal_id);
                assert(v[j] == p[j]);
            } else {
                assert(v[v.len() - 1] == (ingredients[k].ingredient@, ingredients[k].deal_id));
            }
        }
    }
}

/// Validation goes ingredient by ingredient, in order: the ingredients of two
/// lists put together are validated as the first list followed by the second,
/// and a single ingredient is kept exactly when its deal id is a deal's.
pub proof fn lemma_valid_ingredients_in_order(a: Seq<IngredientRef>, b: Seq<IngredientRef>, x: IngredientRef, deals: Seq<Deal>)
    ensures
        valid_ingredients(a + b, deals) == valid_ingredients(a, deals) + valid_ingredients(b, deals),
        valid_ingredients(seq![x], deals) == if is_deal_id(deals, x.deal_id) {
            seq![(x.ingredient@, x.deal_id)]
        } else {
            Seq::<(Seq<char>, i64)>::empty()
        },
    decreases b.len(),
{
    assert(seq![x].drop_last() =~= Seq::<IngredientRef>::empty());
    assert(valid_ingredients(seq![x].drop_last(), deals) =~= Seq::<(Seq<char>, i64)>::empty());
    assert(seq![x].last() == x);
    assert(valid_ingredients(seq![x], deals) =~= if is_deal_id(deals, x.deal_id) {
        seq![(x.ingredient@, x.deal_id)]
    } else {
        Seq::<(Seq<char>, i64)>::empty()
    });
    if b.len() == 0 {
        assert(a + b =~= a);
        assert(valid_ingredients(a, deals) + valid_ingredients(b, deals) =~= valid_ingredients(a, deals));
    } else {
        lemma_valid_ingredients_in_order(a, b.drop_last(), x, deals);
        assert((a + b).drop_last() =~= a + b.drop_last());
        assert((a + b).last() == b.last());
        let va = valid_ingredients(a, deals);
        let vb = valid_ingredients(b.drop_last(), deals);
        let y = (b.last().ingredient@, b.last().deal_id);
        assert((va + vb).push(y) =~= va + vb.push(y));
    }
}

/// The characters of a meal's fields, as `meal_view` gives them.
pub type MealView = (Seq<char>, Seq<char>, Seq<(Seq<char>, i64)>, Seq<Seq<char>>, Seq<char>);

/// Meal `m` keeps suggestion `s`: its name, description, additional
/// ingredients and estimated savings are the suggestion's own, and its sale
/// ingredients are those of the suggestion whose deal id is one of the deals'.
pub open spec fn meal_keeps_suggestion(m: MealView, s: MealSuggestion, deals: Seq<Deal>) -> bool {
    &&& m.0 == s.name@
    &&& m.1 == s.description@
    &&& m.3 == views(s.additional_ingredients@)
    &&& m.4 == s.estimated_savings@
    &&& forall|j: int| 0 <= j < m.2.len() ==> is_deal_id(deals, (#[trigger] m.2[j]).1)
        && ingredient_views(s.on_sale_ingredients@).contains(m.2[j])
    &&& forall|k: int| 0 <= k < s.on_sale_ingredients@.len() && is_deal_id(
        deals,
        (#[trigger] s.on_sale_ingredients@[k]).deal_id,
    ) ==> m.2.contains((s.on_sale_ingredients@[k].ingredient@, s.on_sale_ingredients@[k].deal_id))
}

/// The meal a suggestion becomes passes its fields through unchanged but for
/// the sale ingredients, of which it keeps exactly those that refer to a deal.
pub proof fn lemma_meal_keeps_suggestion(s: MealSuggestion, deals: Seq<Deal>)
    ensures
        meal_keeps_suggestion(meal_of(s, deals), s, deals),
{
    lemma_valid_ingredients_refer_to_deals(s.on_sale_ingredients@, deals);
}

/// The characters of a meal tuple.
pub open spec fn meal_view(m: MealTuple) -> (Seq<char>, Seq<char>, Seq<(Seq<char>, i64)>, Seq<Seq<char>>, Seq<char>) {
    (m.0@, m.1@, sale_views(m.2@), views(m.3@), m.4@)
}

/// Turns the model's suggestions into meals, dropping sale ingredients that
/// refer to no deal.
pub fn suggestions_to_meals(suggestions: Vec<MealSuggestion>, deals: &[Deal]) -> (r: Vec<MealTuple>)
    ensures
        r@.map_values(|m: MealTuple| meal_view(m)) == suggestions@.map_values(|s: MealSuggestion| meal_of(s, deals@)),
        r@.len() == suggestions@.len(),
        forall|i: int| 0 <= i < r@.len() ==> meal_keeps_suggestion(meal_view(#[trigger] r@[i]), suggestions@[i], deals@),
{
    let ghost input = suggestions@;
    let mut rest = suggestions;
    assert(rest@ =~= input.skip(0));
    let mut out: Vec<MealTuple> = Vec::new();
    let n = rest.len();
    let mut i: usize = 0;
    while i < n
        invariant
            i <= n == input.len(),
            rest@ == input.skip(i as int),
            out@.map_values(|m: MealTuple| meal_view(m)) == input.take(i as int).map_values(
                |s: MealSuggestion| meal_of(s, deals@),
            ),
        decreases n - i,
    {
        let s = rest.remove(0);
        assert(s == input[i as int]);
        assert(rest@ =~= input.skip(i + 1));
        let ingredients = validate_ingredient_ids(s.on_sale_ingredients, deals);
        let m: MealTuple = (s.name, s.description, ingredients, s.additional_ingredients, s.estimated_savings);
        let ghost before = out@;
        out.push(m);
        proof {
            assert(out@.map_values(|m: MealTuple| meal_view(m)) =~= before.map_values(|m: MealTuple| meal_view(m)).push(
                meal_view(out@.last()),
            ));
            assert(input.take(i + 1).map_values(|s: MealSuggestion| meal_of(s, deals@)) =~= input.take(i as int).map_values(
                |s: MealSuggestion| meal_of(s, deals@),
            ).push(meal_of(input[i as int], deals@)));
        }
        i += 1;
    }
    assert(input.take(n as int) =~= input);
    proof {
        assert forall|i: int| 0 <= i < out@.len() implies meal_keeps_suggestion(meal_view(#[trigger] out@[i]), input[i], deals@) by {
            assert(out@.map_values(|m: MealTuple| meal_view(m))[i] == meal_view(out@[i]));
            lemma_meal_keeps_suggestion(input[i], deals@);
        }
    }
    out
}

} // verus!
