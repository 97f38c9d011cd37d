//! The records that the server stores and returns.

use vstd::prelude::*;
use crate::text::opt_view;

verus! {

/// A grocery chain that the app knows how to fetch deals for.
#[derive(Debug, Clone)]
pub struct StoreChain {
    pub id: String,
    pub name: String,
    pub uses_flipp: bool,
}

/// One weekly-ad deal, as stored for a location and week.
#[derive(Debug, Clone)]
pub struct Deal {
    pub id: i64,
    pub location_id: i64,
    pub week_id: String,
    pub item_name: String,
    pub brand: Option<String>,
    pub deal_description: String,
    pub category: String,
    pub image_url: Option<String>,
    pub valid_from: Option<String>,
    pub valid_to: Option<String>,
    pub fetched_at: String,
}

/// A deal before it is stored: `(item_name, brand, deal_description, category, image_url)`.
pub type DealTuple = (String, Option<String>, String, String, Option<String>);

/// A deal tuple's fields as characters.
pub type DealView = (Seq<char>, Option<Seq<char>>, Seq<char>, Seq<char>, Option<Seq<char>>);

/// The characters of a deal tuple's fields.
pub open spec fn tuple_view(t: DealTuple) -> (Seq<char>, Option<Seq<char>>, Seq<char>, Seq<char>, Option<Seq<char>>) {
    (t.0@, opt_view(t.1), t.2@, t.3@, opt_view(t.4))
}

/// The views of a list of deal tuples.
pub open spec fn tuple_views(v: Seq<DealTuple>) -> Seq<(Seq<char>, Option<Seq<char>>, Seq<char>, Seq<char>, Option<Seq<char>>)> {
    v.map_values(|t: DealTuple| tuple_view(t))
}

/// The present values of a sequence of options, in order (what `filter_map` keeps).
pub open spec fn collect_some<A>(s: Seq<Option<A>>) -> Seq<A>
    decreases s.len(),
{
    if s.len() == 0 {
        Seq::empty()
    } else {
        match s.last() {
            Some(a) => collect_some(s.drop_last()).push(a),
            None => collect_some(s.drop_last()),
        }
    }
}

/// Collecting after a push adds the pushed value when it is present.
pub proof fn lemma_collect_some_push<A>(s: Seq<Option<A>>, x: Option<A>)
    ensures
        collect_some(s.push(x)) == match x {
            Some(a) => collect_some(s).push(a),
            None => collect_some(s),
        },
{
    assert(s.push(x).drop_last() =~= s);
}

/// No more values are collected than there are options.
pub proof fn lemma_collect_some_len<A>(s: Seq<Option<A>>)
    ensures
        collect_some(s).len() <= s.len(),
    decreases s.len(),
{
    if s.len() > 0 {
        lemma_collect_some_len(s.drop_last());
    }
}

/// Each collected value is present at some position, and each present value is collected.
pub proof fn lemma_collect_some_members<A>(s: Seq<Option<A>>)
    ensures
        forall|j: int| 0 <= j < collect_some(s).len() ==> exists|i: int| 0 <= i < s.len() && s[i] == Some(#[trigger] collect_some(s)[j]),
        forall|i: int| 0 <= i < s.len() && (#[trigger] s[i]) is Some ==> collect_some(s).contains(s[i]->0),
    decreases s.len(),
{
    if s.len() > 0 {
        let init = s.drop_last();
        lemma_collect_some_members(init);
        let c = collect_some(s);
        let ci = collect_some(init);
        assert forall|j: int| 0 <= j < c.len() implies exists|i: int| 0 <= i < s.len() && s[i] == Some(#[trigger] c[j]) by {
            if j < ci.len() {
                assert(c[j] == ci[j]);
                let i = choose|i: int| 0 <= i < init.len() && init[i] == Some(ci[j]);
                assert(s[i] == init[i]);
            } else {
                assert(s[s.len() - 1] == Some(c[j]));
            }
        }
        assert forall|i: int| 0 <= i < s.len() && (#[trigger] s[i]) is Some implies c.contains(s[i]->0) by {
            if i < s.len() - 1 {
                assert(init[i] == s[i]);
                let j = choose|j: int| 0 <= j < ci.len() && ci[j] == init[i]->0;
                assert(c[j] == ci[j]);
            } else {
                assert(c[c.len() - 1] == s[i]->0);
            }
        }
    }
}

/// The deals answer for one chain and zip code.
#[derive(Debug)]
pub struct DealsResponse {
    pub chain_id: String,
    pub zip_code: String,
    pub valid_from: Option<String>,
    pub valid_to: Option<String>,
    pub deals: Vec<Deal>,
    pub cached: bool,
}

/// A store of some chain, resolved for a zip code.
#[derive(Debug, Clone)]
pub struct StoreLocation {
    pub id: i64,
    pub chain_id: String,
    pub name: String,
    pub address: Option<String>,
    pub zip_code: String,
    pub flipp_merchant_id: Option<i64>,
    pub flipp_merchant_name: Option<String>,
    pub weekly_ad_url: Option<String>,
    pub created_at: String,
}

/// What is needed to create a store location.
#[derive(Debug)]
pub struct CreateLocationRequest {
    pub chain_id: String,
    pub name: String,
    pub address: Option<String>,
    pub zip_code: String,
    pub flipp_merchant_id: Option<i64>,
    pub flipp_merchant_name: Option<String>,
    pub weekly_ad_url: Option<String>,
}

/// An ingredient of a meal idea that is on sale, with the deal it comes from.
#[derive(Debug, Clone)]
pub struct SaleIngredient {
    pub ingredient: String,
    pub deal_id: i64,
}

/// A meal idea built around the deals of a week.
#[derive(Debug, Clone)]
pub struct MealIdea {
    pub id: i64,
    pub location_id: i64,
    pub week_id: String,
    pub name: String,
    pub description: String,
    pub on_sale_ingredients: Vec<SaleIngredient>,
    pub additional_ingredients: Vec<String>,
    pub estimated_savings: String,
    pub fetched_at: String,
}

/// The meals answer for one chain and zip code.
#[derive(Debug)]
pub struct MealsResponse {
    pub chain_id: String,
    pub zip_code: String,
    pub valid_from: Option<String>,
    pub valid_to: Option<String>,
    pub meals: Vec<MealIdea>,
    pub deals: Vec<Deal>,
    pub cached: bool,
}

/// The chains listed by the chains endpoint.
pub open spec fn spec_supported_chains() -> Seq<(Seq<char>, Seq<char>, bool)> {
    seq![("whole-foods"@, "Whole Foods"@, false)]
}

/// The chains that the app supports, as `(id, name, uses_flipp)`.
pub fn supported_chains() -> (r: Vec<StoreChain>)
    ensures
        r@.len() == spec_supported_chains().len(),
        forall|i: int|
            0 <= i < r@.len() ==> (#[trigger] r@[i].id@, r@[i].name@, r@[i].uses_flipp)
                == spec_supported_chains()[i],
{
    let mut v = Vec::new();
    v.push(StoreChain { id: "whole-foods".to_string(), name: "Whole Foods".to_string(), uses_flipp: false });
    v
}

} // verus!
