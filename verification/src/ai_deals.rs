//! Deals read out of an AI model's answer about flyer images.

use vstd::prelude::*;
use crate::models::{collect_some, lemma_collect_some_push, tuple_view, tuple_views, DealTuple};
use crate::text::{
    clone_opt, lowercase_of, no_ascii_upper, or_empty, to_lowercase, trim, trim_str, trimmed_nonempty,
    trimmed_nonempty_exec,
};

verus! {

/// One deal as the model described it: each field present only when the
/// model gave it as a string (or, for grid positions, as an unsigned number).
#[derive(Debug, Clone)]
pub struct AiDealItem {
    pub item_name: Option<String>,
    pub brand: Option<String>,
    pub deal_description: Option<String>,
    pub category: Option<String>,
    pub row: Option<u64>,
    pub col: Option<u64>,
}

/// The text, or `default` when absent.
pub open spec fn or_default(o: Option<String>, default: Seq<char>) -> Seq<char> {
    match o {
        Some(s) => s@,
        None => default,
    }
}

/// The deal an item becomes: items without a (non-blank) name are dropped; the
/// name and brand are trimmed, the description defaults to `On Sale`, and the
/// category to `default_category`, trimmed and lower-cased.
pub open spec fn ai_item_deal(item: AiDealItem, default_category: Seq<char>) -> Option<
    (Seq<char>, Option<Seq<char>>, Seq<char>, Seq<char>, Option<Seq<char>>),
> {
    match item.item_name {
        None => None,
        Some(n) => if trim(n@).len() == 0 {
            None
        } else {
            Some(
                (
                    trim(n@),
                    trimmed_nonempty(item.brand),
                    trim(or_default(item.deal_description, "On Sale"@)),
                    lowercase_of(trim(or_default(item.category, default_category))),
                    None,
                ),
            )
        },
    }
}

fn or_default_exec(o: &Option<String>, default: &str) -> (r: String)
    ensures
        r@ == or_default(*o, default@),
{
    match o {
        Some(s) => s.clone(),
        None => default.to_string(),
    }
}

/// The deal an item becomes, if it names one.
pub fn ai_item_to_deal(item: &AiDealItem, default_category: &str) -> (r: Option<DealTuple>)
    ensures
        match r {
            Some(t) => ai_item_deal(*item, default_category@) == Some(tuple_view(t)) && no_ascii_upper(t.3@),
            None => ai_item_deal(*item, default_category@) is None,
        },
{
    let name = match &item.item_name {
        Some(n) => trim_str(n.as_str()),
        None => return None,
    };
    if name.as_str().is_empty() {
        return None;
    }
    let brand = trimmed_nonempty_exec(&item.brand);
    let description = trim_str(or_default_exec(&item.deal_description, "On Sale").as_str());
    let category_text = trim_str(or_default_exec(&item.category, default_category).as_str());
    let category = to_lowercase(category_text.as_str());
    Some((name, brand, description, category, None))
}

/// The deals of a list of items, in order.
pub open spec fn ai_items_deals(items: Seq<AiDealItem>, default_category: Seq<char>) -> Seq<
    (Seq<char>, Option<Seq<char>>, Seq<char>, Seq<char>, Option<Seq<char>>),
> {
    collect_some(items.map_values(|i: AiDealItem| ai_item_deal(i, default_category)))
}

/// The deals named by the model's items; unnamed items are skipped.
pub fn ai_items_to_deals(items: &[AiDealItem], default_category: &str) -> (r: Vec<DealTuple>)
    ensures
        tuple_views(r@) == ai_items_deals(items@, default_category@),
        forall|i: int| 0 <= i < r@.len() ==> no_ascii_upper(#[trigger] r@[i].3@),
{
    let mut r: Vec<DealTuple> = Vec::new();
    let mut i: usize = 0;
    while i < items.len()
        invariant
            i <= items.len(),
            tuple_views(r@) == ai_items_deals(items@.take(i as int), default_category@),
            forall|k: int| 0 <= k < r@.len() ==> no_ascii_upper(#[trigger] r@[k].3@),
        decreases items.len() - i,
    {
        let d = ai_item_to_deal(&items[i], default_category);
        proof {
            let s = items@.take(i as int).map_values(|x: AiDealItem| ai_item_deal(x, default_category@));
            assert(items@.take(i + 1).map_values(|x: AiDealItem| ai_item_deal(x, default_category@)) =~= s.push(
                ai_item_deal(items@[i as int], default_category@),
            ));
            lemma_collect_some_push(s, ai_item_deal(items@[i as int], default_category@));
        }
        match d {
            Some(t) => {
                r.push(t);
                assert(tuple_views(r@) =~= tuple_views(r@.drop_last()).push(tuple_view(r@.last())));
            },
            None => {},
        }
        i += 1;
    }
    assert(items@.take(items.len() as int) =~= items@);
    r
}

/// Deals that the model found on the screenshots of a weekly ad page; the
/// category defaults to `other`.
pub fn screenshot_items_to_deals(items: &[AiDealItem]) -> (r: Vec<DealTuple>)
    ensures
        tuple_views(r@) == ai_items_deals(items@, "other"@),
        forall|i: int| 0 <= i < r@.len() ==> no_ascii_upper(#[trigger] r@[i].3@),
{
    ai_items_to_deals(items, "other")
}

/// Deals that the model found on a monthly ad; the category defaults to `uncategorized`.
pub fn monthly_items_to_deals(items: &[AiDealItem]) -> (r: Vec<DealTuple>)
    ensures
        tuple_views(r@) == ai_items_deals(items@, "uncategorized"@),
        forall|i: int| 0 <= i < r@.len() ==> no_ascii_upper(#[trigger] r@[i].3@),
{
    ai_items_to_deals(items, "uncategorized")
}

} // verus!
