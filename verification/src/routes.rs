//! The decisions behind the HTTP endpoints: which source a location's deals
//! come from, how locations are created, and how fetched deals are completed.

use vstd::prelude::*;
use crate::categorize::BATCH_SIZE;
use crate::error::AppError;
use crate::flipp::{match_view, FlippStoreMatch};
use crate::keyed::{text_map, KeyedStore};
use crate::models::{tuple_view, tuple_views, CreateLocationRequest, Deal, DealTuple, DealsResponse, StoreLocation};
use crate::text::{clone_opt, opt_view, str_eq, views};
use crate::whole_foods::{sales_flyer_url, sales_flyer_url_text};

verus! {

/// The `valid_from` of the first deal, if any.
pub open spec fn first_valid_from(deals: Seq<Deal>) -> Option<Seq<char>> {
    if deals.len() > 0 {
        opt_view(deals[0].valid_from)
    } else {
        None
    }
}

/// The `valid_to` of the first deal, if any.
pub open spec fn first_valid_to(deals: Seq<Deal>) -> Option<Seq<char>> {
    if deals.len() > 0 {
        opt_view(deals[0].valid_to)
    } else {
        None
    }
}

/// The dates of the first deal, copied.
pub fn first_deal_dates(deals: &[Deal]) -> (r: (Option<String>, Option<String>))
    ensures
        opt_view(r.0) == first_valid_from(deals@),
        opt_view(r.1) == first_valid_to(deals@),
{
    if deals.len() > 0 {
        (clone_opt(&deals[0].valid_from), clone_opt(&deals[0].valid_to))
    } else {
        (None, None)
    }
}

/// The deals answer: the deals, with the validity dates of the first one.
pub fn build_deals_response(chain_id: String, zip_code: String, deals: Vec<Deal>, cached: bool) -> (r: DealsResponse)
    ensures
        r.chain_id == chain_id,
        r.zip_code == zip_code,
        r.deals@ == deals@,
        r.cached == cached,
        opt_view(r.valid_from) == first_valid_from(deals@),
        opt_view(r.valid_to) == first_valid_to(deals@),
{
    let (valid_from, valid_to) = first_deal_dates(deals.as_slice());
    DealsResponse { chain_id, zip_code, valid_from, valid_to, deals, cached }
}

/// Where a location's deals come from.
#[derive(Debug, Clone, Copy, PartialEq, Eq, Structural)]
pub enum DealSource {
    /// The chain's Flipp flyer.
    Flipp,
    /// H Mart's flyer images.
    HMart,
    /// The Whole Foods sales flyer page, falling back to screenshots.
    WholeFoods,
    /// Screenshots of the location's weekly ad page.
    Screenshots,
}

/// Locations with a Flipp merchant use Flipp; H Mart has its own pipeline;
/// Whole Foods is scraped; any other chain is read from screenshots.
pub open spec fn source_of(flipp_merchant_id: Option<i64>, chain_id: Seq<char>) -> DealSource {
    if flipp_merchant_id is Some {
        DealSource::Flipp
    } else if chain_id == "h-mart"@ {
        DealSource::HMart
    } else if chain_id == "whole-foods"@ {
        DealSource::WholeFoods
    } else {
        DealSource::Screenshots
    }
}

/// The source of a location's deals.
pub fn deal_source(location: &StoreLocation) -> (r: DealSource)
    ensures
        r == source_of(location.flipp_merchant_id, location.chain_id@),
{
    if location.flipp_merchant_id.is_some() {
        DealSource::Flipp
    } else if str_eq(location.chain_id.as_str(), "h-mart") {
        DealSource::HMart
    } else if str_eq(location.chain_id.as_str(), "whole-foods") {
        DealSource::WholeFoods
    } else {
        DealSource::Screenshots
    }
}

/// The flyer of a location among search results: the first of the location's
/// merchant or chain.
pub open spec fn flyer_of(matches: Seq<FlippStoreMatch>, merchant_id: Option<i64>, chain_id: Seq<char>) -> Option<int> {
    if exists|i: int| 0 <= i < matches.len() && (matches[i].merchant_id == merchant_id || matches[i].chain_id@ == chain_id) {
        Some(choose|i: int| 0 <= i < matches.len() && (matches[i].merchant_id == merchant_id || matches[i].chain_id@ == chain_id)
            && forall|k: int| 0 <= k < i ==> !(matches[k].merchant_id == merchant_id || matches[k].chain_id@ == chain_id))
    } else {
        None
    }
}

/// The index of the location's flyer among the search results.
pub fn flyer_for_location(matches: &[FlippStoreMatch], location: &StoreLocation) -> (r: Option<usize>)
    ensures
        flyer_of(matches@, location.flipp_merchant_id, location.chain_id@) == match r {
            Some(i) => Some(i as int),
            None => None::<int>,
        },
{
    let mut i: usize = 0;
    while i < matches.len()
        invariant
            i <= matches.len(),
            forall|k: int| 0 <= k < i ==> !(matches@[k].merchant_id == location.flipp_merchant_id || matches@[k].chain_id@
                == location.chain_id@),
        decreases matches.len() - i,
    {
        if matches[i].merchant_id == location.flipp_merchant_id || str_eq(
            matches[i].chain_id.as_str(),
            location.chain_id.as_str(),
        ) {
            proof {
                let m = matches@;
                let p = |j: int| 0 <= j < m.len() && (m[j].merchant_id == location.flipp_merchant_id || m[j].chain_id@
                    == location.chain_id@);
                assert(p(i as int));
                let c = choose|j: int| 0 <= j < m.len() && (m[j].merchant_id == location.flipp_merchant_id
                    || m[j].chain_id@ == location.chain_id@) && forall|k: int|
                    0 <= k < j ==> !(m[k].merchant_id == location.flipp_merchant_id || m[k].chain_id@ == location.chain_id@);
                assert(forall|k: int| 0 <= k < i ==> !(m[k].merchant_id == location.flipp_merchant_id || m[k].chain_id@
                    == location.chain_id@));
                if c < i {
                } else if c > i {
                }
            }
            return Some(i);
        }
        i += 1;
    }
    None
}

/// A deal tuple with the vision text, when its description was only `On Sale`.
pub open spec fn with_vision_text(
    t: (Seq<char>, Option<Seq<char>>, Seq<char>, Seq<char>, Option<Seq<char>>),
    extracted: Map<Seq<char>, Seq<char>>,
) -> (Seq<char>, Option<Seq<char>>, Seq<char>, Seq<char>, Option<Seq<char>>) {
    if t.2 == "On Sale"@ && extracted.contains_key(t.0) {
        (t.0, t.1, extracted[t.0], t.3, t.4)
    } else {
        t
    }
}

/// The deals with vision texts applied, leaving out those that are not deals.
pub open spec fn vision_applied(
    deals: Seq<(Seq<char>, Option<Seq<char>>, Seq<char>, Seq<char>, Option<Seq<char>>)>,
    extracted: Map<Seq<char>, Seq<char>>,
) -> Seq<(Seq<char>, Option<Seq<char>>, Seq<char>, Seq<char>, Option<Seq<char>>)>
    decreases deals.len(),
{
    if deals.len() == 0 {
        Seq::empty()
    } else {
        let prev = vision_applied(deals.drop_last(), extracted);
        let d = with_vision_text(deals.last(), extracted);
        if d.2 == "NOT_A_DEAL"@ {
            prev
        } else {
            prev.push(d)
        }
    }
}

/// Applies deal texts read from item images: an `On Sale` description is
/// replaced by the text found for the item, and items found not to be deals
/// are dropped. A failed extraction leaves the deals as they are.
pub fn apply_vision_results(deal_tuples: &mut Vec<DealTuple>, result: Result<KeyedStore<String>, AppError>)
    ensures
        match result {
            Ok(extracted) => tuple_views(final(deal_tuples)@) == vision_applied(
                tuple_views(old(deal_tuples)@),
                text_map(extracted@),
            ),
            Err(_) => final(deal_tuples)@ == old(deal_tuples)@,
        },
{
    let extracted = match result {
        Ok(e) => e,
        Err(_) => return,
    };
    let ghost input = tuple_views(deal_tuples@);
    let ghost ex = text_map(extracted@);
    let mut taken: Vec<DealTuple> = Vec::new();
    std::mem::swap(&mut taken, deal_tuples);
    let n = taken.len();
    let mut kept: Vec<DealTuple> = Vec::new();
    let mut i: usize = 0;
    while i < n
        invariant
            i <= n == taken@.len(),
            tuple_views(taken@) == input,
            ex == text_map(extracted@),
            tuple_views(kept@) == vision_applied(input.take(i as int), ex),
        decreases n - i,
    {
        let d = &taken[i];
        let description = if str_eq(d.2.as_str(), "On Sale") {
            match extracted.get(d.0.as_str()) {
                Some(text) => text.clone(),
                None => d.2.clone(),
            }
        } else {
            d.2.clone()
        };
        proof {
            assert(input.take(i + 1).drop_last() =~= input.take(i as int));
            assert(input[i as int] == tuple_view(taken@[i as int]));
        }
        if !str_eq(description.as_str(), "NOT_A_DEAL") {
            let t: DealTuple = (d.0.clone(), clone_opt(&d.1), description, d.3.clone(), clone_opt(&d.4));
            kept.push(t);
            assert(tuple_views(kept@) =~= tuple_views(kept@.drop_last()).push(tuple_view(kept@.last())));
        }
        i += 1;
    }
    assert(input.take(n as int) =~= input);
    *deal_tuples = kept;
}

/// The `(name, brand)` of each deal whose name is not among `excluded`.
pub open spec fn items_not_in(
    deals: Seq<(Seq<char>, Option<Seq<char>>, Seq<char>, Seq<char>, Option<Seq<char>>)>,
    excluded: Set<Seq<char>>,
) -> Seq<(Seq<char>, Option<Seq<char>>)>
    decreases deals.len(),
{
    if deals.len() == 0 {
        Seq::empty()
    } else {
        let prev = items_not_in(deals.drop_last(), excluded);
        let d = deals.last();
        if excluded.contains(d.0) {
            prev
        } else {
            prev.push((d.0, d.1))
        }
    }
}

/// The `(name, brand)` items of the deals whose names are not excluded, in order.
pub fn deal_items_excluding(deals: &[DealTuple], excluded: &Vec<String>) -> (r: Vec<(String, Option<String>)>)
    ensures
        r@.map_values(|p: (String, Option<String>)| (p.0@, opt_view(p.1))) == items_not_in(
            tuple_views(deals@),
            views(excluded@).to_set(),
        ),
{
    let ghost ex = views(excluded@).to_set();
    let mut r: Vec<(String, Option<String>)> = Vec::new();
    let mut i: usize = 0;
    while i < deals.len()
        invariant
            i <= deals.len(),
            ex == views(excluded@).to_set(),
            r@.map_values(|p: (String, Option<String>)| (p.0@, opt_view(p.1))) == items_not_in(
                tuple_views(deals@).take(i as int),
                ex,
            ),
        decreases deals.len() - i,
    {
        let mut found = false;
        let mut j: usize = 0;
        while j < excluded.len()
            invariant
                i < deals.len(),
                j <= excluded.len(),
                found == exists|k: int| 0 <= k < j && excluded@[k]@ == deals@[i as int].0@,
            decreases excluded.len() - j,
        {
            if str_eq(excluded[j].as_str(), deals[i].0.as_str()) {
                found = true;
            }
            j += 1;
        }
        proof {
            let tv = tuple_views(deals@);
            assert(tv.take(i + 1).drop_last() =~= tv.take(i as int));
            assert(tv.take(i + 1).last() == tuple_view(deals@[i as int]));
            let vs = views(excluded@);
            if found {
                let k = choose|k: int| 0 <= k < j && excluded@[k]@ == deals@[i as int].0@;
                assert(vs[k] == deals@[i as int].0@);
                assert(vs.contains(deals@[i as int].0@));
            } else {
                if vs.contains(deals@[i as int].0@) {
                    let k = choose|k: int| 0 <= k < vs.len() && vs[k] == deals@[i as int].0@;
                    assert(excluded@[k]@ == deals@[i as int].0@);
                }
            }
        }
        if !found {
            let ghost before = r@.map_values(|p: (String, Option<String>)| (p.0@, opt_view(p.1)));
            r.push((deals[i].0.clone(), clone_opt(&deals[i].1)));
            assert(r@.map_values(|p: (String, Option<String>)| (p.0@, opt_view(p.1))) =~= before.push(
                (deals@[i as int].0@, opt_view(deals@[i as int].1)),
            ));
        }
        i += 1;
    }
    assert(tuple_views(deals@).take(deals.len() as int) =~= tuple_views(deals@));
    r
}

/// How many items to categorize while vision runs, so that the rest and the
/// vision items fit in one final batch.
pub open spec fn pre_categorize_count_of(ready: nat, vision: nat) -> nat {
    let keep_for_final: int = if BATCH_SIZE >= vision { BATCH_SIZE - vision } else { 0 };
    if ready >= keep_for_final {
        (ready - keep_for_final) as nat
    } else {
        0
    }
}

/// How many of the ready items to categorize ahead of the vision step.
pub fn pre_categorize_count(ready: usize, vision: usize) -> (r: usize)
    ensures
        r == pre_categorize_count_of(ready as nat, vision as nat),
{
    let keep_for_final = BATCH_SIZE.saturating_sub(vision);
    ready.saturating_sub(keep_for_final)
}

/// The fields of a location request, as characters.
pub open spec fn request_view(r: CreateLocationRequest) -> (
    Seq<char>,
    Seq<char>,
    Option<Seq<char>>,
    Seq<char>,
    Option<i64>,
    Option<Seq<char>>,
    Option<Seq<char>>,
) {
    (
        r.chain_id@,
        r.name@,
        opt_view(r.address),
        r.zip_code@,
        r.flipp_merchant_id,
        opt_view(r.flipp_merchant_name),
        opt_view(r.weekly_ad_url),
    )
}

/// The request creating an H Mart location at the nearest store.
pub fn hmart_location_request(store_name: String, weekly_ad_url: String, zip: &str) -> (r: CreateLocationRequest)
    ensures
        request_view(r) == ("h-mart"@, store_name@, None::<Seq<char>>, zip@, None::<i64>, None::<Seq<char>>, Some(weekly_ad_url@)),
{
    CreateLocationRequest {
        chain_id: "h-mart".to_string(),
        name: store_name,
        address: None,
        zip_code: zip.to_string(),
        flipp_merchant_id: None,
        flipp_merchant_name: None,
        weekly_ad_url: Some(weekly_ad_url),
    }
}

/// The name of a location: `{display name} - {detail}`.
pub open spec fn location_name(display: Seq<char>, detail: Seq<char>) -> Seq<char> {
    display + " - "@ + detail
}

fn location_name_exec(display: &str, detail: &str) -> (r: String)
    ensures
        r@ == location_name(display@, detail@),
{
    let mut n = display.to_string();
    n.append(" - ");
    n.append(detail);
    n
}

/// The request creating a Whole Foods location at the nearest store: its
/// sales flyer URL and the name `{display name} - {store name}`.
pub fn whole_foods_location_request(
    chain: &str,
    zip: &str,
    chain_display_name: &str,
    store_id: &str,
    store_name: &str,
) -> (r: CreateLocationRequest)
    ensures
        request_view(r) == (
            chain@,
            location_name(chain_display_name@, store_name@),
            None::<Seq<char>>,
            zip@,
            None::<i64>,
            None::<Seq<char>>,
            Some(sales_flyer_url_text(store_id@)),
        ),
{
    CreateLocationRequest {
        chain_id: chain.to_string(),
        name: location_name_exec(chain_display_name, store_name),
        address: None,
        zip_code: zip.to_string(),
        flipp_merchant_id: None,
        flipp_merchant_name: None,
        weekly_ad_url: Some(sales_flyer_url(store_id)),
    }
}

/// The first search result of the chain.
pub open spec fn chain_match(matches: Seq<FlippStoreMatch>, chain: Seq<char>) -> Option<int> {
    if exists|i: int| 0 <= i < matches.len() && matches[i].chain_id@ == chain {
        Some(choose|i: int| 0 <= i < matches.len() && matches[i].chain_id@ == chain && forall|k: int|
            0 <= k < i ==> matches[k].chain_id@ != chain)
    } else {
        None
    }
}

/// The request creating a location of a Flipp chain: named after the chain's
/// display name (or its id when the search did not find it) and the zip code,
/// with the merchant found by the search.
pub open spec fn flipp_request_view(matches: Seq<FlippStoreMatch>, chain: Seq<char>, zip: Seq<char>) -> (
    Seq<char>,
    Seq<char>,
    Option<Seq<char>>,
    Seq<char>,
    Option<i64>,
    Option<Seq<char>>,
    Option<Seq<char>>,
) {
    match chain_match(matches, chain) {
        Some(i) => (
            chain,
            location_name(matches[i].chain_name@, zip),
            None,
            zip,
            matches[i].merchant_id,
            Some(matches[i].merchant_name@),
            None,
        ),
        None => (chain, location_name(chain, zip), None, zip, None, None, None),
    }
}

fn find_chain(matches: &[FlippStoreMatch], chain: &str) -> (r: Option<usize>)
    ensures
        chain_match(matches@, chain@) == match r {
            Some(i) => Some(i as int),
            None => None::<int>,
        },
        r matches Some(i) ==> i < matches@.len(),
{
    let mut i: usize = 0;
    while i < matches.len()
        invariant
            i <= matches.len(),
            forall|k: int| 0 <= k < i ==> matches@[k].chain_id@ != chain@,
        decreases matches.len() - i,
    {
        if str_eq(matches[i].chain_id.as_str(), chain) {
            proof {
                let m = matches@;
                assert(m[i as int].chain_id@ == chain@);
                let c = choose|j: int| 0 <= j < m.len() && m[j].chain_id@ == chain@ && forall|k: int|
                    0 <= k < j ==> m[k].chain_id@ != chain@;
                if c < i {
                } else if c > i {
                }
            }
            return Some(i);
        }
        i += 1;
    }
    None
}

/// The request creating a location of a Flipp chain from the zip code's search results.
pub fn flipp_location_request(chain: &str, zip: &str, matches: &[FlippStoreMatch]) -> (r: CreateLocationRequest)
    ensures
        request_view(r) == flipp_request_view(matches@, chain@, zip@),
{
    let found = find_chain(matches, chain);
    match found {
        Some(i) => {
            let m = &matches[i];
            CreateLocationRequest {
                chain_id: chain.to_string(),
                name: location_name_exec(m.chain_name.as_str(), zip),
                address: None,
                zip_code: zip.to_string(),
                flipp_merchant_id: m.merchant_id,
                flipp_merchant_name: Some(m.merchant_name.clone()),
                weekly_ad_url: None,
            }
        },
        None => {
            CreateLocationRequest {
                chain_id: chain.to_string(),
                name: location_name_exec(chain, zip),
                address: None,
                zip_code: zip.to_string(),
                flipp_merchant_id: None,
                flipp_merchant_name: None,
                weekly_ad_url: None,
            }
        },
    }
}

/// The query of a store search: the zip code to search near.
pub struct SearchQuery {
    pub zip: String,
}

/// A search result for a chain that is not on Flipp.
pub open spec fn own_chain_view(chain_id: Seq<char>, chain_name: Seq<char>, merchant_name: Seq<char>, store_name: Option<Seq<char>>) -> (
    Seq<char>,
    Seq<char>,
    Option<i64>,
    Option<i64>,
    Seq<char>,
    Option<Seq<char>>,
    Option<Seq<char>>,
    Option<Seq<char>>,
) {
    (chain_id, chain_name, None, None, merchant_name, store_name, None, None)
}

/// The search results with Whole Foods and H Mart appended, each with its
/// nearest store's name when one was found.
pub fn with_own_chains(
    matches: Vec<FlippStoreMatch>,
    wfm_store_name: Option<String>,
    hmart_store_name: Option<String>,
) -> (r: Vec<FlippStoreMatch>)
    ensures
        r@.map_values(|m: FlippStoreMatch| match_view(m)) == matches@.map_values(|m: FlippStoreMatch| match_view(m)).push(
            own_chain_view("whole-foods"@, "Whole Foods"@, "Whole Foods Market"@, opt_view(wfm_store_name)),
        ).push(own_chain_view("h-mart"@, "H Mart"@, "H Mart"@, opt_view(hmart_store_name))),
{
    let mut r = matches;
    let ghost before = r@.map_values(|m: FlippStoreMatch| match_view(m));
    r.push(
        FlippStoreMatch {
            chain_id: "whole-foods".to_string(),
            chain_name: "Whole Foods".to_string(),
            flyer_id: None,
            merchant_id: None,
            merchant_name: "Whole Foods Market".to_string(),
            store_name: wfm_store_name,
            valid_from: None,
            valid_to: None,
        },
    );
    r.push(
        FlippStoreMatch {
            chain_id: "h-mart".to_string(),
            chain_name: "H Mart".to_string(),
            flyer_id: None,
            merchant_id: None,
            merchant_name: "H Mart".to_string(),
            store_name: hmart_store_name,
            valid_from: None,
            valid_to: None,
        },
    );
    assert(r@.map_values(|m: FlippStoreMatch| match_view(m)) =~= before.push(
        own_chain_view("whole-foods"@, "Whole Foods"@, "Whole Foods Market"@, opt_view(wfm_store_name)),
    ).push(own_chain_view("h-mart"@, "H Mart"@, "H Mart"@, opt_view(hmart_store_name))));
    r
}

/// The message when no Whole Foods store can be resolved yet.
pub open spec fn catalog_unavailable_message() -> Seq<char> {
    "Whole Foods store catalog is not yet available. Please try again shortly."@
}

/// The error when the Whole Foods catalog has no store for the zip code yet.
pub fn catalog_unavailable() -> (r: AppError)
    ensures
        r matches AppError::Internal(m) && m@ == catalog_unavailable_message(),
{
    AppError::Internal("Whole Foods store catalog is not yet available. Please try again shortly.".to_string())
}

/// The error when no H Mart store is near the zip code.
pub fn no_hmart_nearby() -> (r: AppError)
    ensures
        r matches AppError::NotFound(m) && m@ == "No H Mart stores near this zip code"@,
{
    AppError::NotFound("No H Mart stores near this zip code".to_string())
}

/// What the meals endpoint does next.
#[derive(Debug, Clone, Copy, PartialEq, Eq, Structural)]
pub enum MealsStep {
    /// The stored meals were made from these deals: answer with them.
    RespondCached,
    /// The stored meals were made from other deals: drop them.
    Invalidate,
    /// No meals are stored and this caller leads: ask for new ones.
    Generate,
    /// No meals are stored and another caller is asking: wait for it.
    Wait,
}

/// The next step of the meals endpoint, from the hash stored with the meals
/// (if any), the hash of the current deals, and whether this caller leads.
pub open spec fn meals_step_of(stored_hash: Option<Seq<char>>, deals_hash: Seq<char>, leads: bool) -> MealsStep {
    match stored_hash {
        Some(h) => if h == deals_hash {
            MealsStep::RespondCached
        } else {
            MealsStep::Invalidate
        },
        None => if leads {
            MealsStep::Generate
        } else {
            MealsStep::Wait
        },
    }
}

/// Decides the next step of the meals endpoint.
pub fn meals_step(stored_hash: Option<&str>, deals_hash: &str, leads: bool) -> (r: MealsStep)
    ensures
        r == meals_step_of(
            match stored_hash {
                Some(h) => Some(h@),
                None => None,
            },
            deals_hash@,
            leads,
        ),
{
    match stored_hash {
        Some(h) => if str_eq(h, deals_hash) {
            MealsStep::RespondCached
        } else {
            MealsStep::Invalidate
        },
        None => if leads {
            MealsStep::Generate
        } else {
            MealsStep::Wait
        },
    }
}

/// What the deals endpoint does next.
#[derive(Debug, Clone, Copy, PartialEq, Eq, Structural)]
pub enum DealsStep {
    /// The stored deals are current: answer with them.
    RespondCached,
    /// The stored deals have expired: drop their week.
    InvalidateExpired,
    /// No current deals and this caller leads: fetch them.
    Fetch,
    /// No current deals and another caller is fetching: wait for it.
    Wait,
}

/// The next step of the deals endpoint, from whether stored deals exist and
/// have expired, and whether this caller leads.
pub open spec fn deals_step_of(stored_expired: Option<bool>, leads: bool) -> DealsStep {
    match stored_expired {
        Some(false) => DealsStep::RespondCached,
        Some(true) => DealsStep::InvalidateExpired,
        None => if leads {
            DealsStep::Fetch
        } else {
            DealsStep::Wait
        },
    }
}

/// Decides the next step of the deals endpoint.
pub fn deals_step(stored_expired: Option<bool>, leads: bool) -> (r: DealsStep)
    ensures
        r == deals_step_of(stored_expired, leads),
{
    match stored_expired {
        Some(false) => DealsStep::RespondCached,
        Some(true) => DealsStep::InvalidateExpired,
        None => if leads {
            DealsStep::Fetch
        } else {
            DealsStep::Wait
        },
    }
}

} // verus!
