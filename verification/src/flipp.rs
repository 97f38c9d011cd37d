//! Flipp flyers and items: which flyer is a chain's weekly ad, and how flyer
//! items become deals.

use rand::Rng;
use vstd::prelude::*;
use crate::calendar::{current_week_id, iso_week_id_text, plausible_now, leading_date_iso_week, week_id_of_date_text, week_id_text, UtcNow};
use crate::models::{collect_some, lemma_collect_some_len, lemma_collect_some_members, lemma_collect_some_push, tuple_view, tuple_views, DealTuple, DealView};
use crate::text::{
    chars_of, contains_seq, has_text, lemma_contains_trans, lemma_join_contains_parts, lemma_trim_idempotent, non_blank, non_blank_exec, or_empty, trimmed_nonempty,
    trimmed_nonempty_exec, eq_ignore_ascii_case, eq_ignore_ascii_case_chars, i64_to_string,
    join, join_strings, lowercase_of, opt_view, signed_decimal, str_contains, string_of,
    to_lowercase, trim, trim_str, views,
};

verus! {

/// A flyer as listed by Flipp's flyer search.
#[derive(Debug, Clone)]
pub struct FlippFlyer {
    pub id: i64,
    pub merchant_id: Option<i64>,
    pub merchant: Option<String>,
    pub name: Option<String>,
    pub valid_from: Option<String>,
    pub valid_to: Option<String>,
    pub categories_csv: Option<String>,
    pub store_code: Option<String>,
}

/// An item of a Flipp flyer.
#[derive(Debug, Clone)]
pub struct FlippItem {
    pub id: Option<i64>,
    pub name: Option<String>,
    pub display_type: Option<i32>,
    pub brand: Option<String>,
    pub description: Option<String>,
    pub price: Option<String>,
    pub pre_price_text: Option<String>,
    pub cutout_image_url: Option<String>,
    pub valid_from: Option<String>,
    pub valid_to: Option<String>,
}

/// A store found for a zip code.
#[derive(Debug, Clone)]
pub struct FlippStoreMatch {
    pub chain_id: String,
    pub chain_name: String,
    pub flyer_id: Option<i64>,
    pub merchant_id: Option<i64>,
    pub merchant_name: String,
    pub store_name: Option<String>,
    pub valid_from: Option<String>,
    pub valid_to: Option<String>,
}

/// The fields of a store match, as characters.
pub open spec fn match_view(m: FlippStoreMatch) -> (
    Seq<char>,
    Seq<char>,
    Option<i64>,
    Option<i64>,
    Seq<char>,
    Option<Seq<char>>,
    Option<Seq<char>>,
    Option<Seq<char>>,
) {
    (
        m.chain_id@,
        m.chain_name@,
        m.flyer_id,
        m.merchant_id,
        m.merchant_name@,
        opt_view(m.store_name),
        opt_view(m.valid_from),
        opt_view(m.valid_to),
    )
}

/// Display type of flyer items that are not deals (store logos, promo banners).
pub const NON_DEAL_DISPLAY_TYPE: i32 = 5;

/// The pre-price text and the price (with a dollar sign) of an item, when not blank.
pub open spec fn price_parts(item: FlippItem) -> Seq<Seq<char>> {
    let p1: Seq<Seq<char>> = match trimmed_nonempty(item.pre_price_text) {
        Some(t) => seq![t],
        None => Seq::empty(),
    };
    match trimmed_nonempty(item.price) {
        Some(t) => p1.push("$"@ + t),
        None => p1,
    }
}

/// The parts of an item's deal text: the pre-price text, the price with a
/// dollar sign, and the description unless a part already contains it.
pub open spec fn description_parts(item: FlippItem) -> Seq<Seq<char>> {
    let p2 = price_parts(item);
    match trimmed_nonempty(item.description) {
        Some(t) => if exists|j: int| 0 <= j < p2.len() && contains_seq(#[trigger] p2[j], t) {
            p2
        } else {
            p2.push(t)
        },
        None => p2,
    }
}

/// An item's deal text: its parts joined by ` - `, or `On Sale` when it has none.
pub open spec fn deal_description_text(item: FlippItem) -> Seq<char> {
    if description_parts(item).len() == 0 {
        "On Sale"@
    } else {
        join(description_parts(item), " - "@)
    }
}

/// The deal text of a flyer item.
pub fn build_deal_description(item: &FlippItem) -> (r: String)
    ensures
        r@ == deal_description_text(*item),
        has_text(item.pre_price_text) ==> contains_seq(r@, trim(item.pre_price_text->0@)),
        has_text(item.price) ==> contains_seq(r@, "$"@ + trim(item.price->0@)),
        has_text(item.description) ==> contains_seq(r@, trim(item.description->0@)),
        !has_text(item.pre_price_text) && !has_text(item.price) && !has_text(item.description) ==> r@ == "On Sale"@,
{
    proof {
        lemma_deal_text_mentions_prices(*item);
    }
    let mut parts: Vec<String> = Vec::new();
    let pre = trimmed_nonempty_exec(&item.pre_price_text);
    if let Some(t) = pre {
        parts.push(t);
    }
    let price = trimmed_nonempty_exec(&item.price);
    if let Some(t) = price {
        let mut p = "$".to_string();
        p.append(t.as_str());
        parts.push(p);
    }
    assert(views(parts@) =~= price_parts(*item));
    let description = trimmed_nonempty_exec(&item.description);
    let ghost p2 = views(parts@);
    if let Some(t) = description {
        let mut found = false;
        let mut j: usize = 0;
        while j < parts.len()
            invariant
                j <= parts.len(),
                views(parts@) == p2,
                found == exists|k: int| 0 <= k < j && contains_seq(#[trigger] p2[k], t@),
            decreases parts.len() - j,
        {
            assert(p2[j as int] == parts@[j as int]@);
            if str_contains(parts[j].as_str(), t.as_str()) {
                found = true;
            }
            j += 1;
        }
        assert(trimmed_nonempty(item.description) == Some(t@));
        if !found {
            parts.push(t);
            assert(views(parts@) =~= p2.push(t@));
        } else {
            assert(exists|k: int| 0 <= k < p2.len() && contains_seq(#[trigger] p2[k], t@));
        }
        assert(views(parts@) =~= description_parts(*item));
    } else {
        assert(views(parts@) =~= description_parts(*item));
    }
    assert(views(parts@) =~= description_parts(*item));
    if parts.len() == 0 {
        "On Sale".to_string()
    } else {
        join_strings(&parts, " - ")
    }
}

/// An item's deal text tells what it has: its trimmed pre-price text, its
/// trimmed price after a dollar sign and its trimmed description each occur in
/// it when they hold text, and it is `On Sale` when none of them does.
pub proof fn lemma_deal_text_mentions_prices(item: FlippItem)
    ensures
        has_text(item.pre_price_text) ==> contains_seq(deal_description_text(item), trim(item.pre_price_text->0@)),
        has_text(item.price) ==> contains_seq(deal_description_text(item), "$"@ + trim(item.price->0@)),
        has_text(item.description) ==> contains_seq(deal_description_text(item), trim(item.description->0@)),
        !has_text(item.pre_price_text) && !has_text(item.price) && !has_text(item.description)
            ==> deal_description_text(item) == "On Sale"@,
{
    let parts = description_parts(item);
    let p2 = price_parts(item);
    lemma_join_contains_parts(parts, " - "@);
    if has_text(item.pre_price_text) {
        assert(p2[0] == trim(item.pre_price_text->0@));
        assert(parts[0] == p2[0]);
    }
    if has_text(item.price) {
        let at = p2.len() - 1;
        assert(p2[at] == "$"@ + trim(item.price->0@));
        assert(parts[at] == p2[at]);
    }
    if has_text(item.description) {
        let t = trim(item.description->0@);
        if exists|j: int| 0 <= j < p2.len() && contains_seq(#[trigger] p2[j], t) {
            let j = choose|j: int| 0 <= j < p2.len() && contains_seq(#[trigger] p2[j], t);
            assert(parts[j] == p2[j]);
            lemma_contains_trans(join(parts, " - "@), parts[j], t);
        } else {
            assert(parts[parts.len() - 1] == t);
        }
    }
}

/// The deal tuple an item becomes, if it is a deal with a name.
pub open spec fn item_deal(item: FlippItem) -> Option<(Seq<char>, Option<Seq<char>>, Seq<char>, Seq<char>, Option<Seq<char>>)> {
    if item.display_type == Some(NON_DEAL_DISPLAY_TYPE) {
        None
    } else {
        match item.name {
            None => None,
            Some(n) => if trim(n@).len() == 0 {
                None
            } else {
                Some(
                    (
                        trim(n@),
                        non_blank(item.brand),
                        deal_description_text(item),
                        "uncategorized"@,
                        non_blank(item.cutout_image_url),
                    ),
                )
            },
        }
    }
}

fn item_deal_exec(item: &FlippItem) -> (r: Option<DealTuple>)
    ensures
        match r {
            Some(t) => item_deal(*item) == Some(tuple_view(t)),
            None => item_deal(*item) is None,
        },
        r is Some <==> is_named_deal_item(*item),
        r matches Some(t) ==> deal_carries_item(tuple_view(t), *item),
{
    proof {
        lemma_item_deal_carries_item(*item);
    }
    if item.display_type == Some(NON_DEAL_DISPLAY_TYPE) {
        return None;
    }
    let name = match &item.name {
        Some(n) => trim_str(n.as_str()),
        None => return None,
    };
    if name.as_str().is_empty() {
        return None;
    }
    let description = build_deal_description(item);
    let brand = non_blank_exec(&item.brand);
    let image_url = non_blank_exec(&item.cutout_image_url);
    Some((name, brand, description, "uncategorized".to_string(), image_url))
}

/// The deal tuples of flyer items, in order: items that are not deals, or have
/// no name, are left out.
pub fn items_to_deal_tuples(items: &[FlippItem]) -> (r: Vec<DealTuple>)
    ensures
        tuple_views(r@) == collect_some(items@.map_values(|i: FlippItem| item_deal(i))),
        r@.len() <= items@.len(),
        forall|j: int| 0 <= j < r@.len() ==> deal_of_some_item(#[trigger] tuple_views(r@)[j], items@),
        forall|k: int| 0 <= k < items@.len() && #[trigger] is_named_deal_item(items@[k]) ==> exists|j: int|
            0 <= j < r@.len() && #[trigger] deal_carries_item(tuple_views(r@)[j], items@[k]),
{
    let mut r: Vec<DealTuple> = Vec::new();
    let mut i: usize = 0;
    while i < items.len()
        invariant
            i <= items.len(),
            tuple_views(r@) == collect_some(items@.take(i as int).map_values(|x: FlippItem| item_deal(x))),
        decreases items.len() - i,
    {
        let d = item_deal_exec(&items[i]);
        proof {
            let s = items@.take(i as int).map_values(|x: FlippItem| item_deal(x));
            assert(items@.take(i + 1).map_values(|x: FlippItem| item_deal(x)) =~= s.push(item_deal(items@[i as int])));
            lemma_collect_some_push(s, item_deal(items@[i as int]));
        }
        match d {
            Some(t) => {
                r.push(t);
                assert(tuple_views(r@) =~= tuple_views(r@.drop_last()).push(tuple_view(r@.last())));
            },
            None => {},
        }
        i += 1;
    }
    assert(items@.take(items.len() as int) =~= items@);
    proof {
        lemma_flyer_deals_carry_items(items@);
    }
    r
}

/// Whether an item carries some price text (price, pre-price text or description).
pub open spec fn has_price_info(item: FlippItem) -> bool {
    trim(or_empty(item.price)).len() > 0 || trim(or_empty(item.pre_price_text)).len() > 0
        || trim(or_empty(item.description)).len() > 0
}

/// The `(name, image_url)` an item contributes when only its image can tell the deal.
pub open spec fn vision_item(item: FlippItem) -> Option<(Seq<char>, Seq<char>)> {
    if item.display_type == Some(NON_DEAL_DISPLAY_TYPE) {
        None
    } else {
        match item.name {
            None => None,
            Some(n) => if trim(n@).len() == 0 || has_price_info(item) {
                None
            } else {
                match item.cutout_image_url {
                    None => None,
                    Some(u) => if trim(u@).len() == 0 {
                        None
                    } else {
                        Some((trim(n@), trim(u@)))
                    },
                }
            },
        }
    }
}

fn is_blank_opt(o: &Option<String>) -> (r: bool)
    ensures
        r == (trim(or_empty(*o)).len() == 0),
{
    match o {
        Some(s) => trim_str(s.as_str()).as_str().is_empty(),
        None => {
            assert(trim(Seq::<char>::empty()) =~= Seq::<char>::empty());
            true
        },
    }
}

fn vision_item_exec(item: &FlippItem) -> (r: Option<(String, String)>)
    ensures
        match r {
            Some(p) => vision_item(*item) == Some((p.0@, p.1@)),
            None => vision_item(*item) is None,
        },
{
    if item.display_type == Some(NON_DEAL_DISPLAY_TYPE) {
        return None;
    }
    let name = match &item.name {
        Some(n) => trim_str(n.as_str()),
        None => return None,
    };
    if name.as_str().is_empty() {
        return None;
    }
    let has_price = !is_blank_opt(&item.price) || !is_blank_opt(&item.pre_price_text)
        || !is_blank_opt(&item.description);
    if has_price {
        return None;
    }
    let image_url = match &item.cutout_image_url {
        Some(u) => trim_str(u.as_str()),
        None => return None,
    };
    if image_url.as_str().is_empty() {
        return None;
    }
    Some((name, image_url))
}

/// Items whose only deal information is their cutout image, as `(name, image_url)`.
pub fn items_needing_vision(items: &[FlippItem]) -> (r: Vec<(String, String)>)
    ensures
        r@.map_values(|p: (String, String)| (p.0@, p.1@)) == collect_some(
            items@.map_values(|i: FlippItem| vision_item(i)),
        ),
{
    let mut r: Vec<(String, String)> = Vec::new();
    let mut i: usize = 0;
    while i < items.len()
        invariant
            i <= items.len(),
            r@.map_values(|p: (String, String)| (p.0@, p.1@)) == collect_some(
                items@.take(i as int).map_values(|x: FlippItem| vision_item(x)),
            ),
        decreases items.len() - i,
    {
        let d = vision_item_exec(&items[i]);
        proof {
            let s = items@.take(i as int).map_values(|x: FlippItem| vision_item(x));
            assert(items@.take(i + 1).map_values(|x: FlippItem| vision_item(x)) =~= s.push(vision_item(items@[i as int])));
            lemma_collect_some_push(s, vision_item(items@[i as int]));
        }
        match d {
            Some(p) => {
                let ghost before = r@;
                r.push(p);
                assert(r@.map_values(|p: (String, String)| (p.0@, p.1@)) =~= before.map_values(
                    |p: (String, String)| (p.0@, p.1@),
                ).push((r@.last().0@, r@.last().1@)));
            },
            None => {},
        }
        i += 1;
    }
    assert(items@.take(items.len() as int) =~= items@);
    r
}

/// How likely a flyer (by its lower-cased name) is the main grocery weekly ad.
pub open spec fn flyer_priority_of(name: Seq<char>) -> i32 {
    if contains_seq(name, "weekly ad"@) || contains_seq(name, "weekly circular"@) {
        10
    } else if contains_seq(name, "weekly"@) {
        5
    } else if contains_seq(name, "flyer"@) || contains_seq(name, "circular"@) {
        3
    } else {
        1
    }
}

/// Higher priority = more likely to be the main grocery weekly ad.
pub fn flyer_priority(flyer_name: &str) -> (r: i32)
    ensures
        r == flyer_priority_of(flyer_name@),
{
    if str_contains(flyer_name, "weekly ad") || str_contains(flyer_name, "weekly circular") {
        10
    } else if str_contains(flyer_name, "weekly") {
        5
    } else if str_contains(flyer_name, "flyer") || str_contains(flyer_name, "circular") {
        3
    } else {
        1
    }
}

/// The chains looked for among Flipp merchants, as `(chain_id, display name)`.
pub open spec fn flipp_chain(i: int) -> (Seq<char>, Seq<char>) {
    if i == 0 {
        ("qfc"@, "QFC"@)
    } else if i == 1 {
        ("safeway"@, "Safeway"@)
    } else {
        ("fred-meyer"@, "Fred Meyer"@)
    }
}

/// How many chains are looked for among Flipp merchants.
pub const FLIPP_CHAIN_COUNT: usize = 3;

fn flipp_chain_exec(i: usize) -> (r: (&'static str, &'static str))
    requires
        i < FLIPP_CHAIN_COUNT,
    ensures
        (r.0@, r.1@) == flipp_chain(i as int),
{
    if i == 0 {
        ("qfc", "QFC")
    } else if i == 1 {
        ("safeway", "Safeway")
    } else {
        ("fred-meyer", "Fred Meyer")
    }
}

/// A merchant name is a chain's when it equals the chain's display name up to
/// ASCII case, or its lower-case form contains the display name's.
pub open spec fn merchant_matches(merchant: Seq<char>, display: Seq<char>) -> bool {
    eq_ignore_ascii_case(merchant, display) || contains_seq(lowercase_of(merchant), lowercase_of(display))
}

/// The first chain (in list order) that a merchant name is taken for.
pub open spec fn chain_of_merchant(merchant: Seq<char>) -> Option<int> {
    if merchant_matches(merchant, flipp_chain(0).1) {
        Some(0)
    } else if merchant_matches(merchant, flipp_chain(1).1) {
        Some(1)
    } else if merchant_matches(merchant, flipp_chain(2).1) {
        Some(2)
    } else {
        None
    }
}

fn merchant_matches_exec(merchant: &str, display: &str) -> (r: bool)
    ensures
        r == merchant_matches(merchant@, display@),
{
    let m = chars_of(merchant);
    let d = chars_of(display);
    if eq_ignore_ascii_case_chars(m.as_slice(), d.as_slice()) {
        return true;
    }
    let ml = to_lowercase(merchant);
    let dl = to_lowercase(display);
    str_contains(ml.as_str(), dl.as_str())
}

fn chain_of_merchant_exec(merchant: &str) -> (r: Option<usize>)
    ensures
        match r {
            Some(i) => chain_of_merchant(merchant@) == Some(i as int) && i < FLIPP_CHAIN_COUNT,
            None => chain_of_merchant(merchant@) is None,
        },
{
    let mut i: usize = 0;
    while i < FLIPP_CHAIN_COUNT
        invariant
            i <= FLIPP_CHAIN_COUNT,
            forall|k: int| 0 <= k < i ==> !merchant_matches(merchant@, #[trigger] flipp_chain(k).1),
        decreases FLIPP_CHAIN_COUNT - i,
    {
        let (_, display) = flipp_chain_exec(i);
        if merchant_matches_exec(merchant, display) {
            return Some(i);
        }
        i += 1;
    }
    assert(!merchant_matches(merchant@, flipp_chain(0).1));
    assert(!merchant_matches(merchant@, flipp_chain(1).1));
    assert(!merchant_matches(merchant@, flipp_chain(2).1));
    None
}

/// The match a flyer of merchant `merchant` yields for chain `c`.
pub open spec fn candidate_of(f: FlippFlyer, c: int, merchant: Seq<char>) -> (
    Seq<char>,
    Seq<char>,
    Option<i64>,
    Option<i64>,
    Seq<char>,
    Option<Seq<char>>,
    Option<Seq<char>>,
    Option<Seq<char>>,
) {
    (
        flipp_chain(c).0,
        flipp_chain(c).1,
        Some(f.id),
        f.merchant_id,
        merchant,
        opt_view(f.name),
        opt_view(f.valid_from),
        opt_view(f.valid_to),
    )
}

/// The best flyer match for chain `c` among `flyers`, with its priority: the
/// first flyer of the highest priority whose merchant is the chain's.
pub open spec fn best_for_chain(flyers: Seq<FlippFlyer>, c: int) -> Option<(
    (
        Seq<char>,
        Seq<char>,
        Option<i64>,
        Option<i64>,
        Seq<char>,
        Option<Seq<char>>,
        Option<Seq<char>>,
        Option<Seq<char>>,
    ),
    i32,
)>
    decreases flyers.len(),
{
    if flyers.len() == 0 {
        None
    } else {
        let prev = best_for_chain(flyers.drop_last(), c);
        let f = flyers.last();
        match f.merchant {
            None => prev,
            Some(m) => if chain_of_merchant(trim(m@)) == Some(c) {
                let p = flyer_priority_of(lowercase_of(or_empty(f.name)));
                match prev {
                    Some(e) => if p > e.1 {
                        Some((candidate_of(f, c, trim(m@)), p))
                    } else {
                        prev
                    },
                    None => Some((candidate_of(f, c, trim(m@)), p)),
                }
            } else {
                prev
            },
        }
    }
}

fn match_for(f: &FlippFlyer, c: usize, merchant: &str) -> (r: FlippStoreMatch)
    requires
        c < FLIPP_CHAIN_COUNT,
    ensures
        match_view(r) == candidate_of(*f, c as int, merchant@),
{
    let (chain_id, chain_display) = flipp_chain_exec(c);
    FlippStoreMatch {
        chain_id: chain_id.to_string(),
        chain_name: chain_display.to_string(),
        flyer_id: Some(f.id),
        merchant_id: f.merchant_id,
        merchant_name: merchant.to_string(),
        store_name: crate::text::clone_opt(&f.name),
        valid_from: crate::text::clone_opt(&f.valid_from),
        valid_to: crate::text::clone_opt(&f.valid_to),
    }
}

/// The best flyer kept so far for a chain, as characters.
pub open spec fn best_view(b: Option<(FlippStoreMatch, i32)>) -> Option<(
    (
        Seq<char>,
        Seq<char>,
        Option<i64>,
        Option<i64>,
        Seq<char>,
        Option<Seq<char>>,
        Option<Seq<char>>,
        Option<Seq<char>>,
    ),
    i32,
)> {
    match b {
        Some(p) => Some((match_view(p.0), p.1)),
        None => None,
    }
}

/// The match of a chain's best flyer, when it has one.
pub open spec fn found(b: Option<(
    (
        Seq<char>,
        Seq<char>,
        Option<i64>,
        Option<i64>,
        Seq<char>,
        Option<Seq<char>>,
        Option<Seq<char>>,
        Option<Seq<char>>,
    ),
    i32,
)>) -> Seq<
    (
        Seq<char>,
        Seq<char>,
        Option<i64>,
        Option<i64>,
        Seq<char>,
        Option<Seq<char>>,
        Option<Seq<char>>,
        Option<Seq<char>>,
    ),
> {
    match b {
        Some(p) => seq![p.0],
        None => Seq::empty(),
    }
}

/// The best match of each supported chain, in chain order (qfc, safeway, fred-meyer).
pub open spec fn flyer_matches(flyers: Seq<FlippFlyer>) -> Seq<
    (
        Seq<char>,
        Seq<char>,
        Option<i64>,
        Option<i64>,
        Seq<char>,
        Option<Seq<char>>,
        Option<Seq<char>>,
        Option<Seq<char>>,
    ),
> {
    found(best_for_chain(flyers, 0)) + found(best_for_chain(flyers, 1)) + found(best_for_chain(flyers, 2))
}

/// Whether flyer `f` is one of chain `c`'s, by its merchant name.
pub open spec fn flyer_of_chain(f: FlippFlyer, c: int) -> bool {
    f.merchant matches Some(m) && chain_of_merchant(trim(m@)) == Some(c)
}

/// The priority of a flyer, from its lower-cased name.
pub open spec fn priority_of_flyer(f: FlippFlyer) -> i32 {
    flyer_priority_of(lowercase_of(or_empty(f.name)))
}

/// The best flyer kept for a chain is that chain's, and no flyer of the chain
/// has a higher priority; a chain with a flyer always has a best one.
pub proof fn lemma_best_flyer_is_highest(flyers: Seq<FlippFlyer>, c: int)
    ensures
        best_for_chain(flyers, c) matches Some(b) ==> b.0.0 == flipp_chain(c).0 && b.0.1 == flipp_chain(c).1,
        forall|i: int| 0 <= i < flyers.len() && #[trigger] flyer_of_chain(flyers[i], c) ==> (
            best_for_chain(flyers, c) matches Some(b) && priority_of_flyer(flyers[i]) <= b.1),
    decreases flyers.len(),
{
    if flyers.len() > 0 {
        let init = flyers.drop_last();
        lemma_best_flyer_is_highest(init, c);
        assert forall|i: int| 0 <= i < flyers.len() && #[trigger] flyer_of_chain(flyers[i], c) implies (
            best_for_chain(flyers, c) matches Some(b) && priority_of_flyer(flyers[i]) <= b.1) by {
            if i < flyers.len() - 1 {
                assert(flyers[i] == init[i]);
                assert(flyer_of_chain(init[i], c));
            }
        }
    }
}

/// Search results hold at most one flyer per chain, the chains in list order.
pub proof fn lemma_one_match_per_chain(flyers: Seq<FlippFlyer>)
    ensures
        flyer_matches(flyers).len() <= FLIPP_CHAIN_COUNT,
        forall|i: int, j: int|
            0 <= i < j < flyer_matches(flyers).len() ==> #[trigger] flyer_matches(flyers)[i].0 != #[trigger] flyer_matches(
                flyers,
            )[j].0,
{
    lemma_best_flyer_is_highest(flyers, 0);
    lemma_best_flyer_is_highest(flyers, 1);
    lemma_best_flyer_is_highest(flyers, 2);
    reveal_strlit("qfc");
    reveal_strlit("safeway");
    reveal_strlit("fred-meyer");
    let a = found(best_for_chain(flyers, 0));
    let b = found(best_for_chain(flyers, 1));
    let d = found(best_for_chain(flyers, 2));
    let all = flyer_matches(flyers);
    assert(all == a + b + d);
    assert forall|i: int, j: int| 0 <= i < j < all.len() implies #[trigger] all[i].0 != #[trigger] all[j].0 by {
        assert(all[i].0 == "qfc"@ || all[i].0 == "safeway"@ || all[i].0 == "fred-meyer"@);
        if i < a.len() {
            assert(all[i] == a[i]);
            assert(all[i].0 == "qfc"@);
            if j < a.len() + b.len() {
                assert(all[j] == b[j - a.len()]);
                assert(all[j].0 == "safeway"@);
            } else {
                assert(all[j] == d[j - a.len() - b.len()]);
                assert(all[j].0 == "fred-meyer"@);
            }
        } else if i < a.len() + b.len() {
            assert(all[i] == b[i - a.len()]);
            assert(all[i].0 == "safeway"@);
            assert(all[j] == d[j - a.len() - b.len()]);
            assert(all[j].0 == "fred-meyer"@);
        }
    }
}

/// Search results come in chain order: of two matches, the earlier is that of
/// a chain listed before the later one's (qfc, then safeway, then fred-meyer).
pub proof fn lemma_matches_in_chain_order(flyers: Seq<FlippFlyer>)
    ensures
        forall|i: int, j: int, ci: int, cj: int|
            0 <= i < j < flyer_matches(flyers).len() && 0 <= ci < FLIPP_CHAIN_COUNT && 0 <= cj < FLIPP_CHAIN_COUNT
                && (#[trigger] flyer_matches(flyers)[i]).0 == (#[trigger] flipp_chain(ci)).0
                && (#[trigger] flyer_matches(flyers)[j]).0 == (#[trigger] flipp_chain(cj)).0 ==> ci < cj,
{
    lemma_best_flyer_is_chains_own(flyers, 0);
    lemma_best_flyer_is_chains_own(flyers, 1);
    lemma_best_flyer_is_chains_own(flyers, 2);
    reveal_strlit("qfc");
    reveal_strlit("safeway");
    reveal_strlit("fred-meyer");
    let a = found(best_for_chain(flyers, 0));
    let b = found(best_for_chain(flyers, 1));
    let d = found(best_for_chain(flyers, 2));
    let all = flyer_matches(flyers);
    assert(all == a + b + d);
    assert forall|x: int| 0 <= x < all.len() implies (#[trigger] all[x]).0 == flipp_chain(
        if x < a.len() { 0 } else if x < a.len() + b.len() { 1 } else { 2 },
    ).0 by {
        if x < a.len() {
            assert(all[x] == a[x]);
        } else if x < a.len() + b.len() {
            assert(all[x] == b[x - a.len()]);
        } else {
            assert(all[x] == d[x - a.len() - b.len()]);
        }
    }
    assert(a.len() <= 1 && b.len() <= 1 && d.len() <= 1);
    assert forall|i: int, j: int, ci: int, cj: int|
        0 <= i < j < all.len() && 0 <= ci < FLIPP_CHAIN_COUNT && 0 <= cj < FLIPP_CHAIN_COUNT
            && (#[trigger] all[i]).0 == (#[trigger] flipp_chain(ci)).0
            && (#[trigger] all[j]).0 == (#[trigger] flipp_chain(cj)).0 implies ci < cj by {
        let si: int = if i < a.len() { 0 } else if i < a.len() + b.len() { 1 } else { 2 };
        let sj: int = if j < a.len() { 0 } else if j < a.len() + b.len() { 1 } else { 2 };
        assert(all[i].0 == flipp_chain(si).0);
        assert(all[j].0 == flipp_chain(sj).0);
        assert(si < sj);
        assert(ci == si);
        assert(cj == sj);
    }
}

/// An item sent to vision is a deal of the same name whose description is
/// only `On Sale`, so the text read off its image can take that place.
pub proof fn lemma_vision_items_are_on_sale(item: FlippItem)
    ensures
        vision_item(item) matches Some(v) ==> (item_deal(item) matches Some(d) && d.0 == v.0 && d.2 == "On Sale"@),
{
    if vision_item(item) is Some {
        assert(trimmed_nonempty(item.pre_price_text) is None);
        assert(trimmed_nonempty(item.price) is None);
        assert(trimmed_nonempty(item.description) is None);
        assert(price_parts(item) =~= Seq::<Seq<char>>::empty());
        assert(description_parts(item) =~= Seq::<Seq<char>>::empty());
    }
}

/// The deals of a flyer's items, as `items_to_deal_tuples` gives them.
pub open spec fn flyer_deals(items: Seq<FlippItem>) -> Seq<(Seq<char>, Option<Seq<char>>, Seq<char>, Seq<char>, Option<Seq<char>>)> {
    collect_some(items.map_values(|i: FlippItem| item_deal(i)))
}

/// The `(name, image_url)` of the items sent to vision, as `items_needing_vision` gives them.
pub open spec fn vision_items(items: Seq<FlippItem>) -> Seq<(Seq<char>, Seq<char>)> {
    collect_some(items.map_values(|i: FlippItem| vision_item(i)))
}

/// Every item sent to vision is, among the flyer's deals, one of the same name
/// described only as `On Sale`, and its image URL is trimmed and not empty.
pub proof fn lemma_vision_items_are_on_sale_deals(items: Seq<FlippItem>)
    ensures
        forall|j: int| 0 <= j < vision_items(items).len() ==> {
            &&& exists|k: int|
                0 <= k < flyer_deals(items).len() && (#[trigger] flyer_deals(items)[k]).0 == (
                #[trigger] vision_items(items)[j]).0 && flyer_deals(items)[k].2 == "On Sale"@
            &&& vision_items(items)[j].1 == trim(vision_items(items)[j].1)
            &&& vision_items(items)[j].1.len() > 0
        },
{
    let vs = items.map_values(|i: FlippItem| vision_item(i));
    let ds = items.map_values(|i: FlippItem| item_deal(i));
    lemma_collect_some_members(vs);
    lemma_collect_some_members(ds);
    let cv = vision_items(items);
    let cd = flyer_deals(items);
    assert forall|j: int| 0 <= j < cv.len() implies {
        &&& exists|k: int| 0 <= k < cd.len() && (#[trigger] cd[k]).0 == (#[trigger] cv[j]).0 && cd[k].2 == "On Sale"@
        &&& cv[j].1 == trim(cv[j].1)
        &&& cv[j].1.len() > 0
    } by {
        let i = choose|i: int| 0 <= i < vs.len() && vs[i] == Some(cv[j]);
        lemma_vision_items_are_on_sale(items[i]);
        assert(ds[i] is Some);
        let d = ds[i]->0;
        assert(cd.contains(d));
        let k = choose|k: int| 0 <= k < cd.len() && cd[k] == d;
        assert(cd[k].0 == cv[j].0);
        let raw = items[i].cutout_image_url->0@;
        assert(cv[j].1 == trim(raw));
        lemma_trim_idempotent(raw);
    }
}

/// The best flyer kept for a chain is one of the chain's own flyers, of the
/// priority that its name gives, and the match carries that flyer's id,
/// merchant id, trimmed merchant name, name and validity dates.
pub proof fn lemma_best_flyer_is_chains_own(flyers: Seq<FlippFlyer>, c: int)
    ensures
        best_for_chain(flyers, c) matches Some(b) ==> exists|k: int| {
            &&& 0 <= k < flyers.len()
            &&& #[trigger] flyer_of_chain(flyers[k], c)
            &&& b.1 == priority_of_flyer(flyers[k])
            &&& b.0.0 == flipp_chain(c).0
            &&& b.0.1 == flipp_chain(c).1
            &&& b.0.2 == Some(flyers[k].id)
            &&& b.0.3 == flyers[k].merchant_id
            &&& b.0.4 == trim(flyers[k].merchant->0@)
            &&& b.0.5 == opt_view(flyers[k].name)
            &&& b.0.6 == opt_view(flyers[k].valid_from)
            &&& b.0.7 == opt_view(flyers[k].valid_to)
            &&& forall|q: int| 0 <= q < k && #[trigger] flyer_of_chain(flyers[q], c)
                ==> priority_of_flyer(flyers[q]) < priority_of_flyer(flyers[k])
        },
    decreases flyers.len(),
{
    if flyers.len() > 0 {
        let init = flyers.drop_last();
        lemma_best_flyer_is_chains_own(init, c);
        let last = flyers.len() - 1;
        assert(flyers[last] == flyers.last());
        if best_for_chain(flyers, c) == best_for_chain(init, c) {
            if best_for_chain(init, c) is Some {
                let b = best_for_chain(init, c)->0;
                let k = choose|k: int| {
                    &&& 0 <= k < init.len()
                    &&& #[trigger] flyer_of_chain(init[k], c)
                    &&& b.1 == priority_of_flyer(init[k])
                    &&& b.0.0 == flipp_chain(c).0
                    &&& b.0.1 == flipp_chain(c).1
                    &&& b.0.2 == Some(init[k].id)
                    &&& b.0.3 == init[k].merchant_id
                    &&& b.0.4 == trim(init[k].merchant->0@)
                    &&& b.0.5 == opt_view(init[k].name)
                    &&& b.0.6 == opt_view(init[k].valid_from)
                    &&& b.0.7 == opt_view(init[k].valid_to)
                    &&& forall|q: int| 0 <= q < k && #[trigger] flyer_of_chain(init[q], c)
                        ==> priority_of_flyer(init[q]) < priority_of_flyer(init[k])
                };
                assert(init[k] == flyers[k]);
                assert(flyer_of_chain(flyers[k], c));
                assert forall|q: int| 0 <= q < k && #[trigger] flyer_of_chain(flyers[q], c)
                    implies priority_of_flyer(flyers[q]) < priority_of_flyer(flyers[k]) by {
                    assert(init[q] == flyers[q]);
                }
            }
        } else {
            assert(flyer_of_chain(flyers[last], c));
            lemma_best_flyer_is_highest(init, c);
            assert forall|q: int| 0 <= q < last && #[trigger] flyer_of_chain(flyers[q], c)
                implies priority_of_flyer(flyers[q]) < priority_of_flyer(flyers[last]) by {
                assert(init[q] == flyers[q]);
                assert(flyer_of_chain(init[q], c));
            }
        }
    }
}

/// The characters of a store match's fields, as `match_view` gives them.
pub type MatchView = (
    Seq<char>,
    Seq<char>,
    Option<i64>,
    Option<i64>,
    Seq<char>,
    Option<Seq<char>>,
    Option<Seq<char>>,
    Option<Seq<char>>,
);

/// `m` is chain `c`'s match for the `k`-th flyer, one of that chain's flyers
/// with no flyer of the chain of higher priority and none before it of the
/// same priority (the first of the highest): it carries the chain's id and
/// display name, and the flyer's own id, merchant id, trimmed merchant name,
/// name and validity dates.
pub open spec fn carries_best_flyer(m: MatchView, flyers: Seq<FlippFlyer>, k: int, c: int) -> bool {
    &&& 0 <= k < flyers.len()
    &&& 0 <= c < FLIPP_CHAIN_COUNT
    &&& flyer_of_chain(flyers[k], c)
    &&& m.0 == flipp_chain(c).0
    &&& m.1 == flipp_chain(c).1
    &&& m.2 == Some(flyers[k].id)
    &&& m.3 == flyers[k].merchant_id
    &&& m.4 == trim(flyers[k].merchant->0@)
    &&& m.5 == opt_view(flyers[k].name)
    &&& m.6 == opt_view(flyers[k].valid_from)
    &&& m.7 == opt_view(flyers[k].valid_to)
    &&& forall|q: int| 0 <= q < flyers.len() && #[trigger] flyer_of_chain(flyers[q], c)
        ==> priority_of_flyer(flyers[q]) <= priority_of_flyer(flyers[k])
    &&& forall|q: int| 0 <= q < k && #[trigger] flyer_of_chain(flyers[q], c)
        ==> priority_of_flyer(flyers[q]) < priority_of_flyer(flyers[k])
}

/// `m` is some supported chain's match for one of its flyers of the highest
/// priority, whose own fields it carries.
pub open spec fn from_best_flyer(m: MatchView, flyers: Seq<FlippFlyer>) -> bool {
    exists|k: int, c: int| #[trigger] carries_best_flyer(m, flyers, k, c)
}

/// Each match found in search results is that of a supported chain and of
/// one of its flyers of the highest priority, whose own id, merchant, name
/// and validity dates it carries; every chain that has a flyer among the
/// results has a match.
pub proof fn lemma_flyer_matches_carry_flyer(flyers: Seq<FlippFlyer>)
    ensures
        forall|j: int| 0 <= j < flyer_matches(flyers).len() ==> from_best_flyer(#[trigger] flyer_matches(flyers)[j], flyers),
        forall|k: int, c: int| 0 <= k < flyers.len() && 0 <= c < FLIPP_CHAIN_COUNT && #[trigger] flyer_of_chain(flyers[k], c)
            ==> exists|j: int| 0 <= j < flyer_matches(flyers).len() && (#[trigger] flyer_matches(flyers)[j]).0 == flipp_chain(c).0,
{
    lemma_best_flyer_is_highest(flyers, 0);
    lemma_best_flyer_is_highest(flyers, 1);
    lemma_best_flyer_is_highest(flyers, 2);
    lemma_best_flyer_is_chains_own(flyers, 0);
    lemma_best_flyer_is_chains_own(flyers, 1);
    lemma_best_flyer_is_chains_own(flyers, 2);
    let a = found(best_for_chain(flyers, 0));
    let b = found(best_for_chain(flyers, 1));
    let d = found(best_for_chain(flyers, 2));
    let all = flyer_matches(flyers);
    assert(all == a + b + d);
    assert forall|j: int| 0 <= j < all.len() implies from_best_flyer(#[trigger] all[j], flyers) by {
        let c: int = if j < a.len() { 0 } else if j < a.len() + b.len() { 1 } else { 2 };
        let bc = best_for_chain(flyers, c);
        if c == 0 {
            assert(all[j] == a[j]);
        } else if c == 1 {
            assert(all[j] == b[j - a.len()]);
        } else {
            assert(all[j] == d[j - a.len() - b.len()]);
        }
        assert(bc is Some);
        let bb = bc->0;
        assert(all[j] == bb.0);
        let k = choose|k: int| {
            &&& 0 <= k < flyers.len()
            &&& #[trigger] flyer_of_chain(flyers[k], c)
            &&& bb.1 == priority_of_flyer(flyers[k])
            &&& bb.0.0 == flipp_chain(c).0
            &&& bb.0.1 == flipp_chain(c).1
            &&& bb.0.2 == Some(flyers[k].id)
            &&& bb.0.3 == flyers[k].merchant_id
            &&& bb.0.4 == trim(flyers[k].merchant->0@)
            &&& bb.0.5 == opt_view(flyers[k].name)
            &&& bb.0.6 == opt_view(flyers[k].valid_from)
            &&& bb.0.7 == opt_view(flyers[k].valid_to)
            &&& forall|q: int| 0 <= q < k && #[trigger] flyer_of_chain(flyers[q], c)
                ==> priority_of_flyer(flyers[q]) < priority_of_flyer(flyers[k])
        };
        assert(flyer_of_chain(flyers[k], c));
        assert(carries_best_flyer(all[j], flyers, k, c));
    }
    assert forall|k: int, c: int| 0 <= k < flyers.len() && 0 <= c < FLIPP_CHAIN_COUNT && #[trigger] flyer_of_chain(flyers[k], c)
        implies exists|j: int| 0 <= j < all.len() && (#[trigger] all[j]).0 == flipp_chain(c).0 by {
        if c == 0 {
            assert(all[0] == a[0]);
        } else if c == 1 {
            assert(all[a.len() as int] == b[0]);
        } else {
            assert(all[(a.len() + b.len()) as int] == d[0]);
        }
    }
}

/// The store matches whose fields are those of the flyer matches are each
/// chain `c`'s match for one of its flyers of the highest priority, one per
/// chain, every chain with a flyer having one.
proof fn lemma_match_records_carry_flyer(r: Seq<FlippStoreMatch>, flyers: Seq<FlippFlyer>)
    requires
        r.map_values(|m: FlippStoreMatch| match_view(m)) == flyer_matches(flyers),
    ensures
        r.len() <= FLIPP_CHAIN_COUNT,
        forall|j: int| 0 <= j < r.len() ==> from_best_flyer(#[trigger] match_view(r[j]), flyers),
        forall|k: int, c: int| 0 <= k < flyers.len() && 0 <= c < FLIPP_CHAIN_COUNT && #[trigger] flyer_of_chain(flyers[k], c)
            ==> exists|j: int| 0 <= j < r.len() && (#[trigger] r[j]).chain_id@ == flipp_chain(c).0,
        forall|i: int, j: int| 0 <= i < j < r.len() ==> (#[trigger] r[i]).chain_id@ != (#[trigger] r[j]).chain_id@,
        forall|i: int, j: int, ci: int, cj: int|
            0 <= i < j < r.len() && 0 <= ci < FLIPP_CHAIN_COUNT && 0 <= cj < FLIPP_CHAIN_COUNT
                && (#[trigger] r[i]).chain_id@ == (#[trigger] flipp_chain(ci)).0
                && (#[trigger] r[j]).chain_id@ == (#[trigger] flipp_chain(cj)).0 ==> ci < cj,
{
    lemma_flyer_matches_carry_flyer(flyers);
    lemma_matches_in_chain_order(flyers);
    lemma_one_match_per_chain(flyers);
    let fm = flyer_matches(flyers);
    assert forall|j: int| 0 <= j < r.len() implies #[trigger] match_view(r[j]) == fm[j] by {
        assert(r.map_values(|m: FlippStoreMatch| match_view(m))[j] == match_view(r[j]));
    }
    assert forall|j: int| 0 <= j < r.len() implies from_best_flyer(#[trigger] match_view(r[j]), flyers) by {
        assert(match_view(r[j]) == fm[j]);
        let (k, c) = choose|k: int, c: int| #[trigger] carries_best_flyer(fm[j], flyers, k, c);
        assert(carries_best_flyer(match_view(r[j]), flyers, k, c));
    }
    assert forall|k: int, c: int| 0 <= k < flyers.len() && 0 <= c < FLIPP_CHAIN_COUNT && #[trigger] flyer_of_chain(flyers[k], c)
        implies exists|j: int| 0 <= j < r.len() && (#[trigger] r[j]).chain_id@ == flipp_chain(c).0 by {
        let j = choose|j: int| 0 <= j < fm.len() && (#[trigger] fm[j]).0 == flipp_chain(c).0;
        assert(match_view(r[j]) == fm[j]);
    }
    assert forall|i: int, j: int| 0 <= i < j < r.len() implies (#[trigger] r[i]).chain_id@ != (#[trigger] r[j]).chain_id@ by {
        assert(match_view(r[i]) == fm[i]);
        assert(match_view(r[j]) == fm[j]);
    }
    assert forall|i: int, j: int, ci: int, cj: int|
        0 <= i < j < r.len() && 0 <= ci < FLIPP_CHAIN_COUNT && 0 <= cj < FLIPP_CHAIN_COUNT
            && (#[trigger] r[i]).chain_id@ == (#[trigger] flipp_chain(ci)).0
            && (#[trigger] r[j]).chain_id@ == (#[trigger] flipp_chain(cj)).0 implies ci < cj by {
        assert(match_view(r[i]) == fm[i]);
        assert(match_view(r[j]) == fm[j]);
    }
}

/// Whether a flyer item is a deal with a name: it is not of the non-deal
/// display type and its name is not blank.
pub open spec fn is_named_deal_item(item: FlippItem) -> bool {
    item.display_type != Some(NON_DEAL_DISPLAY_TYPE) && has_text(item.name)
}

/// `d` is the deal of flyer item `item`: the item's trimmed name, its brand
/// and its cutout image as they are when they hold text (none otherwise), its
/// deal text, and no category yet.
pub open spec fn deal_carries_item(d: DealView, item: FlippItem) -> bool {
    &&& d.0 == trim(item.name->0@)
    &&& (if has_text(item.brand) { d.1 == Some(item.brand->0@) } else { d.1 is None })
    &&& d.2 == deal_description_text(item)
    &&& d.3 == "uncategorized"@
    &&& (if has_text(item.cutout_image_url) { d.4 == Some(item.cutout_image_url->0@) } else { d.4 is None })
}

/// `d` is the deal of one of the named deal items among `items`.
pub open spec fn deal_of_some_item(d: DealView, items: Seq<FlippItem>) -> bool {
    exists|k: int| 0 <= k < items.len() && is_named_deal_item(items[k]) && #[trigger] deal_carries_item(d, items[k])
}

/// A flyer item becomes a deal exactly when it is a deal with a name, and the
/// deal carries the item's trimmed name, brand, deal text and image.
pub proof fn lemma_item_deal_carries_item(item: FlippItem)
    ensures
        item_deal(item) is Some <==> is_named_deal_item(item),
        item_deal(item) matches Some(d) ==> deal_carries_item(d, item),
{
}

/// The deals of a flyer's items are those of its named deal items: each deal
/// carries the fields of one such item, and each such item gives a deal.
pub proof fn lemma_flyer_deals_carry_items(items: Seq<FlippItem>)
    ensures
        flyer_deals(items).len() <= items.len(),
        forall|j: int| 0 <= j < flyer_deals(items).len() ==> deal_of_some_item(#[trigger] flyer_deals(items)[j], items),
        forall|k: int| 0 <= k < items.len() && #[trigger] is_named_deal_item(items[k]) ==> exists|j: int|
            0 <= j < flyer_deals(items).len() && #[trigger] deal_carries_item(flyer_deals(items)[j], items[k]),
{
    let ds = items.map_values(|i: FlippItem| item_deal(i));
    lemma_collect_some_members(ds);
    lemma_collect_some_len(ds);
    let cd = flyer_deals(items);
    assert forall|j: int| 0 <= j < cd.len() implies deal_of_some_item(#[trigger] cd[j], items) by {
        let k = choose|k: int| 0 <= k < ds.len() && ds[k] == Some(cd[j]);
        lemma_item_deal_carries_item(items[k]);
        assert(deal_carries_item(cd[j], items[k]));
    }
    assert forall|k: int| 0 <= k < items.len() && #[trigger] is_named_deal_item(items[k]) implies exists|j: int|
        0 <= j < cd.len() && #[trigger] deal_carries_item(cd[j], items[k]) by {
        lemma_item_deal_carries_item(items[k]);
        assert(ds[k] == item_deal(items[k]));
        let j = choose|j: int| 0 <= j < cd.len() && cd[j] == ds[k]->0;
    }
}

/// Keeps, for each supported chain, the flyer most likely to be its weekly
/// grocery ad (the first of the highest priority). The matches come in chain order.
pub fn select_flyer_matches(flyers: &[FlippFlyer]) -> (r: Vec<FlippStoreMatch>)
    ensures
        r@.map_values(|m: FlippStoreMatch| match_view(m)) == flyer_matches(flyers@),
        r@.len() <= FLIPP_CHAIN_COUNT,
        forall|j: int| 0 <= j < r@.len() ==> from_best_flyer(#[trigger] match_view(r@[j]), flyers@),
        forall|k: int, c: int| 0 <= k < flyers@.len() && 0 <= c < FLIPP_CHAIN_COUNT && #[trigger] flyer_of_chain(flyers@[k], c)
            ==> exists|j: int| 0 <= j < r@.len() && (#[trigger] r@[j]).chain_id@ == flipp_chain(c).0,
        forall|i: int, j: int| 0 <= i < j < r@.len() ==> (#[trigger] r@[i]).chain_id@ != (#[trigger] r@[j]).chain_id@,
        forall|i: int, j: int, ci: int, cj: int|
            0 <= i < j < r@.len() && 0 <= ci < FLIPP_CHAIN_COUNT && 0 <= cj < FLIPP_CHAIN_COUNT
                && (#[trigger] r@[i]).chain_id@ == (#[trigger] flipp_chain(ci)).0
                && (#[trigger] r@[j]).chain_id@ == (#[trigger] flipp_chain(cj)).0 ==> ci < cj,
{
    let mut best: Vec<Option<(FlippStoreMatch, i32)>> = Vec::new();
    best.push(None);
    best.push(None);
    best.push(None);
    let mut i: usize = 0;
    while i < flyers.len()
        invariant
            i <= flyers.len(),
            best@.len() == 3,
            forall|c: int| 0 <= c < 3 ==> #[trigger] best_view(best@[c]) == best_for_chain(flyers@.take(i as int), c),
        decreases flyers.len() - i,
    {
        let ghost old_best = best@;
        let f = &flyers[i];
        proof {
            assert(flyers@.take(i + 1).drop_last() =~= flyers@.take(i as int));
            assert(flyers@.take(i + 1).last() == flyers@[i as int]);
        }
        match &f.merchant {
            None => {},
            Some(m) => {
                let merchant = trim_str(m.as_str());
                match chain_of_merchant_exec(merchant.as_str()) {
                    None => {},
                    Some(c) => {
                        let flyer_name = match &f.name {
                            Some(n) => to_lowercase(n.as_str()),
                            None => to_lowercase(""),
                        };
                        proof {
                            reveal_strlit("");
                            assert(""@ =~= Seq::<char>::empty());
                        }
                        let priority = flyer_priority(flyer_name.as_str());
                        let replace = match &best[c] {
                            Some(e) => priority > e.1,
                            None => true,
                        };
                        if replace {
                            let candidate = match_for(f, c, merchant.as_str());
                            best.set(c, Some((candidate, priority)));
                        }
                        proof {
                            let next = flyers@.take(i + 1);
                            assert forall|k: int| 0 <= k < 3 implies #[trigger] best_view(best@[k])
                                == best_for_chain(next, k) by {
                                assert(best_view(old_best[k]) == best_for_chain(flyers@.take(i as int), k));
                            }
                        }
                    },
                }
            },
        }
        proof {
            let next = flyers@.take(i + 1);
            assert forall|k: int| 0 <= k < 3 implies #[trigger] best_view(best@[k])
                == best_for_chain(next, k) by {
                assert(best_view(old_best[k]) == best_for_chain(flyers@.take(i as int), k));
            }
        }
        i += 1;
    }
    proof {
        assert(flyers@.take(flyers.len() as int) =~= flyers@);
    }
    let ghost bv = best@;
    assert(best_view(bv[0]) == best_for_chain(flyers@, 0));
    assert(best_view(bv[1]) == best_for_chain(flyers@, 1));
    assert(best_view(bv[2]) == best_for_chain(flyers@, 2));
    let third = best.pop();
    let second = best.pop();
    let first = best.pop();
    let mut r: Vec<FlippStoreMatch> = Vec::new();
    if let Some(Some((m, _))) = first {
        r.push(m);
    }
    let ghost r1 = r@;
    if let Some(Some((m, _))) = second {
        r.push(m);
    }
    let ghost r2 = r@;
    if let Some(Some((m, _))) = third {
        r.push(m);
    }
    proof {
        let mv = |m: FlippStoreMatch| match_view(m);
        assert(r1.map_values(mv) =~= found(best_for_chain(flyers@, 0)));
        assert(r2.map_values(mv) =~= found(best_for_chain(flyers@, 0)) + found(best_for_chain(flyers@, 1)));
        assert(r@.map_values(mv) =~= flyer_matches(flyers@));
        lemma_match_records_carry_flyer(r@, flyers@);
    }
    r
}

/// The week a flyer's deals are stored under: the ISO week of the date its
/// `valid_from` starts with, or the current week when it has no readable date.
pub fn week_id_from_valid_from(valid_from: &Option<String>) -> (r: String)
    ensures
        match valid_from {
            Some(v) => match leading_date_iso_week(v@) {
                Some(w) => r@ == iso_week_id_text(w.0 as int, w.1 as nat),
                None => exists|now: UtcNow| plausible_now(now) && r@ == week_id_text(now),
            },
            None => exists|now: UtcNow| plausible_now(now) && r@ == week_id_text(now),
        },
{
    if let Some(v) = valid_from {
        if let Some(w) = week_id_of_date_text(v.as_str()) {
            return w;
        }
    }
    current_week_id()
}

/// Calls `rand::thread_rng().gen_range(0..10)`: a random decimal digit.
#[verifier::external_body]
fn random_digit() -> (d: u64)
    ensures
        d < 10,
{
    rand::thread_rng().gen_range(0..10)
}

/// A random Flipp session id: sixteen decimal digits.
pub fn generate_session_id() -> (r: String)
    ensures
        r@.len() == 16,
        forall|i: int| 0 <= i < 16 ==> '0' <= #[trigger] r@[i] <= '9',
{
    let mut digits: Vec<char> = Vec::new();
    let mut i: usize = 0;
    while i < 16
        invariant
            i <= 16,
            digits@.len() == i,
            forall|k: int| 0 <= k < i ==> '0' <= #[trigger] digits@[k] <= '9',
        decreases 16 - i,
    {
        let d = random_digit();
        let c = crate::text::digit_of(d);
        digits.push(c);
        i += 1;
    }
    string_of(digits.as_slice())
}

/// Flipp's flyer search endpoint.
pub const FLIPP_FLYERS_URL: &'static str = "https://backflipp.wishabi.com/flipp/flyers";

/// The URL listing the items of a flyer.
pub open spec fn flyer_items_url_text(flyer_id: i64) -> Seq<char> {
    "https://flyers-ng.flippback.com/api/flipp/flyers/"@ + signed_decimal(flyer_id as int)
        + "/flyer_items"@
}

/// The URL listing the items of a flyer.
pub fn flyer_items_url(flyer_id: i64) -> (r: String)
    ensures
        r@ == flyer_items_url_text(flyer_id),
{
    let mut u = "https://flyers-ng.flippback.com/api/flipp/flyers/".to_string();
    let id = i64_to_string(flyer_id);
    u.append(id.as_str());
    u.append("/flyer_items");
    u
}

} // verus!
