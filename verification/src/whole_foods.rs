//! Whole Foods sales flyers: the promotions embedded in the page's
//! `__NEXT_DATA__`, and the deals they become.

use vstd::prelude::*;
use crate::models::{
    collect_some, lemma_collect_some_len, lemma_collect_some_members, lemma_collect_some_push, tuple_view, tuple_views,
    DealTuple, DealView,
};
use crate::text::{
    chars_of, contains_seq, first_occurrence, first_occurrence_exec, has_text, join, join_strings, lemma_join_contains_parts,
    non_blank,
    non_blank_exec, slice_chars, string_of, trim, trim_str, trimmed_nonempty, views,
};

verus! {

/// A promotion of the Whole Foods sales flyer.
#[derive(Debug, Clone)]
pub struct WfmPromotion {
    pub promotion_id: Option<String>,
    pub product_name: Option<String>,
    pub origin_brand_name: Option<String>,
    pub regular_price: Option<String>,
    pub sale_price: Option<String>,
    pub prime_price: Option<String>,
    pub product_image: Option<String>,
    pub romance_copy: Option<String>,
    pub headline: Option<String>,
}

/// The labelled prices that are given: sale, Prime member, regular.
pub open spec fn price_labels(regular: Option<String>, sale: Option<String>, prime: Option<String>) -> Seq<Seq<char>> {
    let p1: Seq<Seq<char>> = match trimmed_nonempty(sale) {
        Some(t) => seq!["Sale: "@ + t],
        None => Seq::empty(),
    };
    let p2 = match trimmed_nonempty(prime) {
        Some(t) => p1.push("Prime: "@ + t),
        None => p1,
    };
    match trimmed_nonempty(regular) {
        Some(t) => p2.push("Reg: "@ + t),
        None => p2,
    }
}

/// A promotion's deal text: its labelled prices joined by ` · `, or `On Sale`.
pub open spec fn wfm_deal_description(regular: Option<String>, sale: Option<String>, prime: Option<String>) -> Seq<char> {
    let parts = price_labels(regular, sale, prime);
    if parts.len() == 0 {
        "On Sale"@
    } else {
        join(parts, " · "@)
    }
}

fn labelled(label: &str, value: &Option<String>, parts: &mut Vec<String>)
    ensures
        views(final(parts)@) == match crate::text::trimmed_nonempty(*value) {
            Some(t) => views(old(parts)@).push(label@ + t),
            None => views(old(parts)@),
        },
{
    if let Some(v) = value {
        let t = trim_str(v.as_str());
        if !t.as_str().is_empty() {
            let mut p = label.to_string();
            p.append(t.as_str());
            let ghost before = views(parts@);
            let ghost pv = p@;
            parts.push(p);
            assert(views(parts@) =~= before.push(pv));
        }
    }
}

/// The deal text of a Whole Foods promotion from its sale, Prime and regular prices.
pub fn build_deal_description(regular: &Option<String>, sale: &Option<String>, prime: &Option<String>) -> (r: String)
    ensures
        r@ == wfm_deal_description(*regular, *sale, *prime),
        has_text(*sale) ==> contains_seq(r@, "Sale: "@ + trim(sale->0@)),
        has_text(*prime) ==> contains_seq(r@, "Prime: "@ + trim(prime->0@)),
        has_text(*regular) ==> contains_seq(r@, "Reg: "@ + trim(regular->0@)),
        !has_text(*sale) && !has_text(*prime) && !has_text(*regular) ==> r@ == "On Sale"@,
{
    proof {
        lemma_wfm_deal_text_mentions_prices(*regular, *sale, *prime);
    }
    let mut parts: Vec<String> = Vec::new();
    labelled("Sale: ", sale, &mut parts);
    labelled("Prime: ", prime, &mut parts);
    labelled("Reg: ", regular, &mut parts);
    assert(views(parts@) =~= price_labels(*regular, *sale, *prime));
    if parts.len() == 0 {
        "On Sale".to_string()
    } else {
        join_strings(&parts, " · ")
    }
}

/// A promotion's deal text tells its prices: `Sale: `, `Prime: ` and `Reg: `
/// each occur in it before the trimmed price when that price holds text, and
/// it is `On Sale` when none does.
pub proof fn lemma_wfm_deal_text_mentions_prices(regular: Option<String>, sale: Option<String>, prime: Option<String>)
    ensures
        has_text(sale) ==> contains_seq(wfm_deal_description(regular, sale, prime), "Sale: "@ + trim(sale->0@)),
        has_text(prime) ==> contains_seq(wfm_deal_description(regular, sale, prime), "Prime: "@ + trim(prime->0@)),
        has_text(regular) ==> contains_seq(wfm_deal_description(regular, sale, prime), "Reg: "@ + trim(regular->0@)),
        !has_text(sale) && !has_text(prime) && !has_text(regular) ==> wfm_deal_description(regular, sale, prime) == "On Sale"@,
{
    let parts = price_labels(regular, sale, prime);
    lemma_join_contains_parts(parts, " · "@);
    let p1: Seq<Seq<char>> = match trimmed_nonempty(sale) {
        Some(t) => seq!["Sale: "@ + t],
        None => Seq::empty(),
    };
    let p2 = match trimmed_nonempty(prime) {
        Some(t) => p1.push("Prime: "@ + t),
        None => p1,
    };
    if has_text(sale) {
        assert(parts[0] == p1[0]);
    }
    if has_text(prime) {
        assert(parts[p2.len() - 1] == p2[p2.len() - 1]);
    }
    if has_text(regular) {
        assert(parts[parts.len() - 1] == "Reg: "@ + trim(regular->0@));
    }
}

/// The deal a promotion becomes, when it names a product.
pub open spec fn promotion_deal(p: WfmPromotion) -> Option<(Seq<char>, Option<Seq<char>>, Seq<char>, Seq<char>, Option<Seq<char>>)> {
    match p.product_name {
        None => None,
        Some(n) => if trim(n@).len() == 0 {
            None
        } else {
            Some(
                (
                    trim(n@),
                    non_blank(p.origin_brand_name),
                    wfm_deal_description(p.regular_price, p.sale_price, p.prime_price),
                    "uncategorized"@,
                    non_blank(p.product_image),
                ),
            )
        },
    }
}

/// `d` is the deal of promotion `p`: the promotion's trimmed product name,
/// its brand and product image as they are when they hold text (none
/// otherwise), the deal text of its sale, Prime and regular prices, and no
/// category yet.
pub open spec fn deal_carries_promotion(d: DealView, p: WfmPromotion) -> bool {
    &&& d.0 == trim(p.product_name->0@)
    &&& (if has_text(p.origin_brand_name) { d.1 == Some(p.origin_brand_name->0@) } else { d.1 is None })
    &&& d.2 == wfm_deal_description(p.regular_price, p.sale_price, p.prime_price)
    &&& d.3 == "uncategorized"@
    &&& (if has_text(p.product_image) { d.4 == Some(p.product_image->0@) } else { d.4 is None })
}

/// A promotion becomes a deal exactly when its product name is not blank,
/// and the deal carries the promotion's name, brand, prices and image.
pub proof fn lemma_promotion_deal_carries_promotion(p: WfmPromotion)
    ensures
        promotion_deal(p) is Some <==> has_text(p.product_name),
        promotion_deal(p) matches Some(d) ==> deal_carries_promotion(d, p),
{
}

/// The deals of a flyer's promotions, as `promotions_to_deals` gives them.
pub open spec fn promotion_deals(promotions: Seq<WfmPromotion>) -> Seq<DealView> {
    collect_some(promotions.map_values(|p: WfmPromotion| promotion_deal(p)))
}

/// `d` is the deal of one of the promotions that name a product.
pub open spec fn deal_of_some_promotion(d: DealView, promotions: Seq<WfmPromotion>) -> bool {
    exists|k: int| 0 <= k < promotions.len() && has_text(promotions[k].product_name)
        && #[trigger] deal_carries_promotion(d, promotions[k])
}

/// The deals of a flyer's promotions are those of the promotions that name a
/// product: each deal carries the fields of one such promotion, and each such
/// promotion gives a deal.
pub proof fn lemma_promotion_deals_carry_promotions(promotions: Seq<WfmPromotion>)
    ensures
        promotion_deals(promotions).len() <= promotions.len(),
        forall|j: int| 0 <= j < promotion_deals(promotions).len()
            ==> deal_of_some_promotion(
            #[trigger] promotion_deals(promotions)[j],
            promotions,
        ),
        forall|k: int| 0 <= k < promotions.len() && #[trigger] has_text(promotions[k].product_name) ==> exists|j: int|
            0 <= j < promotion_deals(promotions).len()
                && #[trigger] deal_carries_promotion(
                promotion_deals(promotions)[j],
                promotions[k],
            ),
{
    let ds = promotions.map_values(|p: WfmPromotion| promotion_deal(p));
    lemma_collect_some_members(ds);
    lemma_collect_some_len(ds);
    let cd = collect_some(ds);
    assert forall|j: int| 0 <= j < cd.len() implies deal_of_some_promotion(#[trigger] cd[j], promotions) by {
        let k = choose|k: int| 0 <= k < ds.len() && ds[k] == Some(cd[j]);
        lemma_promotion_deal_carries_promotion(promotions[k]);
        assert(deal_carries_promotion(cd[j], promotions[k]));
    }
    assert forall|k: int| 0 <= k < promotions.len() && #[trigger] has_text(promotions[k].product_name) implies exists|j: int|
        0 <= j < cd.len() && #[trigger] deal_carries_promotion(cd[j], promotions[k]) by {
        lemma_promotion_deal_carries_promotion(promotions[k]);
        assert(ds[k] == promotion_deal(promotions[k]));
        let j = choose|j: int| 0 <= j < cd.len() && cd[j] == ds[k]->0;
    }
}

fn promotion_to_deal(p: &WfmPromotion) -> (r: Option<DealTuple>)
    ensures
        match r {
            Some(t) => promotion_deal(*p) == Some(tuple_view(t)),
            None => promotion_deal(*p) is None,
        },
        r is Some <==> has_text(p.product_name),
        r matches Some(t) ==> deal_carries_promotion(tuple_view(t), *p),
{
    proof {
        lemma_promotion_deal_carries_promotion(*p);
    }
    let name = match &p.product_name {
        Some(n) => trim_str(n.as_str()),
        None => return None,
    };
    if name.as_str().is_empty() {
        return None;
    }
    let brand = non_blank_exec(&p.origin_brand_name);
    let description = build_deal_description(&p.regular_price, &p.sale_price, &p.prime_price);
    let image_url = non_blank_exec(&p.product_image);
    Some((name, brand, description, "uncategorized".to_string(), image_url))
}

/// The deals of the flyer's promotions, in order; the model categorizes them later.
pub fn promotions_to_deals(promotions: &[WfmPromotion]) -> (r: Vec<DealTuple>)
    ensures
        tuple_views(r@) == collect_some(promotions@.map_values(|p: WfmPromotion| promotion_deal(p))),
        r@.len() <= promotions@.len(),
        forall|j: int| 0 <= j < r@.len() ==> deal_of_some_promotion(#[trigger] tuple_views(r@)[j], promotions@),
        forall|k: int| 0 <= k < promotions@.len() && #[trigger] has_text(promotions@[k].product_name) ==> exists|j: int|
            0 <= j < r@.len() && #[trigger] deal_carries_promotion(tuple_views(r@)[j], promotions@[k]),
{
    let mut r: Vec<DealTuple> = Vec::new();
    let mut i: usize = 0;
    while i < promotions.len()
        invariant
            i <= promotions.len(),
            tuple_views(r@) == collect_some(promotions@.take(i as int).map_values(|p: WfmPromotion| promotion_deal(p))),
        decreases promotions.len() - i,
    {
        let d = promotion_to_deal(&promotions[i]);
        proof {
            let s = promotions@.take(i as int).map_values(|p: WfmPromotion| promotion_deal(p));
            assert(promotions@.take(i + 1).map_values(|p: WfmPromotion| promotion_deal(p)) =~= s.push(
                promotion_deal(promotions@[i as int]),
            ));
            lemma_collect_some_push(s, promotion_deal(promotions@[i as int]));
        }
        match d {
            Some(t) => {
                r.push(t);
                assert(tuple_views(r@) =~= tuple_views(r@.drop_last()).push(tuple_view(r@.last())));
            },
            None => {},
        }
        i += 1;
    }
    assert(promotions@.take(promotions.len() as int) =~= promotions@);
    proof {
        lemma_promotion_deals_carry_promotions(promotions@);
    }
    r
}

/// The JSON of the page's `__NEXT_DATA__` script: from after the `>` that
/// follows the first `__NEXT_DATA__` to the next `</script>`.
pub open spec fn next_data(html: Seq<char>) -> Option<Seq<char>> {
    match first_occurrence(html, "__NEXT_DATA__"@, 0) {
        None => None,
        Some(s) => match first_occurrence(html, seq!['>'], s) {
            None => None,
            Some(g) => match first_occurrence(html, "</script>"@, g + 1) {
                None => None,
                Some(e) => Some(html.subrange(g + 1, e)),
            },
        },
    }
}

/// Finds the `__NEXT_DATA__` JSON in the flyer page.
pub fn extract_next_data(html: &str) -> (r: Option<String>)
    ensures
        match r {
            Some(s) => next_data(html@) == Some(s@),
            None => next_data(html@) is None,
        },
{
    let h = chars_of(html);
    let marker = chars_of("__NEXT_DATA__");
    let close_tag = chars_of("</script>");
    let mut gt: Vec<char> = Vec::new();
    gt.push('>');
    let start_tag = match first_occurrence_exec(h.as_slice(), marker.as_slice(), 0) {
        Some(s) => s,
        None => return None,
    };
    let json_start = match first_occurrence_exec(h.as_slice(), gt.as_slice(), start_tag) {
        Some(g) => g,
        None => return None,
    };
    assert(gt@ =~= seq!['>']);
    let json_begin = json_start + 1;
    let json_end = match first_occurrence_exec(h.as_slice(), close_tag.as_slice(), json_begin) {
        Some(e) => e,
        None => return None,
    };
    let json = slice_chars(h.as_slice(), json_begin, json_end);
    Some(string_of(json.as_slice()))
}

/// The sales flyer page of a store.
pub open spec fn sales_flyer_url_text(store_id: Seq<char>) -> Seq<char> {
    "https://www.wholefoodsmarket.com/sales-flyer?store-id="@ + store_id
}

/// The sales flyer page of a store.
pub fn sales_flyer_url(store_id: &str) -> (r: String)
    ensures
        r@ == sales_flyer_url_text(store_id@),
{
    let mut u = "https://www.wholefoodsmarket.com/sales-flyer?store-id=".to_string();
    u.append(store_id);
    u
}

/// The store Whole Foods deals are fetched for when the location's ad URL names none (Redmond).
pub open spec fn default_store_id() -> Seq<char> {
    "10260"@
}

/// The store id that a weekly ad URL names: the text after the first
/// `store-id=`, up to the next `store-id=` and then the first `&`.
pub open spec fn store_id_in(url: Seq<char>) -> Option<Seq<char>> {
    match first_occurrence(url, "store-id="@, 0) {
        None => None,
        Some(p) => {
            let rest = url.subrange(p + "store-id="@.len(), url.len() as int);
            let segment = match first_occurrence(rest, "store-id="@, 0) {
                Some(q) => rest.subrange(0, q),
                None => rest,
            };
            Some(
                match first_occurrence(segment, seq!['&'], 0) {
                    Some(a) => segment.subrange(0, a),
                    None => segment,
                },
            )
        },
    }
}

/// The Whole Foods store id of a location: from its weekly ad URL, else the default.
pub open spec fn wfm_store_id_text(weekly_ad_url: Option<Seq<char>>) -> Seq<char> {
    match weekly_ad_url {
        Some(u) => match store_id_in(u) {
            Some(id) => id,
            None => default_store_id(),
        },
        None => default_store_id(),
    }
}

/// The Whole Foods store id named by a location's weekly ad URL, or the default store.
pub fn wfm_store_id(weekly_ad_url: &Option<String>) -> (r: String)
    ensures
        r@ == wfm_store_id_text(crate::text::opt_view(*weekly_ad_url)),
{
    let url = match weekly_ad_url {
        Some(u) => u,
        None => return "10260".to_string(),
    };
    let v = chars_of(url.as_str());
    let key = chars_of("store-id=");
    let p = match first_occurrence_exec(v.as_slice(), key.as_slice(), 0) {
        Some(p) => p,
        None => return "10260".to_string(),
    };
    let rest = slice_chars(v.as_slice(), p + key.len(), v.len());
    let segment = match first_occurrence_exec(rest.as_slice(), key.as_slice(), 0) {
        Some(q) => slice_chars(rest.as_slice(), 0, q),
        None => rest,
    };
    let mut amp: Vec<char> = Vec::new();
    amp.push('&');
    assert(amp@ =~= seq!['&']);
    let id = match first_occurrence_exec(segment.as_slice(), amp.as_slice(), 0) {
        Some(a) => slice_chars(segment.as_slice(), 0, a),
        None => segment,
    };
    string_of(id.as_slice())
}

} // verus!
