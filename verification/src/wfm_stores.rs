//! The Whole Foods store catalog: slugs listed in the stores sitemap, and the
//! store id and name read from a store's page.

use vstd::prelude::*;
use crate::error::AppError;
use crate::patterns::{all_captures_of, first_capture_of, regex_all_captures, regex_first_capture};
use crate::text::{str_eq, views};

verus! {

/// The sitemap listing every Whole Foods store page.
pub const SITEMAP_URL: &'static str = "https://www.wholefoodsmarket.com/sitemap/sitemap-stores.xml";

/// How many store pages are fetched at a time.
pub const SCRAPE_CONCURRENCY: usize = 10;

/// The pattern of a store page in the sitemap; its group is the store's slug.
pub open spec fn sitemap_pattern() -> Seq<char> {
    r#"<loc>https://www\.wholefoodsmarket\.com/stores/([^<]+)</loc>"#@
}

/// The store slugs listed in the stores sitemap, in order.
pub fn parse_sitemap_slugs(xml: &str) -> (r: Vec<String>)
    ensures
        views(r@) == all_captures_of(sitemap_pattern(), xml@),
{
    regex_all_captures(r#"<loc>https://www\.wholefoodsmarket\.com/stores/([^<]+)</loc>"#, xml)
}

/// The page of a store.
pub open spec fn store_page_url_text(slug: Seq<char>) -> Seq<char> {
    "https://www.wholefoodsmarket.com/stores/"@ + slug
}

/// The page of a store.
pub fn store_page_url(slug: &str) -> (r: String)
    ensures
        r@ == store_page_url_text(slug@),
{
    let mut u = "https://www.wholefoodsmarket.com/stores/".to_string();
    u.append(slug);
    u
}

/// The pattern of the store id attribute of a store page.
pub open spec fn store_id_pattern() -> Seq<char> {
    r#"store-id="([^"]+)""#@
}

/// The pattern of the store name attribute of a store page.
pub open spec fn store_name_pattern() -> Seq<char> {
    r#"store-name="([^"]+)""#@
}

/// The message when a store page lacks an attribute.
pub open spec fn missing_attribute_message(attribute: Seq<char>, slug: Seq<char>) -> Seq<char> {
    "No "@ + attribute + " found for slug '"@ + slug + "'"@
}

fn missing_attribute(attribute: &str, slug: &str) -> (r: AppError)
    ensures
        r matches AppError::Internal(m) && m@ == missing_attribute_message(attribute@, slug@),
{
    let mut m = "No ".to_string();
    m.append(attribute);
    m.append(" found for slug '");
    m.append(slug);
    m.append("'");
    AppError::Internal(m)
}

/// Reads a store's id and name from the `store-id` and `store-name` attributes
/// of its page; a missing one is an internal error naming it and the slug.
pub fn extract_store_selector_attrs(html: &str, slug: &str) -> (r: Result<(String, String), AppError>)
    ensures
        match (first_capture_of(store_id_pattern(), html@), first_capture_of(store_name_pattern(), html@)) {
            (Some(id), Some(name)) => r matches Ok(p) && p.0@ == id && p.1@ == name,
            (None, _) => r matches Err(AppError::Internal(m)) && m@ == missing_attribute_message("store-id"@, slug@),
            (Some(_), None) => r matches Err(AppError::Internal(m)) && m@ == missing_attribute_message("store-name"@, slug@),
        },
{
    let store_id = match regex_first_capture(r#"store-id="([^"]+)""#, html) {
        Some(id) => id,
        None => return Err(missing_attribute("store-id", slug)),
    };
    let name = match regex_first_capture(r#"store-name="([^"]+)""#, html) {
        Some(n) => n,
        None => return Err(missing_attribute("store-name", slug)),
    };
    Ok((store_id, name))
}

/// The pattern of a page's JSON-LD script; its group is the JSON object.
pub open spec fn json_ld_pattern() -> Seq<char> {
    r#"(?s)<script type="application/ld\+json">\s*(\{.*?\})\s*</script>"#@
}

/// The JSON-LD object embedded in a store page, as text.
pub fn json_ld_text(html: &str) -> (r: Option<String>)
    ensures
        match r {
            Some(s) => first_capture_of(json_ld_pattern(), html@) == Some(s@),
            None => first_capture_of(json_ld_pattern(), html@) is None,
        },
{
    regex_first_capture(r#"(?s)<script type="application/ld\+json">\s*(\{.*?\})\s*</script>"#, html)
}

/// The slugs of the sitemap that are not known yet, each once, in sitemap order.
pub open spec fn unknown_slugs(sitemap: Seq<Seq<char>>, known: Seq<Seq<char>>) -> Seq<Seq<char>>
    decreases sitemap.len(),
{
    if sitemap.len() == 0 {
        Seq::empty()
    } else {
        let prev = unknown_slugs(sitemap.drop_last(), known);
        let s = sitemap.last();
        if known.contains(s) || prev.contains(s) {
            prev
        } else {
            prev.push(s)
        }
    }
}

fn contains_string(v: &Vec<String>, s: &str) -> (r: bool)
    ensures
        r == views(v@).contains(s@),
{
    let mut i: usize = 0;
    while i < v.len()
        invariant
            i <= v.len(),
            forall|k: int| 0 <= k < i ==> v@[k]@ != s@,
        decreases v.len() - i,
    {
        if str_eq(v[i].as_str(), s) {
            assert(views(v@)[i as int] == s@);
            return true;
        }
        i += 1;
    }
    proof {
        if views(v@).contains(s@) {
            let k = choose|k: int| 0 <= k < views(v@).len() && views(v@)[k] == s@;
            assert(v@[k]@ == s@);
        }
    }
    false
}

/// The sitemap's store slugs that are not in the catalog yet.
pub fn new_slugs(sitemap_slugs: &Vec<String>, known_slugs: &Vec<String>) -> (r: Vec<String>)
    ensures
        views(r@) == unknown_slugs(views(sitemap_slugs@), views(known_slugs@)),
{
    let mut r: Vec<String> = Vec::new();
    let mut i: usize = 0;
    while i < sitemap_slugs.len()
        invariant
            i <= sitemap_slugs.len(),
            views(r@) == unknown_slugs(views(sitemap_slugs@).take(i as int), views(known_slugs@)),
        decreases sitemap_slugs.len() - i,
    {
        let s = sitemap_slugs[i].as_str();
        proof {
            let sv = views(sitemap_slugs@);
            assert(sv.take(i + 1).drop_last() =~= sv.take(i as int));
            assert(sv.take(i + 1).last() == s@);
        }
        if !contains_string(known_slugs, s) && !contains_string(&r, s) {
            let ghost before = views(r@);
            r.push(s.to_string());
            assert(views(r@) =~= before.push(s@));
        }
        i += 1;
    }
    assert(views(sitemap_slugs@).take(sitemap_slugs.len() as int) =~= views(sitemap_slugs@));
    r
}

} // verus!
