//! H Mart weekly ads: week ids from flyer dates, image kinds, flyer image
//! URLs found on the sale page, thumbnails cut from the flyer grid, and the
//! deals the model read from the flyer.

use std::collections::hash_map::DefaultHasher;
use std::hash::Hasher;
use vstd::prelude::*;
use vstd::std_specs::hash::DefaultHasherAdditionalSpecFns;
use crate::ai_deals::{ai_item_deal, AiDealItem, ai_item_to_deal};
use crate::deals_hash::{is_lower_hex, lemma_hex_digits_shape};
use crate::error::AppError;
use crate::models::{collect_some, lemma_collect_some_push, tuple_view, tuple_views, Deal, DealTuple};
use crate::patterns::{
    all_captures_of, first_capture_of, first_match_of, regex_all_captures, regex_find,
    regex_first_capture,
};
use crate::text::{
    chars_of, clone_opt, contains_seq, hex16, hex_digits, no_ascii_upper, opt_view, str_contains, str_eq,
    string_of,
};

verus! {

/// H Mart's Washington weekly sale page.
pub const HMART_WA_WEEKLY_AD_URL: &'static str = "https://www.hmartus.com/weekly-sale-wa";

/// How many H Mart stores are in Washington.
pub const HMART_WA_STORE_COUNT: usize = 9;

/// The Washington H Mart stores, as `(zip code, store name)`.
pub open spec fn hmart_wa_store_spec(i: int) -> (Seq<char>, Seq<char>) {
    if i == 0 {
        ("98101"@, "H Mart - Seattle"@)
    } else if i == 1 {
        ("98003"@, "H Mart - Federal Way"@)
    } else if i == 2 {
        ("98052"@, "H Mart - Redmond"@)
    } else if i == 3 {
        ("98037"@, "H Mart - Lynnwood"@)
    } else if i == 4 {
        ("98105"@, "H Mart - UW"@)
    } else if i == 5 {
        ("98499"@, "H Mart - Tacoma"@)
    } else if i == 6 {
        ("98109"@, "H Mart - District H"@)
    } else if i == 7 {
        ("98107"@, "H Mart - Ballard"@)
    } else {
        ("98004"@, "H Mart - Bellevue"@)
    }
}

/// The `i`-th Washington H Mart store, as `(zip code, store name)`.
pub fn hmart_wa_store(i: usize) -> (r: (&'static str, &'static str))
    requires
        i < HMART_WA_STORE_COUNT,
    ensures
        (r.0@, r.1@) == hmart_wa_store_spec(i as int),
{
    if i == 0 {
        ("98101", "H Mart - Seattle")
    } else if i == 1 {
        ("98003", "H Mart - Federal Way")
    } else if i == 2 {
        ("98052", "H Mart - Redmond")
    } else if i == 3 {
        ("98037", "H Mart - Lynnwood")
    } else if i == 4 {
        ("98105", "H Mart - UW")
    } else if i == 5 {
        ("98499", "H Mart - Tacoma")
    } else if i == 6 {
        ("98109", "H Mart - District H")
    } else if i == 7 {
        ("98107", "H Mart - Ballard")
    } else {
        ("98004", "H Mart - Bellevue")
    }
}

/// Whether a character separates date fields (`/`, `-`, `.`).
pub open spec fn is_date_separator(c: char) -> bool {
    c == '/' || c == '-' || c == '.'
}

/// `s` without its date separators.
pub open spec fn strip_separators(s: Seq<char>) -> Seq<char>
    decreases s.len(),
{
    if s.len() == 0 {
        Seq::empty()
    } else if is_date_separator(s.last()) {
        strip_separators(s.drop_last())
    } else {
        strip_separators(s.drop_last()).push(s.last())
    }
}

fn strip_separators_exec(s: &str) -> (r: Vec<char>)
    ensures
        r@ == strip_separators(s@),
{
    let v = chars_of(s);
    let mut r: Vec<char> = Vec::new();
    let mut i: usize = 0;
    while i < v.len()
        invariant
            i <= v.len(),
            v@ == s@,
            r@ == strip_separators(v@.take(i as int)),
        decreases v.len() - i,
    {
        let c = v[i];
        assert(v@.take(i + 1).drop_last() =~= v@.take(i as int));
        if !(c == '/' || c == '-' || c == '.') {
            r.push(c);
        }
        i += 1;
    }
    assert(v@.take(v.len() as int) =~= v@);
    r
}

/// The week id of a flyer valid over the given dates, `hmart-{from}-{to}`,
/// each date without separators.
pub open spec fn hmart_week_id_text(valid_from: Seq<char>, valid_to: Seq<char>) -> Seq<char> {
    "hmart-"@ + strip_separators(valid_from) + "-"@ + strip_separators(valid_to)
}

/// Builds a week id from a flyer's valid dates, e.g. `hmart-20260306-20260312`.
pub fn week_id_from_valid_dates(valid_from: &str, valid_to: &str) -> (r: String)
    ensures
        r@ == hmart_week_id_text(valid_from@, valid_to@),
{
    proof {
        reveal_strlit("hmart-");
        reveal_strlit("-");
    }
    let mut v: Vec<char> = Vec::new();
    v.push('h');
    v.push('m');
    v.push('a');
    v.push('r');
    v.push('t');
    v.push('-');
    let mut from = strip_separators_exec(valid_from);
    v.append(&mut from);
    v.push('-');
    let mut to = strip_separators_exec(valid_to);
    v.append(&mut to);
    assert(v@ =~= hmart_week_id_text(valid_from@, valid_to@));
    string_of(v.as_slice())
}

/// H Mart deals fetched for a location: the weekly flyer's deals with its
/// week and dates, and, when a monthly ad was found, its deals and month id.
#[derive(Debug)]
pub struct HmartDealsResult {
    pub weekly_deals: Vec<DealTuple>,
    pub weekly_week_id: String,
    pub weekly_valid_from: String,
    pub weekly_valid_to: String,
    pub monthly_deals: Vec<DealTuple>,
    pub monthly_week_id: Option<String>,
}

/// The tuple form of a stored deal.
pub open spec fn deal_to_tuple(d: Deal) -> (Seq<char>, Option<Seq<char>>, Seq<char>, Seq<char>, Option<Seq<char>>) {
    (d.item_name@, opt_view(d.brand), d.deal_description@, d.category@, opt_view(d.image_url))
}

/// Stored deals turned back into deal tuples, in order.
pub fn sibling_deals_to_tuples(deals: &[Deal]) -> (r: Vec<DealTuple>)
    ensures
        tuple_views(r@) == deals@.map_values(|d: Deal| deal_to_tuple(d)),
{
    let mut r: Vec<DealTuple> = Vec::new();
    let mut i: usize = 0;
    while i < deals.len()
        invariant
            i <= deals.len(),
            tuple_views(r@) == deals@.take(i as int).map_values(|d: Deal| deal_to_tuple(d)),
        decreases deals.len() - i,
    {
        let d = &deals[i];
        r.push(
            (
                d.item_name.clone(),
                clone_opt(&d.brand),
                d.deal_description.clone(),
                d.category.clone(),
                clone_opt(&d.image_url),
            ),
        );
        proof {
            assert(tuple_view(r@.last()) == deal_to_tuple(deals@[i as int]));
            assert(tuple_views(r@) =~= tuple_views(r@.drop_last()).push(tuple_view(r@.last())));
            assert(deals@.take(i + 1).map_values(|d: Deal| deal_to_tuple(d)) =~= deals@.take(i as int).map_values(
                |d: Deal| deal_to_tuple(d),
            ).push(deal_to_tuple(deals@[i as int])));
        }
        i += 1;
    }
    assert(deals@.take(deals.len() as int) =~= deals@);
    r
}

/// The text of an optional string, or the empty string.
pub open spec fn text_or_empty(o: Option<String>) -> Seq<char> {
    match o {
        Some(s) => s@,
        None => Seq::empty(),
    }
}

/// The weekly deals copied from a sibling H Mart location that already has
/// the week cached: dates come from the first deal, no monthly deals.
pub fn sibling_result(existing_week_id: String, sibling_deals: &[Deal]) -> (r: HmartDealsResult)
    ensures
        tuple_views(r.weekly_deals@) == sibling_deals@.map_values(|d: Deal| deal_to_tuple(d)),
        r.weekly_week_id@ == existing_week_id@,
        r.weekly_valid_from@ == (if sibling_deals@.len() > 0 {
            text_or_empty(sibling_deals@[0].valid_from)
        } else {
            Seq::empty()
        }),
        r.weekly_valid_to@ == (if sibling_deals@.len() > 0 {
            text_or_empty(sibling_deals@[0].valid_to)
        } else {
            Seq::empty()
        }),
        r.monthly_deals@.len() == 0,
        r.monthly_week_id is None,
{
    let (valid_from, valid_to) = if sibling_deals.len() > 0 {
        let f = match &sibling_deals[0].valid_from {
            Some(s) => s.clone(),
            None => String::new(),
        };
        let t = match &sibling_deals[0].valid_to {
            Some(s) => s.clone(),
            None => String::new(),
        };
        (f, t)
    } else {
        (String::new(), String::new())
    };
    HmartDealsResult {
        weekly_deals: sibling_deals_to_tuples(sibling_deals),
        weekly_week_id: existing_week_id,
        weekly_valid_from: valid_from,
        weekly_valid_to: valid_to,
        monthly_deals: Vec::new(),
        monthly_week_id: None,
    }
}

/// The monthly ad image to use: the first one found on the sale page, else the
/// popup's.
pub fn choose_monthly_url(page_urls: &[String], popup_url: Option<String>) -> (r: Option<String>)
    ensures
        page_urls@.len() > 0 ==> r == Some(page_urls@[0]),
        page_urls@.len() == 0 ==> r == popup_url,
{
    if page_urls.len() > 0 {
        Some(page_urls[0].clone())
    } else {
        popup_url
    }
}

/// Sets the thumbnail URL of each deal that a thumbnail was cut for; a later
/// thumbnail for the same deal wins.
pub open spec fn with_thumbnails(
    deals: Seq<(Seq<char>, Option<Seq<char>>, Seq<char>, Seq<char>, Option<Seq<char>>)>,
    thumbnails: Seq<(usize, Seq<char>)>,
) -> Seq<(Seq<char>, Option<Seq<char>>, Seq<char>, Seq<char>, Option<Seq<char>>)>
    decreases thumbnails.len(),
{
    if thumbnails.len() == 0 {
        deals
    } else {
        let prev = with_thumbnails(deals, thumbnails.drop_last());
        let (i, url) = thumbnails.last();
        if i < prev.len() {
            prev.update(i as int, (prev[i as int].0, prev[i as int].1, prev[i as int].2, prev[i as int].3, Some(url)))
        } else {
            prev
        }
    }
}

/// Attaches thumbnail URLs to the deals they were cut for.
pub fn apply_thumbnails(deals: &mut Vec<DealTuple>, thumbnails: &[Thumbnail])
    ensures
        tuple_views(final(deals)@) == with_thumbnails(
            tuple_views(old(deals)@),
            thumbnails@.map_values(|t: Thumbnail| (t.deal_index, t.url@)),
        ),
{
    let ghost ts = thumbnails@.map_values(|t: Thumbnail| (t.deal_index, t.url@));
    let mut k: usize = 0;
    while k < thumbnails.len()
        invariant
            k <= thumbnails.len(),
            ts == thumbnails@.map_values(|t: Thumbnail| (t.deal_index, t.url@)),
            tuple_views(deals@) == with_thumbnails(tuple_views(old(deals)@), ts.take(k as int)),
        decreases thumbnails.len() - k,
    {
        let index = thumbnails[k].deal_index;
        assert(ts.take(k + 1).drop_last() =~= ts.take(k as int));
        if index < deals.len() {
            let url = thumbnails[k].url.clone();
            let mut deal = deals.remove(index);
            deal.4 = Some(url);
            deals.insert(index, deal);
        }
        proof {
            let prev = with_thumbnails(tuple_views(old(deals)@), ts.take(k as int));
            assert(ts.take(k + 1).last() == ts[k as int]);
            assert(tuple_views(deals@) =~= with_thumbnails(tuple_views(old(deals)@), ts.take(k + 1)));
        }
        k += 1;
    }
    assert(ts.take(thumbnails.len() as int) =~= ts);
}

/// The image format that a flyer's bytes announce, defaulting to JPEG.
pub open spec fn media_type_of(b: Seq<u8>) -> Seq<char> {
    if b.len() >= 12 && b[0] == 0x52 && b[1] == 0x49 && b[2] == 0x46 && b[3] == 0x46 && b[8] == 0x57
        && b[9] == 0x45 && b[10] == 0x42 && b[11] == 0x50 {
        "image/webp"@
    } else if b.len() >= 3 && b[0] == 0xFF && b[1] == 0xD8 && b[2] == 0xFF {
        "image/jpeg"@
    } else if b.len() >= 4 && b[0] == 0x89 && b[1] == 0x50 && b[2] == 0x4E && b[3] == 0x47 {
        "image/png"@
    } else if b.len() >= 3 && b[0] == 0x47 && b[1] == 0x49 && b[2] == 0x46 {
        "image/gif"@
    } else {
        "image/jpeg"@
    }
}

/// Detects an image's media type from its leading bytes: `RIFF....WEBP` is
/// WebP, `FF D8 FF` JPEG, `89 P N G` PNG, `GIF` GIF; anything else is taken for JPEG.
pub fn detect_image_media_type(bytes: &[u8]) -> (r: &'static str)
    ensures
        r@ == media_type_of(bytes@),
{
    let n = bytes.len();
    if n >= 12 && bytes[0] == 0x52 && bytes[1] == 0x49 && bytes[2] == 0x46 && bytes[3] == 0x46
        && bytes[8] == 0x57 && bytes[9] == 0x45 && bytes[10] == 0x42 && bytes[11] == 0x50 {
        "image/webp"
    } else if n >= 3 && bytes[0] == 0xFF && bytes[1] == 0xD8 && bytes[2] == 0xFF {
        "image/jpeg"
    } else if n >= 4 && bytes[0] == 0x89 && bytes[1] == 0x50 && bytes[2] == 0x4E && bytes[3] == 0x47 {
        "image/png"
    } else if n >= 3 && bytes[0] == 0x47 && bytes[1] == 0x49 && bytes[2] == 0x46 {
        "image/gif"
    } else {
        "image/jpeg"
    }
}

/// `url` with `?format={format}` appended, unless it already has a query.
pub open spec fn with_format(url: Seq<char>, format: Seq<char>) -> Seq<char> {
    if url.contains('?') {
        url
    } else {
        url + "?format="@ + format
    }
}

/// Asks the image CDN for a given rendition, unless the URL already has a query.
pub fn append_format_if_needed(url: &str, format: &str) -> (r: String)
    ensures
        r@ == with_format(url@, format@),
{
    let v = chars_of(url);
    match crate::text::find_char(v.as_slice(), '?') {
        Some(_) => url.to_string(),
        None => {
            let mut r = url.to_string();
            r.append("?format=");
            r.append(format);
            r
        },
    }
}

/// The patterns that find the English weekly flyer image on the sale page, in order.
pub open spec fn weekly_pattern(i: int) -> Seq<char> {
    if i == 0 {
        r#"src="(https://images\.squarespace-cdn\.com/[^"]*Weekly_eng[^"]*)""#@
    } else if i == 1 {
        r#"data-src="([^"]*Weekly_eng[^"]*)""#@
    } else {
        r#"data-image="([^"]*Weekly_eng[^"]*)""#@
    }
}

fn weekly_pattern_exec(i: usize) -> (r: &'static str)
    requires
        i < 3,
    ensures
        r@ == weekly_pattern(i as int),
{
    if i == 0 {
        r#"src="(https://images\.squarespace-cdn\.com/[^"]*Weekly_eng[^"]*)""#
    } else if i == 1 {
        r#"data-src="([^"]*Weekly_eng[^"]*)""#
    } else {
        r#"data-image="([^"]*Weekly_eng[^"]*)""#
    }
}

/// The pattern of monthly ad images on the sale page.
pub open spec fn monthly_pattern() -> Seq<char> {
    r#"(?:src|data-src|data-image)="(https://images\.squarespace-cdn\.com/[^"]*[Mm]onthly[^"]*)""#@
}

/// The pattern of ad images in the popup overlay.
pub open spec fn popup_pattern() -> Seq<char> {
    r#"https://images\.squarespace-cdn\.com/content/[^"\\]*(?:[Mm]onthly|[Aa]d)[^"\\]*\.(?:jpg|jpeg|png|webp)"#@
}

/// The weekly flyer image URL found on the page: the first pattern that matches wins.
pub open spec fn weekly_image_url(html: Seq<char>) -> Option<Seq<char>> {
    if first_capture_of(weekly_pattern(0), html) is Some {
        first_capture_of(weekly_pattern(0), html)
    } else if first_capture_of(weekly_pattern(1), html) is Some {
        first_capture_of(weekly_pattern(1), html)
    } else {
        first_capture_of(weekly_pattern(2), html)
    }
}

/// `s` without repeats, keeping first occurrences in order.
pub open spec fn dedup(s: Seq<Seq<char>>) -> Seq<Seq<char>>
    decreases s.len(),
{
    if s.len() == 0 {
        Seq::empty()
    } else if dedup(s.drop_last()).contains(s.last()) {
        dedup(s.drop_last())
    } else {
        dedup(s.drop_last()).push(s.last())
    }
}

/// The rendition of the flyer images requested.
pub open spec fn image_format() -> Seq<char> {
    "2500w"@
}

/// The message when the sale page shows no English weekly flyer.
pub open spec fn no_weekly_image_message() -> Seq<char> {
    "Could not find English weekly ad image on H Mart WA page"@
}

/// The weekly flyer image URL and the monthly ad image URLs of the sale page.
pub open spec fn ad_image_urls(html: Seq<char>) -> Option<(Seq<char>, Seq<Seq<char>>)> {
    match weekly_image_url(html) {
        Some(u) => Some(
            (
                with_format(u, image_format()),
                dedup(all_captures_of(monthly_pattern(), html).map_values(|m: Seq<char>| with_format(m, image_format()))),
            ),
        ),
        None => None,
    }
}

fn vec_contains_str(v: &Vec<String>, s: &str) -> (r: bool)
    ensures
        r == v@.map_values(|x: String| x@).contains(s@),
{
    let mut i: usize = 0;
    while i < v.len()
        invariant
            i <= v.len(),
            forall|k: int| 0 <= k < i ==> v@[k]@ != s@,
        decreases v.len() - i,
    {
        if str_eq(v[i].as_str(), s) {
            assert(v@.map_values(|x: String| x@)[i as int] == s@);
            return true;
        }
        i += 1;
    }
    proof {
        let vs = v@.map_values(|x: String| x@);
        if vs.contains(s@) {
            let k = choose|k: int| 0 <= k < vs.len() && vs[k] == s@;
            assert(v@[k]@ == s@);
        }
    }
    false
}

/// Finds the weekly flyer image and any monthly ad images on the H Mart sale
/// page, each asked in the `2500w` rendition; monthly images are listed once.
pub fn hmart_ad_image_urls(html: &str) -> (r: Result<(String, Vec<String>), AppError>)
    ensures
        match r {
            Ok(p) => ad_image_urls(html@) == Some((p.0@, p.1@.map_values(|x: String| x@))),
            Err(AppError::Internal(m)) => ad_image_urls(html@) is None && m@ == no_weekly_image_message(),
            Err(_) => false,
        },
{
    let mut weekly = regex_first_capture(weekly_pattern_exec(0), html);
    if weekly.is_none() {
        weekly = regex_first_capture(weekly_pattern_exec(1), html);
        if weekly.is_none() {
            weekly = regex_first_capture(weekly_pattern_exec(2), html);
        }
    }
    let weekly_url = match weekly {
        Some(u) => append_format_if_needed(u.as_str(), "2500w"),
        None => {
            return Err(AppError::Internal("Could not find English weekly ad image on H Mart WA page".to_string()));
        },
    };
    let captures = regex_all_captures(
        r#"(?:src|data-src|data-image)="(https://images\.squarespace-cdn\.com/[^"]*[Mm]onthly[^"]*)""#,
        html,
    );
    let ghost formatted = captures@.map_values(|x: String| x@).map_values(|m: Seq<char>| with_format(m, image_format()));
    let mut additional: Vec<String> = Vec::new();
    let mut k: usize = 0;
    while k < captures.len()
        invariant
            k <= captures.len(),
            formatted == captures@.map_values(|x: String| x@).map_values(|m: Seq<char>| with_format(m, image_format())),
            additional@.map_values(|x: String| x@) == dedup(formatted.take(k as int)),
        decreases captures.len() - k,
    {
        let url = append_format_if_needed(captures[k].as_str(), "2500w");
        assert(formatted.take(k + 1).drop_last() =~= formatted.take(k as int));
        assert(formatted[k as int] == url@);
        if !vec_contains_str(&additional, url.as_str()) {
            additional.push(url);
            assert(additional@.map_values(|x: String| x@) =~= dedup(formatted.take(k as int)).push(formatted[k as int]));
        }
        k += 1;
    }
    assert(formatted.take(captures.len() as int) =~= formatted);
    Ok((weekly_url, additional))
}

/// The ad image found in the popup overlay's rendered HTML, in the `2500w` rendition.
pub fn popup_ad_image_url(rendered_html: &str) -> (r: Option<String>)
    ensures
        match first_match_of(popup_pattern(), rendered_html@) {
            Some(u) => r matches Some(s) && s@ == with_format(u, image_format()),
            None => r is None,
        },
{
    let found = regex_find(
        r#"https://images\.squarespace-cdn\.com/content/[^"\\]*(?:[Mm]onthly|[Aa]d)[^"\\]*\.(?:jpg|jpeg|png|webp)"#,
        rendered_html,
    );
    match found {
        Some(u) => Some(append_format_if_needed(u.as_str(), "2500w")),
        None => None,
    }
}

/// A thumbnail cut from the flyer for one deal: the JPEG bytes, the file
/// name they are stored under, and the URL they are served at.
#[derive(Debug)]
pub struct Thumbnail {
    pub deal_index: usize,
    /// The rectangle of the flyer image the thumbnail was cut from.
    pub x: u32,
    pub y: u32,
    pub width: u32,
    pub height: u32,
    pub file_name: String,
    pub url: String,
    pub jpeg: Vec<u8>,
}

/// The little-endian bytes of a `u32`.
pub open spec fn le_bytes(x: u32) -> Seq<u8> {
    seq![x as u8, (x >> 8u32) as u8, (x >> 16u32) as u8, (x >> 24u32) as u8]
}

fn write_u32_into(h: &mut DefaultHasher, x: u32)
    ensures
        final(h)@ == old(h)@.push(le_bytes(x)),
{
    let bytes: [u8; 4] = [x as u8, (x >> 8u32) as u8, (x >> 16u32) as u8, (x >> 24u32) as u8];
    h.write(&bytes);
    assert(bytes@ =~= le_bytes(x));
}

/// The file name of the thumbnail of grid cell `(row, col)` of a flyer of the
/// given size: 16 hex digits of the hash of the four numbers, then `.jpg`.
pub open spec fn thumbnail_file_name(row: u32, col: u32, width: u32, height: u32) -> Seq<char> {
    hex_digits(
        DefaultHasher::spec_finish(seq![le_bytes(row), le_bytes(col), le_bytes(width), le_bytes(height)]) as nat,
        16,
    ) + ".jpg"@
}

/// The URL path a thumbnail file is served at.
pub open spec fn thumbnail_url(file_name: Seq<char>) -> Seq<char> {
    "/api/thumbnails/"@ + file_name
}

/// Every thumbnail URL is `/api/thumbnails/`, sixteen lower-case hex digits and `.jpg`.
pub proof fn lemma_thumbnail_url_shape(row: u32, col: u32, width: u32, height: u32)
    ensures
        thumbnail_url(thumbnail_file_name(row, col, width, height)).len() == 36,
        thumbnail_url(thumbnail_file_name(row, col, width, height)).subrange(0, 16) == "/api/thumbnails/"@,
        thumbnail_url(thumbnail_file_name(row, col, width, height)).subrange(32, 36) == ".jpg"@,
        forall|i: int| 16 <= i < 32 ==> is_lower_hex(#[trigger] thumbnail_url(thumbnail_file_name(row, col, width, height))[i]),
{
    let h = DefaultHasher::spec_finish(seq![le_bytes(row), le_bytes(col), le_bytes(width), le_bytes(height)]) as nat;
    lemma_hex_digits_shape(h, 16);
    reveal_strlit("/api/thumbnails/");
    reveal_strlit(".jpg");
    let name = thumbnail_file_name(row, col, width, height);
    let url = thumbnail_url(name);
    assert(url.subrange(0, 16) =~= "/api/thumbnails/"@);
    assert(url.subrange(32, 36) =~= ".jpg"@);
    assert forall|i: int| 16 <= i < 32 implies is_lower_hex(#[trigger] url[i]) by {
        assert(url[i] == hex_digits(h, 16)[i - 16]);
    }
}

fn thumbnail_file_name_exec(row: u32, col: u32, width: u32, height: u32) -> (r: String)
    ensures
        r@ == thumbnail_file_name(row, col, width, height),
{
    let mut h = DefaultHasher::new();
    write_u32_into(&mut h, row);
    write_u32_into(&mut h, col);
    write_u32_into(&mut h, width);
    write_u32_into(&mut h, height);
    assert(h@ =~= seq![le_bytes(row), le_bytes(col), le_bytes(width), le_bytes(height)]);
    let mut name = hex16(h.finish());
    name.append(".jpg");
    name
}

/// The cell of the flyer grid that a deal position covers, as
/// `(deal_index, x, y, cell_width, cell_height, file_name)`; positions outside
/// the grid have none.
pub open spec fn cell_of(position: (usize, u32, u32), width: u32, height: u32, rows: u32, cols: u32) -> Option<
    (usize, int, int, int, int, Seq<char>),
> {
    let (deal_index, row, col) = position;
    if row >= rows || col >= cols {
        None
    } else {
        let cell_width = width / cols;
        let cell_height = height / rows;
        Some(
            (
                deal_index,
                col * cell_width,
                row * cell_height,
                cell_width as int,
                cell_height as int,
                thumbnail_file_name(row, col, width, height),
            ),
        )
    }
}

/// The cells of all in-grid positions, in order.
pub open spec fn planned_cells(positions: Seq<(usize, u32, u32)>, width: u32, height: u32, rows: u32, cols: u32) -> Seq<
    (usize, int, int, int, int, Seq<char>),
> {
    collect_some(positions.map_values(|p: (usize, u32, u32)| cell_of(p, width, height, rows, cols)))
}

/// A decoded flyer image.
#[verifier::external_type_specification]
#[verifier::external_body]
pub struct ExDynamicImage(image::DynamicImage);

/// The image that `image::load_from_memory` decodes from the bytes, or nothing
/// when they do not decode.
pub uninterp spec fn decoded_image(bytes: Seq<u8>) -> Option<image::DynamicImage>;

/// The width and height of an image, as `DynamicImage::dimensions` gives them.
pub uninterp spec fn image_dimensions(img: image::DynamicImage) -> (u32, u32);

/// The image `DynamicImage::crop_imm` cuts out of `img` at the given rectangle.
pub uninterp spec fn cropped(img: image::DynamicImage, x: u32, y: u32, width: u32, height: u32) -> image::DynamicImage;

/// The image `DynamicImage::resize(300, 300, Lanczos3)` makes of `img`.
pub uninterp spec fn resized_thumbnail(img: image::DynamicImage) -> image::DynamicImage;

/// The bytes `DynamicImage::write_to` writes for `img` in the JPEG format, or
/// nothing when it fails.
pub uninterp spec fn jpeg_of(img: image::DynamicImage) -> Option<Seq<u8>>;

/// Calls `image::load_from_memory` and reads the decoded image's width and
/// height; the image is named `decoded_image` of the bytes.
#[verifier::external_body]
fn decode_image(bytes: &[u8]) -> (r: Option<(image::DynamicImage, u32, u32)>)
    ensures
        match r {
            Some(t) => decoded_image(bytes@) == Some(t.0) && image_dimensions(t.0) == (t.1, t.2),
            None => decoded_image(bytes@) is None,
        },
{
    let decoded = image::load_from_memory(bytes).ok()?;
    let (width, height) = (decoded.width(), decoded.height());
    Some((decoded, width, height))
}

/// Calls `DynamicImage::crop_imm` for the given rectangle; the result is named
/// `cropped`. As `imageops::crop_imm` does, the rectangle is first clamped to
/// the image: its corner to the image's size, its sides to what is left.
#[verifier::external_body]
fn crop_image(img: &image::DynamicImage, x: u32, y: u32, width: u32, height: u32) -> (r: image::DynamicImage)
    ensures
        r == cropped(*img, x, y, width, height),
        ({
            let (iw, ih) = image_dimensions(*img);
            let cx = if x <= iw { x as int } else { iw as int };
            let cy = if y <= ih { y as int } else { ih as int };
            image_dimensions(r) == (
                (if width <= iw - cx { width as int } else { iw - cx }) as u32,
                (if height <= ih - cy { height as int } else { ih - cy }) as u32,
            )
        }),
{
    img.crop_imm(x, y, width, height)
}

/// Calls `DynamicImage::resize` to fit within 300x300 with the Lanczos3
/// filter; the result is named `resized_thumbnail`. Each side of the result is
/// between 1 and 300 (`resize_dimensions` keeps at least one pixel, and an
/// empty source is resized to a blank image of that size).
#[verifier::external_body]
fn resize_thumbnail(img: &image::DynamicImage) -> (r: image::DynamicImage)
    ensures
        r == resized_thumbnail(*img),
        1 <= image_dimensions(r).0 <= 300,
        1 <= image_dimensions(r).1 <= 300,
{
    img.resize(300, 300, image::imageops::FilterType::Lanczos3)
}

/// Calls `DynamicImage::write_to` with the JPEG format into memory; the outcome
/// is named `jpeg_of`. The image is first converted to a colour type the JPEG
/// encoder takes, and the encoder refuses only sides outside 1..=65535.
#[verifier::external_body]
fn encode_jpeg(img: &image::DynamicImage) -> (r: Option<Vec<u8>>)
    ensures
        match r {
            Some(b) => jpeg_of(*img) == Some(b@),
            None => jpeg_of(*img) is None,
        },
        1 <= image_dimensions(*img).0 <= 65535 && 1 <= image_dimensions(*img).1 <= 65535 ==> r is Some,
{
    let mut out = std::io::Cursor::new(Vec::new());
    img.write_to(&mut out, image::ImageFormat::Jpeg).ok()?;
    Some(out.into_inner())
}

/// The thumbnail is the one of the cell: its deal, its rectangle, its file name
/// and URL, and the JPEG of the resized crop of that rectangle of `img`.
pub open spec fn thumbnail_of_cell(
    t: Thumbnail,
    cell: (usize, int, int, int, int, Seq<char>),
    img: image::DynamicImage,
) -> bool {
    &&& t.deal_index == cell.0
    &&& t.x == cell.1 && t.y == cell.2 && t.width == cell.3 && t.height == cell.4
    &&& t.file_name@ == cell.5
    &&& t.url@ == thumbnail_url(cell.5)
    &&& jpeg_of(resized_thumbnail(cropped(img, t.x, t.y, t.width, t.height))) == Some(t.jpeg@)
}

/// Cuts the thumbnail of each deal position out of the flyer image, in order:
/// the grid divides the image into equal cells and positions outside the grid
/// are skipped. Each thumbnail comes with its rectangle, the file name under
/// which the caller stores it and the URL it is then served at. An image that
/// does not decode yields none; one that decodes needs a grid of at least one
/// row and one column (the cell size divides by them).
pub fn crop_and_save_thumbnails(
    image_bytes: &[u8],
    grid_rows: u32,
    grid_cols: u32,
    deal_positions: &[(usize, u32, u32)],
) -> (r: Vec<Thumbnail>)
    requires
        decoded_image(image_bytes@) is Some ==> grid_rows > 0 && grid_cols > 0,
    ensures
        decoded_image(image_bytes@) is None ==> r@.len() == 0,
        decoded_image(image_bytes@) matches Some(img) ==> ({
            let cells = planned_cells(deal_positions@, image_dimensions(img).0, image_dimensions(img).1, grid_rows, grid_cols);
            &&& r@.len() == cells.len()
            &&& forall|i: int| 0 <= i < r@.len() ==> thumbnail_of_cell(#[trigger] r@[i], cells[i], img)
        }),
{
    let mut result: Vec<Thumbnail> = Vec::new();
    let (image, width, height) = match decode_image(image_bytes) {
        Some(t) => t,
        None => return result,
    };
    let cell_width = width / grid_cols;
    let cell_height = height / grid_rows;
    let ghost cells = deal_positions@.map_values(
        |p: (usize, u32, u32)| cell_of(p, width, height, grid_rows, grid_cols),
    );
    let mut k: usize = 0;
    while k < deal_positions.len()
        invariant
            k <= deal_positions.len(),
            decoded_image(image_bytes@) == Some(image),
            image_dimensions(image) == (width, height),
            grid_rows > 0,
            grid_cols > 0,
            cell_width == width / grid_cols,
            cell_height == height / grid_rows,
            cells == deal_positions@.map_values(
                |p: (usize, u32, u32)| cell_of(p, width, height, grid_rows, grid_cols),
            ),
            result@.len() == collect_some(cells.take(k as int)).len(),
            forall|i: int| 0 <= i < result@.len() ==> thumbnail_of_cell(
                #[trigger] result@[i],
                collect_some(cells.take(k as int))[i],
                image,
            ),
        decreases deal_positions.len() - k,
    {
        let (deal_index, row, col) = deal_positions[k];
        let ghost prev = collect_some(cells.take(k as int));
        proof {
            assert(cells.take(k + 1) =~= cells.take(k as int).push(cells[k as int]));
            lemma_collect_some_push(cells.take(k as int), cells[k as int]);
        }
        let ghost next = collect_some(cells.take(k + 1));
        if row < grid_rows && col < grid_cols {
            assert(col * cell_width + cell_width <= width) by (nonlinear_arith)
                requires
                    col < grid_cols,
                    cell_width == width / grid_cols,
                    grid_cols > 0,
            ;
            assert(row * cell_height + cell_height <= height) by (nonlinear_arith)
                requires
                    row < grid_rows,
                    cell_height == height / grid_rows,
                    grid_rows > 0,
            ;
            assert(next == prev.push(cells[k as int]->0));
            let x = col * cell_width;
            let y = row * cell_height;
            let crop = crop_image(&image, x, y, cell_width, cell_height);
            let thumbnail = resize_thumbnail(&crop);
            let jpeg = encode_jpeg(&thumbnail).unwrap();
            let file_name = thumbnail_file_name_exec(row, col, width, height);
            let mut url = "/api/thumbnails/".to_string();
            url.append(file_name.as_str());
            result.push(
                Thumbnail { deal_index, x, y, width: cell_width, height: cell_height, file_name, url, jpeg },
            );
            proof {
                assert forall|i: int| 0 <= i < result@.len() implies thumbnail_of_cell(
                    #[trigger] result@[i],
                    next[i],
                    image,
                ) by {
                    if i < result@.len() - 1 {
                        assert(next[i] == prev[i]);
                    }
                }
            }
        } else {
            assert(next == prev);
        }
        k += 1;
    }
    assert(cells.take(deal_positions.len() as int) =~= cells);
    result
}

/// The thumbnails of a flyer image, when the grid can divide it: a grid with
/// no rows or no columns cannot cut an image that decodes, and then there is
/// nothing; otherwise the thumbnails `crop_and_save_thumbnails` cuts.
pub fn thumbnails_for_grid(
    image_bytes: &[u8],
    grid_rows: u32,
    grid_cols: u32,
    deal_positions: &[(usize, u32, u32)],
) -> (r: Option<Vec<Thumbnail>>)
    ensures
        r is None <==> (decoded_image(image_bytes@) is Some && (grid_rows == 0 || grid_cols == 0)),
        r matches Some(ts) ==> (decoded_image(image_bytes@) is None ==> ts@.len() == 0),
        r matches Some(ts) ==> (decoded_image(image_bytes@) matches Some(img) ==> ({
            let cells = planned_cells(deal_positions@, image_dimensions(img).0, image_dimensions(img).1, grid_rows, grid_cols);
            &&& ts@.len() == cells.len()
            &&& forall|i: int| 0 <= i < ts@.len() ==> thumbnail_of_cell(#[trigger] ts@[i], cells[i], img)
        })),
{
    if grid_rows > 0 && grid_cols > 0 {
        Some(crop_and_save_thumbnails(image_bytes, grid_rows, grid_cols, deal_positions))
    } else {
        match decode_image(image_bytes) {
            Some(_) => None,
            None => Some(Vec::new()),
        }
    }
}

/// What the model read off the weekly flyer: its valid dates, the grid it
/// saw, and the deals with their grid positions.
#[derive(Debug)]
pub struct HmartVisionResponse {
    pub valid_from: Option<String>,
    pub valid_to: Option<String>,
    pub grid_rows: Option<u64>,
    pub grid_cols: Option<u64>,
    pub deals: Vec<AiDealItem>,
}

/// The weekly flyer's deals, dates and grid, with each deal's position.
#[derive(Debug)]
pub struct VisionResult {
    pub deals: Vec<DealTuple>,
    pub valid_from: String,
    pub valid_to: String,
    pub grid_rows: u32,
    pub grid_cols: u32,
    pub deal_positions: Vec<(usize, u32, u32)>,
}

/// The positions of the kept items: the index of each kept deal with the row
/// and column the model gave (0 when absent).
pub open spec fn kept_positions(items: Seq<AiDealItem>) -> Seq<(usize, u32, u32)>
    decreases items.len(),
{
    if items.len() == 0 {
        Seq::empty()
    } else {
        let prev = kept_positions(items.drop_last());
        let item = items.last();
        if ai_item_deal(item, "uncategorized"@) is Some {
            prev.push(
                (
                    prev.len() as usize,
                    (match item.row {
                        Some(r) => r,
                        None => 0,
                    }) as u32,
                    (match item.col {
                        Some(c) => c,
                        None => 0,
                    }) as u32,
                ),
            )
        } else {
            prev
        }
    }
}

/// There is one position for each kept deal.
pub proof fn lemma_kept_positions_len(items: Seq<AiDealItem>)
    ensures
        kept_positions(items).len() == collect_some(
            items.map_values(|i: AiDealItem| ai_item_deal(i, "uncategorized"@)),
        ).len(),
    decreases items.len(),
{
    if items.len() > 0 {
        lemma_kept_positions_len(items.drop_last());
        let s = items.drop_last().map_values(|i: AiDealItem| ai_item_deal(i, "uncategorized"@));
        assert(items.map_values(|i: AiDealItem| ai_item_deal(i, "uncategorized"@)) =~= s.push(
            ai_item_deal(items.last(), "uncategorized"@),
        ));
        lemma_collect_some_push(s, ai_item_deal(items.last(), "uncategorized"@));
    }
}

/// The value, or `default` when absent.
pub open spec fn text_or(o: Option<String>, default: Seq<char>) -> Seq<char> {
    match o {
        Some(s) => s@,
        None => default,
    }
}

/// What is read off the model's answer about the weekly flyer: the named deals,
/// the dates (`unknown` when absent), the grid (4 rows and 5 columns when
/// absent, truncated to 32 bits) and each kept deal's position.
pub open spec fn read_off_flyer(r: VisionResult, response: HmartVisionResponse) -> bool {
    &&& tuple_views(r.deals@) == collect_some(
        response.deals@.map_values(|i: AiDealItem| ai_item_deal(i, "uncategorized"@)),
    )
    &&& r.valid_from@ == text_or(response.valid_from, "unknown"@)
    &&& r.valid_to@ == text_or(response.valid_to, "unknown"@)
    &&& r.grid_rows == (match response.grid_rows {
        Some(v) => v,
        None => 4,
    }) as u32
    &&& r.grid_cols == (match response.grid_cols {
        Some(v) => v,
        None => 5,
    }) as u32
    &&& r.deal_positions@ == kept_positions(response.deals@)
}

/// Reads the model's answer about the weekly flyer: dates default to
/// `unknown`, the grid to 4 rows and 5 columns (truncated to 32 bits), and
/// each named deal keeps its position.
pub fn vision_result_from(response: HmartVisionResponse) -> (r: VisionResult)
    ensures
        read_off_flyer(r, response),
        forall|i: int| 0 <= i < r.deals@.len() ==> no_ascii_upper(#[trigger] r.deals@[i].3@),
{
    let valid_from = match response.valid_from {
        Some(s) => s,
        None => "unknown".to_string(),
    };
    let valid_to = match response.valid_to {
        Some(s) => s,
        None => "unknown".to_string(),
    };
    let grid_rows = match response.grid_rows {
        Some(v) => v,
        None => 4,
    } as u32;
    let grid_cols = match response.grid_cols {
        Some(v) => v,
        None => 5,
    } as u32;
    let items = &response.deals;
    let mut deals: Vec<DealTuple> = Vec::new();
    let mut positions: Vec<(usize, u32, u32)> = Vec::new();
    let mut i: usize = 0;
    while i < items.len()
        invariant
            i <= items.len(),
            tuple_views(deals@) == collect_some(
                items@.take(i as int).map_values(|x: AiDealItem| ai_item_deal(x, "uncategorized"@)),
            ),
            positions@ == kept_positions(items@.take(i as int)),
            deals@.len() == positions@.len(),
            forall|k: int| 0 <= k < deals@.len() ==> no_ascii_upper(#[trigger] deals@[k].3@),
        decreases items.len() - i,
    {
        let d = ai_item_to_deal(&items[i], "uncategorized");
        proof {
            let s = items@.take(i as int).map_values(|x: AiDealItem| ai_item_deal(x, "uncategorized"@));
            assert(items@.take(i + 1).map_values(|x: AiDealItem| ai_item_deal(x, "uncategorized"@)) =~= s.push(
                ai_item_deal(items@[i as int], "uncategorized"@),
            ));
            lemma_collect_some_push(s, ai_item_deal(items@[i as int], "uncategorized"@));
            assert(items@.take(i + 1).drop_last() =~= items@.take(i as int));
        }
        match d {
            Some(t) => {
                let row = match items[i].row {
                    Some(r) => r,
                    None => 0,
                } as u32;
                let col = match items[i].col {
                    Some(c) => c,
                    None => 0,
                } as u32;
                let index = deals.len();
                deals.push(t);
                positions.push((index, row, col));
                assert(tuple_views(deals@) =~= tuple_views(deals@.drop_last()).push(tuple_view(deals@.last())));
            },
            None => {},
        }
        i += 1;
    }
    assert(items@.take(items.len() as int) =~= items@);
    VisionResult { deals, valid_from, valid_to, grid_rows, grid_cols, deal_positions: positions }
}

/// The message when the model's answer about the weekly flyer is not JSON.
pub open spec fn flyer_parse_error(message: Seq<char>) -> Seq<char> {
    "Failed to parse H Mart vision response: "@ + message
}

/// Reads the model's answer about the weekly flyer, given the outcome of
/// parsing its JSON object: a parse error is an AI error carrying its message.
pub fn read_flyer_answer(parsed: Result<HmartVisionResponse, String>) -> (r: Result<VisionResult, AppError>)
    ensures
        match parsed {
            Ok(response) => r matches Ok(v) && read_off_flyer(v, response) && forall|i: int|
                0 <= i < v.deals@.len() ==> no_ascii_upper(#[trigger] v.deals@[i].3@),
            Err(e) => r matches Err(AppError::Ai(m)) && m@ == flyer_parse_error(e@),
        },
{
    match parsed {
        Ok(response) => Ok(vision_result_from(response)),
        Err(e) => {
            let mut m = "Failed to parse H Mart vision response: ".to_string();
            m.append(e.as_str());
            Err(AppError::Ai(m))
        },
    }
}

} // verus!
