use weekly_ad_recipes::calendar::{current_monthly_id, current_week_id, date_of, monthly_id_of, week_id_of, UtcNow};
use weekly_ad_recipes::config::{parse_u16, Config, DEFAULT_PORT};
use weekly_ad_recipes::deals_cache::{cache_key, deals_fetch_key, DealsHashCache};
use weekly_ad_recipes::deals_hash::compute_deals_hash;
use weekly_ad_recipes::error::{error_response, insert_location_error, AppError};
use weekly_ad_recipes::flipp::FlippStoreMatch;
use weekly_ad_recipes::inflight::InFlightRegistry;
use weekly_ad_recipes::keyed::KeyedStore;
use weekly_ad_recipes::models::{supported_chains, Deal, DealTuple, StoreLocation};
use weekly_ad_recipes::routes::{
    apply_vision_results, build_deals_response, catalog_unavailable, deal_items_excluding, deal_source,
    flipp_location_request, flyer_for_location, hmart_location_request, no_hmart_nearby, pre_categorize_count,
    whole_foods_location_request, with_own_chains, DealSource, SearchQuery, deals_step, meals_step, DealsStep, MealsStep,
};
use weekly_ad_recipes::categorize::merge_categories;
use weekly_ad_recipes::flipp::week_id_from_valid_from;

fn deal(name: &str, desc: &str, valid_from: Option<&str>) -> Deal {
    Deal {
        id: 1,
        location_id: 1,
        week_id: "w".into(),
        item_name: name.into(),
        brand: None,
        deal_description: desc.into(),
        category: "produce".into(),
        image_url: None,
        valid_from: valid_from.map(|s| s.to_string()),
        valid_to: Some("2026-03-12".into()),
        fetched_at: "t".into(),
    }
}

#[test]
fn resolved_hash_is_cached_and_sticks() {
    let mut cache = DealsHashCache::new();
    let a = vec![deal("Kale", "$1", None)];
    let b = vec![deal("Tofu", "$2", None)];
    let first = cache.resolve_deals_hash(4, "2026-W10", &a);
    assert_eq!(first, compute_deals_hash(&a));
    let again = cache.resolve_deals_hash(4, "2026-W10", &b);
    assert_eq!(again, first);
    let other_week = cache.resolve_deals_hash(4, "2026-W11", &b);
    assert_eq!(other_week, compute_deals_hash(&b));
}

#[test]
fn invalidated_hash_is_recomputed() {
    let mut cache = DealsHashCache::new();
    let a = vec![deal("Kale", "$1", None)];
    let b = vec![deal("Tofu", "$2", None)];
    cache.resolve_deals_hash(4, "2026-W10", &a);
    cache.resolve_deals_hash(5, "2026-W10", &a);
    cache.invalidate_deals_hash(4, "2026-W10");
    assert_eq!(cache.resolve_deals_hash(4, "2026-W10", &b), compute_deals_hash(&b));
    assert_eq!(cache.resolve_deals_hash(5, "2026-W10", &b), compute_deals_hash(&a));
}

#[test]
fn cache_keys() {
    assert_eq!(cache_key(12, "2026-W10"), "12:2026-W10");
    assert_eq!(cache_key(-3, "x"), "-3:x");
    assert_eq!(deals_fetch_key(12), "deals:12");
    assert_ne!(cache_key(1, "2:x"), cache_key(12, ":x"));
}

#[test]
fn release_gives_back_what_waiters_wait_on() {
    let mut reg: InFlightRegistry<u32> = InFlightRegistry::new();
    assert!(reg.try_acquire("k", 7));
    assert!(!reg.try_acquire("k", 8));
    assert_eq!(reg.release("k"), Some(7));
    assert_eq!(reg.release("k"), None);
}

#[test]
fn endpoint_steps() {
    assert_eq!(meals_step(Some("h1"), "h1", false), MealsStep::RespondCached);
    assert_eq!(meals_step(Some("h0"), "h1", true), MealsStep::Invalidate);
    assert_eq!(meals_step(None, "h1", true), MealsStep::Generate);
    assert_eq!(meals_step(None, "h1", false), MealsStep::Wait);
    assert_eq!(deals_step(Some(false), false), DealsStep::RespondCached);
    assert_eq!(deals_step(Some(true), true), DealsStep::InvalidateExpired);
    assert_eq!(deals_step(None, true), DealsStep::Fetch);
    assert_eq!(deals_step(None, false), DealsStep::Wait);
}

#[test]
fn later_categories_win() {
    let mut all: KeyedStore<String> = KeyedStore::new();
    all.insert("Kale".into(), "produce".into());
    all.insert("Soap".into(), "pantry".into());
    let mut more: KeyedStore<String> = KeyedStore::new();
    more.insert("Soap".into(), "not_food".into());
    more.insert("Tofu".into(), "deli".into());
    merge_categories(&mut all, &more);
    assert_eq!(all.get("Kale"), Some(&"produce".to_string()));
    assert_eq!(all.get("Soap"), Some(&"not_food".to_string()));
    assert_eq!(all.get("Tofu"), Some(&"deli".to_string()));
}

#[test]
fn flyer_week_comes_from_its_valid_from_date() {
    assert_eq!(week_id_from_valid_from(&Some("2026-03-04T00:00:00-08:00".into())), "2026-W10");
    assert_eq!(week_id_from_valid_from(&Some("2027-01-01".into())), "2026-W53");
    assert_eq!(week_id_from_valid_from(&Some("soon".into())), current_week_id());
    assert_eq!(week_id_from_valid_from(&None), current_week_id());
}

#[test]
fn models_must_be_configured() {
    assert!(!Config::from_settings(None, None, None, None, None).models_configured());
    assert!(!Config::from_settings(None, None, None, Some("a".into()), None).models_configured());
    assert!(Config::from_settings(None, None, None, Some("a".into()), Some("b".into())).models_configured());
}

#[test]
fn second_caller_waits_until_release() {
    let mut reg: InFlightRegistry<u32> = InFlightRegistry::new();
    assert!(reg.try_acquire("deals:1", 10));
    assert!(!reg.try_acquire("deals:1", 20));
    assert_eq!(reg.waiter("deals:1"), Some(&10));
    assert!(reg.try_acquire("deals:2", 30));
    reg.release("deals:1");
    assert_eq!(reg.waiter("deals:1"), None);
    assert!(reg.try_acquire("deals:1", 40));
    assert_eq!(reg.waiter("deals:1"), Some(&40));
    assert_eq!(reg.waiter("deals:2"), Some(&30));
}

#[test]
fn keyed_store_insert_get_remove() {
    let mut s: KeyedStore<String> = KeyedStore::new();
    s.insert("a".into(), "1".into());
    s.insert("a".into(), "2".into());
    s.insert("b".into(), "3".into());
    assert_eq!(s.get("a"), Some(&"2".to_string()));
    assert!(s.contains("b"));
    s.remove("a");
    assert!(!s.contains("a"));
    let mut pairs = s.to_pairs();
    pairs.sort();
    assert_eq!(pairs, vec![("b".to_string(), "3".to_string())]);
}

#[test]
fn config_defaults_and_port_parsing() {
    let c = Config::from_settings(None, None, None, None, None);
    assert_eq!(c.database_url, "sqlite:data.db");
    assert_eq!(c.anthropic_api_key, "");
    assert_eq!(c.port, 3001);
    assert_eq!((c.small_model.as_str(), c.large_model.as_str()), ("", ""));
    let c = Config::from_settings(Some("sqlite:x.db".into()), Some("k".into()), Some("8080".into()), Some("small".into()), None);
    assert_eq!((c.database_url.as_str(), c.anthropic_api_key.as_str(), c.port), ("sqlite:x.db", "k", 8080));
    assert_eq!(c.small_model, "small");
    assert_eq!(Config::from_settings(None, None, Some("70000".into()), None, None).port, DEFAULT_PORT);
    assert_eq!(Config::from_settings(None, None, Some(" 80".into()), None, None).port, DEFAULT_PORT);
}

#[test]
fn port_parsing_matches_std() {
    for text in ["0", "80", "+80", "0080", "65535", "65536", "", "+", "-1", "-0", "1a", " 1", "99999999999", "٣"] {
        assert_eq!(parse_u16(text), text.parse::<u16>().ok(), "for {:?}", text);
    }
}

#[test]
fn error_responses() {
    assert_eq!(error_response(&AppError::NotFound("x".into())), (404, "x".to_string()));
    assert_eq!(error_response(&AppError::BadRequest("bad".into())), (400, "bad".to_string()));
    assert_eq!(error_response(&AppError::Database("secret".into())), (500, "Database error".to_string()));
    assert_eq!(error_response(&AppError::HttpClient("dns".into())), (502, "External service error".to_string()));
    assert_eq!(error_response(&AppError::Ai("down".into())), (502, "AI service error: down".to_string()));
    assert_eq!(error_response(&AppError::Internal("oops".into())), (500, "Internal error".to_string()));
}

#[test]
fn duplicate_location_is_a_bad_request() {
    let e = insert_location_error(Some("UNIQUE constraint failed: store_locations.chain_id"), "db".into(), "qfc", "98052");
    assert!(matches!(e, AppError::BadRequest(m) if m == "A qfc location for zip 98052 already exists"));
    let e = insert_location_error(Some("disk I/O error"), "error returned from database: disk I/O error".into(), "qfc", "98052");
    assert!(matches!(e, AppError::Database(m) if m == "error returned from database: disk I/O error"));
    let e = insert_location_error(None, "pool timed out".into(), "qfc", "98052");
    assert!(matches!(e, AppError::Database(m) if m == "pool timed out"));
}

#[test]
fn week_and_month_ids() {
    let now = UtcNow { year: 2026, month: 3, day: 6, iso_year: 2026, iso_week: 10 };
    assert_eq!(week_id_of(now), "2026-W10");
    assert_eq!(date_of(now), "2026-03-06");
    assert_eq!(monthly_id_of(now), "hmart-monthly-202603");
    let early = UtcNow { year: 2027, month: 1, day: 1, iso_year: 2026, iso_week: 53 };
    assert_eq!(week_id_of(early), "2026-W53");
    let today = chrono::Utc::now();
    assert_eq!(current_week_id(), today.format("%G-W%V").to_string());
    assert_eq!(current_monthly_id(), today.format("hmart-monthly-%Y%m").to_string());
}

#[test]
fn supported_chains_list() {
    let chains = supported_chains();
    assert_eq!(chains.len(), 1);
    assert_eq!(chains[0].id, "whole-foods");
    assert_eq!(chains[0].name, "Whole Foods");
    assert!(!chains[0].uses_flipp);
}

fn location(chain: &str, merchant: Option<i64>) -> StoreLocation {
    StoreLocation {
        id: 1,
        chain_id: chain.into(),
        name: "n".into(),
        address: None,
        zip_code: "98052".into(),
        flipp_merchant_id: merchant,
        flipp_merchant_name: None,
        weekly_ad_url: None,
        created_at: "t".into(),
    }
}

fn store_match(chain: &str, merchant: Option<i64>) -> FlippStoreMatch {
    FlippStoreMatch {
        chain_id: chain.into(),
        chain_name: chain.to_uppercase(),
        flyer_id: Some(9),
        merchant_id: merchant,
        merchant_name: format!("{} Inc", chain),
        store_name: None,
        valid_from: None,
        valid_to: None,
    }
}

#[test]
fn deal_sources() {
    assert_eq!(deal_source(&location("qfc", Some(3))), DealSource::Flipp);
    assert_eq!(deal_source(&location("h-mart", None)), DealSource::HMart);
    assert_eq!(deal_source(&location("whole-foods", None)), DealSource::WholeFoods);
    assert_eq!(deal_source(&location("uwajimaya", None)), DealSource::Screenshots);
}

#[test]
fn flyer_is_found_by_merchant_or_chain() {
    let matches = vec![store_match("safeway", Some(2)), store_match("qfc", Some(3))];
    assert_eq!(flyer_for_location(&matches, &location("qfc", Some(3))), Some(1));
    assert_eq!(flyer_for_location(&matches, &location("qfc", Some(77))), Some(1));
    assert_eq!(flyer_for_location(&matches, &location("fred-meyer", Some(77))), None);
}

#[test]
fn deals_response_takes_the_first_dates() {
    let r = build_deals_response("qfc".into(), "98052".into(), vec![deal("A", "$1", Some("2026-03-06"))], true);
    assert_eq!(r.valid_from, Some("2026-03-06".to_string()));
    assert_eq!(r.valid_to, Some("2026-03-12".to_string()));
    assert!(r.cached);
    let r = build_deals_response("qfc".into(), "98052".into(), vec![], false);
    assert_eq!((r.valid_from, r.valid_to), (None, None));
}

fn t(name: &str, desc: &str) -> DealTuple {
    (name.into(), None, desc.into(), "uncategorized".into(), None)
}

#[test]
fn vision_texts_replace_on_sale() {
    let mut deals = vec![t("Chips", "On Sale"), t("Logo", "On Sale"), t("Milk", "$3"), t("Soda", "On Sale")];
    let mut found: KeyedStore<String> = KeyedStore::new();
    found.insert("Chips".into(), "2 for $5".into());
    found.insert("Logo".into(), "NOT_A_DEAL".into());
    found.insert("Milk".into(), "$1".into());
    apply_vision_results(&mut deals, Ok(found));
    assert_eq!(deals, vec![t("Chips", "2 for $5"), t("Milk", "$3"), t("Soda", "On Sale")]);
    let mut unchanged = vec![t("Chips", "On Sale")];
    apply_vision_results(&mut unchanged, Err(AppError::Ai("x".into())));
    assert_eq!(unchanged, vec![t("Chips", "On Sale")]);
}

#[test]
fn items_for_categorizing() {
    let deals = vec![t("Chips", "On Sale"), t("Milk", "$3")];
    assert_eq!(deal_items_excluding(&deals, &vec!["Chips".to_string()]), vec![("Milk".to_string(), None)]);
    assert_eq!(pre_categorize_count(100, 10), 70);
    assert_eq!(pre_categorize_count(20, 10), 0);
    assert_eq!(pre_categorize_count(100, 50), 100);
}

#[test]
fn location_requests() {
    let r = hmart_location_request("H Mart - Redmond".into(), "https://www.hmartus.com/weekly-sale-wa".into(), "98052");
    assert_eq!(r.chain_id, "h-mart");
    assert_eq!(r.weekly_ad_url, Some("https://www.hmartus.com/weekly-sale-wa".to_string()));
    let r = whole_foods_location_request("whole-foods", "98052", "Whole Foods", "10260", "Redmond");
    assert_eq!(r.name, "Whole Foods - Redmond");
    assert_eq!(r.weekly_ad_url, Some("https://www.wholefoodsmarket.com/sales-flyer?store-id=10260".to_string()));
    let matches = vec![store_match("qfc", Some(3))];
    let r = flipp_location_request("qfc", "98052", &matches);
    assert_eq!(r.name, "QFC - 98052");
    assert_eq!(r.flipp_merchant_id, Some(3));
    assert_eq!(r.flipp_merchant_name, Some("qfc Inc".to_string()));
    let r = flipp_location_request("safeway", "98052", &matches);
    assert_eq!(r.name, "safeway - 98052");
    assert_eq!(r.flipp_merchant_id, None);
}

#[test]
fn search_results_end_with_own_chains() {
    let q = SearchQuery { zip: "98052".into() };
    let r = with_own_chains(vec![store_match("qfc", Some(3))], Some("Redmond".into()), None);
    assert_eq!(q.zip, "98052");
    assert_eq!(r.len(), 3);
    assert_eq!(r[1].chain_id, "whole-foods");
    assert_eq!(r[1].merchant_name, "Whole Foods Market");
    assert_eq!(r[1].store_name, Some("Redmond".to_string()));
    assert_eq!(r[2].chain_id, "h-mart");
    assert_eq!(r[2].store_name, None);
}

#[test]
fn route_errors() {
    assert!(matches!(catalog_unavailable(), AppError::Internal(m) if m.starts_with("Whole Foods store catalog is not yet available")));
    assert!(matches!(no_hmart_nearby(), AppError::NotFound(m) if m == "No H Mart stores near this zip code"));
}
