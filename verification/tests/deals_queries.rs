use weekly_ad_recipes::deals_hash::compute_deals_hash;
use weekly_ad_recipes::models::Deal;
use weekly_ad_recipes::queries::{are_deals_expired, are_deals_expired_on, current_deals_of, date_part_of, some_if_nonempty};

fn make_deal(item_name: &str, deal_description: &str, valid_to: Option<&str>) -> Deal {
    Deal {
        id: 0,
        location_id: 0,
        week_id: String::new(),
        item_name: item_name.to_string(),
        brand: None,
        deal_description: deal_description.to_string(),
        category: String::new(),
        image_url: None,
        valid_from: None,
        valid_to: valid_to.map(|s| s.to_string()),
        fetched_at: String::new(),
    }
}

#[test]
fn compute_deals_hash_is_sort_independent() {
    let deals_a = vec![make_deal("Bananas", "$0.59/lb", None), make_deal("Apples", "$1.99/lb", None)];
    let deals_b = vec![make_deal("Apples", "$1.99/lb", None), make_deal("Bananas", "$0.59/lb", None)];
    assert_eq!(compute_deals_hash(&deals_a), compute_deals_hash(&deals_b));
}

#[test]
fn compute_deals_hash_differs_for_different_deals() {
    let deals_a = vec![make_deal("Bananas", "$0.59/lb", None)];
    let deals_b = vec![make_deal("Oranges", "$2.99/lb", None)];
    assert_ne!(compute_deals_hash(&deals_a), compute_deals_hash(&deals_b));
}

#[test]
fn compute_deals_hash_empty_is_deterministic() {
    let empty: Vec<Deal> = vec![];
    let hash_a = compute_deals_hash(&empty);
    let hash_b = compute_deals_hash(&empty);
    assert_eq!(hash_a, hash_b);
    assert_eq!(hash_a.len(), 16);
}

#[test]
fn are_deals_expired_past_date_returns_true() {
    let deals = vec![make_deal("Milk", "$3.99", Some("2020-01-01T23:59:59-05:00"))];
    assert!(are_deals_expired(&deals));
}

#[test]
fn are_deals_expired_future_date_returns_false() {
    let deals = vec![make_deal("Milk", "$3.99", Some("2099-12-31T23:59:59-05:00"))];
    assert!(!are_deals_expired(&deals));
}

#[test]
fn are_deals_expired_today_returns_false() {
    let today = chrono::Utc::now().format("%Y-%m-%dT23:59:59-05:00").to_string();
    let deals = vec![make_deal("Milk", "$3.99", Some(&today))];
    assert!(!are_deals_expired(&deals));
}

#[test]
fn are_deals_expired_none_valid_to_returns_false() {
    let deals = vec![make_deal("Milk", "$3.99", None)];
    assert!(!are_deals_expired(&deals));
}

#[test]
fn are_deals_expired_empty_slice_returns_false() {
    let deals: Vec<Deal> = vec![];
    assert!(!are_deals_expired(&deals));
}

#[test]
fn expiry_compares_the_date_part_with_today() {
    let deals = vec![make_deal("Milk", "$3.99", Some("2025-03-12T23:59:59-05:00"))];
    assert!(!are_deals_expired_on(&deals, "2025-03-12"));
    assert!(!are_deals_expired_on(&deals, "2025-03-11"));
    assert!(are_deals_expired_on(&deals, "2025-03-13"));
}

#[test]
fn expiry_needs_every_deal_expired() {
    let mixed = vec![
        make_deal("Milk", "$3.99", Some("2099-01-01")),
        make_deal("Eggs", "$2.99", Some("2000-01-01")),
    ];
    assert!(!are_deals_expired_on(&mixed, "2025-06-01"));
    let old = vec![
        make_deal("Milk", "$3.99", Some("2001-01-01")),
        make_deal("Eggs", "$2.99", Some("2000-01-01T00:00:00Z")),
    ];
    assert!(are_deals_expired_on(&old, "2025-06-01"));
    let undated = vec![make_deal("Milk", "$3.99", Some("2001-01-01")), make_deal("Eggs", "$2.99", None)];
    assert!(!are_deals_expired_on(&undated, "2025-06-01"));
}

#[test]
fn date_part_stops_at_the_time() {
    assert_eq!(date_part_of("2025-03-12T23:59:59-05:00"), "2025-03-12");
    assert_eq!(date_part_of("2025-03-12"), "2025-03-12");
}

#[test]
fn current_deals_carry_the_latest_fetched_week_id() {
    assert!(current_deals_of(vec![]).is_none());
    let mut deal = make_deal("Milk", "$3.99", None);
    deal.week_id = "2025-W10".to_string();
    let (deals, week) = current_deals_of(vec![deal]).unwrap();
    assert_eq!(deals.len(), 1);
    assert_eq!(week, "2025-W10");
    let mut older = make_deal("Apples", "$1", None);
    older.week_id = "hmart-monthly-202503".to_string();
    older.fetched_at = "2025-03-01 08:00:00".to_string();
    let mut newer = make_deal("Bananas", "$2", None);
    newer.week_id = "2025-W10".to_string();
    newer.fetched_at = "2025-03-05 09:30:00".to_string();
    let mut same_time = make_deal("Cherries", "$3", None);
    same_time.week_id = "other".to_string();
    same_time.fetched_at = "2025-03-05 09:30:00".to_string();
    let (_, week) = current_deals_of(vec![older, newer, same_time]).unwrap();
    assert_eq!(week, "2025-W10");
    assert!(some_if_nonempty(vec![]).is_none());
    assert_eq!(some_if_nonempty(vec![make_deal("A", "B", None)]).unwrap().len(), 1);
}

#[test]
fn deals_hash_is_lowercase_hex() {
    let deals = vec![make_deal("Bananas", "$0.59/lb", None)];
    let h = compute_deals_hash(&deals);
    assert_eq!(h.len(), 16);
    assert!(h.chars().all(|c| c.is_ascii_digit() || ('a'..='f').contains(&c)));
}

#[test]
fn deals_hash_ignores_fields_other_than_name_and_description() {
    let mut a = make_deal("Bananas", "$0.59/lb", Some("2099-01-01"));
    a.category = "produce".to_string();
    let b = make_deal("Bananas", "$0.59/lb", None);
    assert_eq!(compute_deals_hash(&[a]), compute_deals_hash(&[b]));
}
