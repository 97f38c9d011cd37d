use weekly_ad_recipes::flipp::{
    build_deal_description, flyer_items_url, flyer_priority, generate_session_id, items_needing_vision,
    items_to_deal_tuples, select_flyer_matches, FlippFlyer, FlippItem, FLIPP_FLYERS_URL,
};

fn item(name: Option<&str>) -> FlippItem {
    FlippItem {
        id: Some(1),
        name: name.map(|s| s.to_string()),
        display_type: Some(1),
        brand: None,
        description: None,
        price: None,
        pre_price_text: None,
        cutout_image_url: None,
        valid_from: None,
        valid_to: None,
    }
}

fn flyer(id: i64, merchant: &str, name: &str) -> FlippFlyer {
    FlippFlyer {
        id,
        merchant_id: Some(id * 10),
        merchant: Some(merchant.to_string()),
        name: Some(name.to_string()),
        valid_from: Some("2026-03-04".to_string()),
        valid_to: Some("2026-03-10".to_string()),
        categories_csv: None,
        store_code: None,
    }
}

#[test]
fn flipp_description_joins_parts() {
    let mut it = item(Some("Grapes"));
    it.pre_price_text = Some(" 2 for ".to_string());
    it.price = Some("5.00".to_string());
    it.description = Some("Red or Green".to_string());
    assert_eq!(build_deal_description(&it), "2 for - $5.00 - Red or Green");
}

#[test]
fn flipp_description_skips_repeated_text() {
    let mut it = item(Some("Grapes"));
    it.price = Some("5.00".to_string());
    it.description = Some("5.00".to_string());
    assert_eq!(build_deal_description(&it), "$5.00");
    assert_eq!(build_deal_description(&item(Some("Grapes"))), "On Sale");
}

#[test]
fn flipp_items_become_deals() {
    let mut banner = item(Some("Store Logo"));
    banner.display_type = Some(5);
    let mut grapes = item(Some(" Grapes "));
    grapes.price = Some("1.99".to_string());
    grapes.brand = Some("  ".to_string());
    grapes.cutout_image_url = Some("https://img/g.png".to_string());
    let deals = items_to_deal_tuples(&[banner, item(None), item(Some("   ")), grapes]);
    assert_eq!(
        deals,
        vec![(
            "Grapes".to_string(),
            None,
            "$1.99".to_string(),
            "uncategorized".to_string(),
            Some("https://img/g.png".to_string())
        )]
    );
}

#[test]
fn only_priceless_items_with_images_need_vision() {
    let mut a = item(Some(" Bogo Chips "));
    a.cutout_image_url = Some(" https://img/c.png ".to_string());
    let mut b = item(Some("Priced"));
    b.price = Some("2".to_string());
    b.cutout_image_url = Some("https://img/p.png".to_string());
    let c = item(Some("No image"));
    let r = items_needing_vision(&[a, b, c]);
    assert_eq!(r, vec![("Bogo Chips".to_string(), "https://img/c.png".to_string())]);
}

#[test]
fn flyer_priorities() {
    assert_eq!(flyer_priority("qfc weekly ad"), 10);
    assert_eq!(flyer_priority("weekly circular"), 10);
    assert_eq!(flyer_priority("weekly deals"), 5);
    assert_eq!(flyer_priority("digital flyer"), 3);
    assert_eq!(flyer_priority("big book of savings"), 1);
}

#[test]
fn best_flyer_per_chain_is_kept() {
    let flyers = vec![
        flyer(1, "Safeway", "Big Book of Savings"),
        flyer(2, " safeway ", "Weekly Ad"),
        flyer(3, "QFC", "Weekly Ad"),
        flyer(4, "Target", "Weekly Ad"),
        flyer(5, "Safeway", "Weekly Ad Extra"),
    ];
    let matches = select_flyer_matches(&flyers);
    assert_eq!(matches.len(), 2);
    assert_eq!(matches[0].chain_id, "qfc");
    assert_eq!(matches[0].flyer_id, Some(3));
    assert_eq!(matches[1].chain_id, "safeway");
    assert_eq!(matches[1].chain_name, "Safeway");
    assert_eq!(matches[1].flyer_id, Some(2));
    assert_eq!(matches[1].merchant_id, Some(20));
    assert_eq!(matches[1].merchant_name, "safeway");
    assert_eq!(matches[1].store_name, Some("Weekly Ad".to_string()));
}

#[test]
fn merchant_names_containing_a_chain_match() {
    let matches = select_flyer_matches(&[flyer(7, "Fred Meyer Stores", "flyer")]);
    assert_eq!(matches.len(), 1);
    assert_eq!(matches[0].chain_id, "fred-meyer");
    assert_eq!(matches[0].chain_name, "Fred Meyer");
}

#[test]
fn session_ids_are_sixteen_digits() {
    let sid = generate_session_id();
    assert_eq!(sid.len(), 16);
    assert!(sid.chars().all(|c| c.is_ascii_digit()));
}

#[test]
fn flipp_urls() {
    assert_eq!(flyer_items_url(7512345), "https://flyers-ng.flippback.com/api/flipp/flyers/7512345/flyer_items");
    assert_eq!(FLIPP_FLYERS_URL, "https://backflipp.wishabi.com/flipp/flyers");
}
