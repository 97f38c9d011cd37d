use weekly_ad_recipes::error::AppError;
use weekly_ad_recipes::wfm_stores::{
    extract_store_selector_attrs, json_ld_text, new_slugs, parse_sitemap_slugs, store_page_url, SITEMAP_URL,
};
use weekly_ad_recipes::whole_foods::{
    build_deal_description, extract_next_data, promotions_to_deals, sales_flyer_url, wfm_store_id, WfmPromotion,
};

#[test]
fn parse_sitemap_slugs_extracts_store_slugs() {
    let xml = r#"<?xml version="1.0"?>
<urlset xmlns="http://www.sitemaps.org/schemas/sitemap/0.9">
<url><loc>https://www.wholefoodsmarket.com/stores/interbay</loc><lastmod>2025-10-29</lastmod></url>
<url><loc>https://www.wholefoodsmarket.com/stores/bellevue</loc><lastmod>2025-10-29</lastmod></url>
</urlset>"#;
    let slugs = parse_sitemap_slugs(xml);
    assert_eq!(slugs, vec!["interbay", "bellevue"]);
}

#[test]
fn parse_sitemap_slugs_empty_xml_returns_empty() {
    let xml = r#"<?xml version="1.0"?>
<urlset xmlns="http://www.sitemaps.org/schemas/sitemap/0.9">
</urlset>"#;
    let slugs = parse_sitemap_slugs(xml);
    assert!(slugs.is_empty());
}

#[test]
fn store_page_and_sitemap_urls() {
    assert_eq!(store_page_url("interbay"), "https://www.wholefoodsmarket.com/stores/interbay");
    assert!(SITEMAP_URL.ends_with("sitemap-stores.xml"));
}

#[test]
fn store_selector_attributes_are_read() {
    let html = r#"<wfm-store-selector store-id="10260" store-name="Redmond"></wfm-store-selector>"#;
    let (id, name) = extract_store_selector_attrs(html, "redmond").unwrap();
    assert_eq!(id, "10260");
    assert_eq!(name, "Redmond");
}

#[test]
fn missing_store_attributes_are_named() {
    match extract_store_selector_attrs("<div></div>", "redmond") {
        Err(AppError::Internal(m)) => assert_eq!(m, "No store-id found for slug 'redmond'"),
        other => panic!("unexpected {:?}", other),
    }
    match extract_store_selector_attrs(r#"<x store-id="1">"#, "redmond") {
        Err(AppError::Internal(m)) => assert_eq!(m, "No store-name found for slug 'redmond'"),
        other => panic!("unexpected {:?}", other),
    }
}

#[test]
fn json_ld_is_found_in_a_store_page() {
    let html = "<head><script type=\"application/ld+json\">\n {\"geo\": {\"latitude\": 47.6}} \n</script></head>";
    assert_eq!(json_ld_text(html), Some("{\"geo\": {\"latitude\": 47.6}}".to_string()));
    assert_eq!(json_ld_text("<head></head>"), None);
}

#[test]
fn only_unknown_slugs_are_new() {
    let sitemap = vec!["a".to_string(), "b".to_string(), "a".to_string(), "c".to_string()];
    let known = vec!["b".to_string()];
    assert_eq!(new_slugs(&sitemap, &known), vec!["a".to_string(), "c".to_string()]);
    assert!(new_slugs(&sitemap, &sitemap).is_empty());
}

#[test]
fn whole_foods_description_labels_prices() {
    let s = |x: &str| Some(x.to_string());
    assert_eq!(build_deal_description(&s("$5.99"), &s(" $4.99 "), &s("$3.99")), "Sale: $4.99 · Prime: $3.99 · Reg: $5.99");
    assert_eq!(build_deal_description(&s("$5.99"), &None, &s("  ")), "Reg: $5.99");
    assert_eq!(build_deal_description(&None, &None, &None), "On Sale");
}

#[test]
fn promotions_without_names_are_skipped() {
    let promo = |name: Option<&str>| WfmPromotion {
        promotion_id: None,
        product_name: name.map(|s| s.to_string()),
        origin_brand_name: Some(" ".to_string()),
        regular_price: Some("$2".to_string()),
        sale_price: None,
        prime_price: None,
        product_image: Some("https://img/x.jpg".to_string()),
        romance_copy: None,
        headline: None,
    };
    let deals = promotions_to_deals(&[promo(Some(" Kale ")), promo(None), promo(Some("  "))]);
    assert_eq!(
        deals,
        vec![(
            "Kale".to_string(),
            None,
            "Reg: $2".to_string(),
            "uncategorized".to_string(),
            Some("https://img/x.jpg".to_string())
        )]
    );
}

#[test]
fn next_data_is_cut_from_its_script_tag() {
    let html = r#"<html><script id="__NEXT_DATA__" type="application/json">{"props":{}}</script></html>"#;
    assert_eq!(extract_next_data(html), Some(r#"{"props":{}}"#.to_string()));
    assert_eq!(extract_next_data("<html></html>"), None);
    assert_eq!(extract_next_data("__NEXT_DATA__ no tag end"), None);
}

#[test]
fn store_id_comes_from_the_ad_url() {
    assert_eq!(wfm_store_id(&Some("https://www.wholefoodsmarket.com/sales-flyer?store-id=10103&x=1".to_string())), "10103");
    assert_eq!(wfm_store_id(&Some("https://www.wholefoodsmarket.com/sales-flyer".to_string())), "10260");
    assert_eq!(wfm_store_id(&None), "10260");
    assert_eq!(sales_flyer_url("10103"), "https://www.wholefoodsmarket.com/sales-flyer?store-id=10103");
}
