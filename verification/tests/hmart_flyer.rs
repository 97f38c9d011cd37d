use weekly_ad_recipes::ai_deals::AiDealItem;
use weekly_ad_recipes::hmart::{
    append_format_if_needed, apply_thumbnails, choose_monthly_url, crop_and_save_thumbnails,
    detect_image_media_type, hmart_ad_image_urls, hmart_wa_store, popup_ad_image_url, read_flyer_answer, sibling_result,
    thumbnails_for_grid,
    vision_result_from, week_id_from_valid_dates, HmartVisionResponse, Thumbnail, HMART_WA_STORE_COUNT,
    HMART_WA_WEEKLY_AD_URL,
};
use weekly_ad_recipes::error::AppError;
use weekly_ad_recipes::models::{Deal, DealTuple};

fn png_of(image: image::RgbImage) -> Vec<u8> {
    let mut png_bytes = Vec::new();
    image::DynamicImage::ImageRgb8(image)
        .write_to(&mut std::io::Cursor::new(&mut png_bytes), image::ImageFormat::Png)
        .unwrap();
    png_bytes
}

#[test]
fn detect_jpeg_media_type() {
    assert_eq!(detect_image_media_type(&[0xFF, 0xD8, 0xFF, 0xE0]), "image/jpeg");
}

#[test]
fn detect_png_media_type() {
    assert_eq!(detect_image_media_type(&[0x89, 0x50, 0x4E, 0x47, 0x0D]), "image/png");
}

#[test]
fn detect_webp_media_type() {
    let mut bytes = b"RIFF".to_vec();
    bytes.extend_from_slice(&[0x00; 4]);
    bytes.extend_from_slice(b"WEBP");
    assert_eq!(detect_image_media_type(&bytes), "image/webp");
}

#[test]
fn detect_unknown_defaults_to_jpeg() {
    assert_eq!(detect_image_media_type(&[0x00, 0x01, 0x02]), "image/jpeg");
}

#[test]
fn detect_gif_and_short_riff() {
    assert_eq!(detect_image_media_type(b"GIF89a"), "image/gif");
    assert_eq!(detect_image_media_type(b"RIFF1234WEB"), "image/jpeg");
    assert_eq!(detect_image_media_type(&[]), "image/jpeg");
}

#[test]
fn crop_thumbnails_handles_invalid_image() {
    let result = crop_and_save_thumbnails(b"not an image", 2, 2, &[(0, 0, 0)]);
    assert!(result.is_empty(), "Should return empty map for invalid image");
}

#[test]
fn zero_grid_is_refused_only_for_images_that_decode() {
    assert_eq!(thumbnails_for_grid(b"not an image", 0, 2, &[(0, 0, 0)]).map(|v| v.len()), Some(0));
    let png_bytes = png_of(image::RgbImage::from_fn(10, 10, |_, _| image::Rgb([9, 9, 9])));
    assert!(thumbnails_for_grid(&png_bytes, 0, 2, &[(0, 0, 0)]).is_none());
    assert_eq!(thumbnails_for_grid(&png_bytes, 1, 1, &[(0, 0, 0)]).map(|v| v.len()), Some(1));
}

#[test]
fn tiny_images_still_give_a_thumbnail_per_cell() {
    let png_bytes = png_of(image::RgbImage::from_fn(3, 2, |_, _| image::Rgb([9, 9, 9])));
    let result = crop_and_save_thumbnails(&png_bytes, 4, 5, &[(0, 0, 0), (1, 3, 4)]);
    assert_eq!(result.len(), 2);
    assert_eq!((result[1].x, result[1].y, result[1].width, result[1].height), (0, 0, 0, 0));
    assert!(image::load_from_memory(&result[1].jpeg).is_ok());
}

#[test]
fn flyer_answer_that_is_not_json_is_an_ai_error() {
    match read_flyer_answer(Err("expected value at line 1 column 1".to_string())) {
        Err(AppError::Ai(m)) => assert_eq!(m, "Failed to parse H Mart vision response: expected value at line 1 column 1"),
        _ => panic!("expected an AI error"),
    }
    let ok = read_flyer_answer(Ok(HmartVisionResponse {
        valid_from: Some("20260306".into()),
        valid_to: None,
        grid_rows: Some(3),
        grid_cols: None,
        deals: vec![item(Some("Pears"), Some(2), None)],
    }))
    .unwrap();
    assert_eq!((ok.valid_from.as_str(), ok.valid_to.as_str(), ok.grid_rows, ok.grid_cols), ("20260306", "unknown", 3, 5));
    assert_eq!(ok.deal_positions, vec![(0, 2, 0)]);
}

#[test]
fn crop_thumbnails_from_synthetic_image() {
    let image = image::RgbImage::from_fn(400, 300, |x, y| {
        let row = if y < 150 { 0 } else { 1 };
        let col = if x < 200 { 0 } else { 1 };
        match (row, col) {
            (0, 0) => image::Rgb([255, 0, 0]),
            (0, 1) => image::Rgb([0, 255, 0]),
            (1, 0) => image::Rgb([0, 0, 255]),
            _ => image::Rgb([255, 255, 0]),
        }
    });
    let png_bytes = png_of(image);
    let positions = vec![(0, 0, 0), (1, 0, 1), (2, 1, 0)];
    let result = crop_and_save_thumbnails(&png_bytes, 2, 2, &positions);
    assert_eq!(result.len(), 3, "Should produce 3 thumbnails");
    let indices: Vec<usize> = result.iter().map(|t| t.deal_index).collect();
    assert_eq!(indices, vec![0, 1, 2]);
    let rects: Vec<(u32, u32, u32, u32)> = result.iter().map(|t| (t.x, t.y, t.width, t.height)).collect();
    assert_eq!(rects, vec![(0, 0, 200, 150), (200, 0, 200, 150), (0, 150, 200, 150)]);
    for t in &result {
        assert!(t.url.starts_with("/api/thumbnails/"), "URL should start with /api/thumbnails/, got: {}", t.url);
        assert!(t.url.ends_with(".jpg"), "URL should end with .jpg, got: {}", t.url);
        assert_eq!(t.url, format!("/api/thumbnails/{}", t.file_name));
        assert_eq!(t.file_name.len(), 20);
        let decoded = image::load_from_memory(&t.jpeg).unwrap();
        assert!(decoded.width() <= 300 && decoded.height() <= 300);
    }
    assert_ne!(result[0].file_name, result[1].file_name);
}

#[test]
fn crop_thumbnails_skips_out_of_bounds_positions() {
    let image = image::RgbImage::from_fn(200, 200, |_, _| image::Rgb([128, 128, 128]));
    let png_bytes = png_of(image);
    let positions = vec![(0, 0, 0), (1, 10, 10)];
    let result = crop_and_save_thumbnails(&png_bytes, 2, 2, &positions);
    assert_eq!(result.len(), 1, "Should only produce 1 thumbnail (out-of-bounds skipped)");
    assert_eq!(result[0].deal_index, 0);
}

#[test]
fn thumbnail_names_depend_only_on_cell_and_size() {
    let image = image::RgbImage::from_fn(100, 100, |_, _| image::Rgb([1, 2, 3]));
    let png_bytes = png_of(image);
    let a = crop_and_save_thumbnails(&png_bytes, 2, 2, &[(7, 1, 1)]);
    let b = crop_and_save_thumbnails(&png_bytes, 2, 2, &[(3, 1, 1)]);
    assert_eq!(a[0].file_name, b[0].file_name);
}

#[test]
fn week_id_strips_date_separators() {
    assert_eq!(week_id_from_valid_dates("2026-03-06", "2026.03/12"), "hmart-20260306-20260312");
    assert_eq!(week_id_from_valid_dates("20260306", "20260312"), "hmart-20260306-20260312");
    assert_eq!(week_id_from_valid_dates("", ""), "hmart--");
}

#[test]
fn format_is_appended_only_without_a_query() {
    assert_eq!(append_format_if_needed("https://x/a.jpg", "2500w"), "https://x/a.jpg?format=2500w");
    assert_eq!(append_format_if_needed("https://x/a.jpg?format=750w", "2500w"), "https://x/a.jpg?format=750w");
}

#[test]
fn wa_stores_table() {
    assert_eq!(HMART_WA_STORE_COUNT, 9);
    assert_eq!(hmart_wa_store(2), ("98052", "H Mart - Redmond"));
    assert_eq!(hmart_wa_store(8), ("98004", "H Mart - Bellevue"));
    assert!(HMART_WA_WEEKLY_AD_URL.ends_with("weekly-sale-wa"));
}

#[test]
fn ad_image_urls_from_sale_page() {
    let html = r#"<img src="https://images.squarespace-cdn.com/content/v1/Weekly_eng_0306.jpg">
<img data-src="https://images.squarespace-cdn.com/content/v1/Monthly_ad.png">
<img data-image="https://images.squarespace-cdn.com/content/v1/Monthly_ad.png">"#;
    let (weekly, monthly) = hmart_ad_image_urls(html).unwrap();
    assert_eq!(weekly, "https://images.squarespace-cdn.com/content/v1/Weekly_eng_0306.jpg?format=2500w");
    assert_eq!(monthly, vec!["https://images.squarespace-cdn.com/content/v1/Monthly_ad.png?format=2500w".to_string()]);
}

#[test]
fn ad_image_urls_missing_weekly_is_an_error() {
    let r = hmart_ad_image_urls("<html>nothing here</html>");
    match r {
        Err(AppError::Internal(msg)) => assert_eq!(msg, "Could not find English weekly ad image on H Mart WA page"),
        other => panic!("unexpected {:?}", other),
    }
}

#[test]
fn popup_image_url_found_in_rendered_page() {
    let html = r#"<div style="background: url(https://images.squarespace-cdn.com/content/v1/abc/March_Monthly.jpg)"></div>"#;
    assert_eq!(
        popup_ad_image_url(html),
        Some("https://images.squarespace-cdn.com/content/v1/abc/March_Monthly.jpg?format=2500w".to_string())
    );
    assert_eq!(popup_ad_image_url("<div></div>"), None);
}

#[test]
fn monthly_url_prefers_the_page_over_the_popup() {
    let page = vec!["https://a/1.png".to_string(), "https://a/2.png".to_string()];
    assert_eq!(choose_monthly_url(&page, Some("https://b/p.png".to_string())), Some("https://a/1.png".to_string()));
    assert_eq!(choose_monthly_url(&[], Some("https://b/p.png".to_string())), Some("https://b/p.png".to_string()));
    assert_eq!(choose_monthly_url(&[], None), None);
}

fn tuple(name: &str) -> DealTuple {
    (name.to_string(), None, "$1".to_string(), "produce".to_string(), None)
}

#[test]
fn thumbnails_are_attached_by_deal_index() {
    let mut deals = vec![tuple("A"), tuple("B"), tuple("C")];
    let thumbs = vec![
        Thumbnail { deal_index: 2, x: 0, y: 0, width: 1, height: 1, file_name: "x.jpg".into(), url: "/api/thumbnails/x.jpg".into(), jpeg: vec![] },
        Thumbnail { deal_index: 9, x: 0, y: 0, width: 1, height: 1, file_name: "y.jpg".into(), url: "/api/thumbnails/y.jpg".into(), jpeg: vec![] },
    ];
    apply_thumbnails(&mut deals, &thumbs);
    assert_eq!(deals[0].4, None);
    assert_eq!(deals[1].4, None);
    assert_eq!(deals[2].4, Some("/api/thumbnails/x.jpg".to_string()));
}

fn item(name: Option<&str>, row: Option<u64>, col: Option<u64>) -> AiDealItem {
    AiDealItem {
        item_name: name.map(|s| s.to_string()),
        brand: Some("  ".to_string()),
        deal_description: None,
        category: Some(" Produce ".to_string()),
        row,
        col,
    }
}

#[test]
fn vision_result_defaults_and_positions() {
    let response = HmartVisionResponse {
        valid_from: None,
        valid_to: Some("20260312".to_string()),
        grid_rows: None,
        grid_cols: Some(3),
        deals: vec![item(Some(" Napa Cabbage "), Some(1), Some(2)), item(Some("  "), Some(0), Some(0)), item(Some("Tofu"), None, None)],
    };
    let r = vision_result_from(response);
    assert_eq!(r.valid_from, "unknown");
    assert_eq!(r.valid_to, "20260312");
    assert_eq!(r.grid_rows, 4);
    assert_eq!(r.grid_cols, 3);
    assert_eq!(r.deals.len(), 2);
    assert_eq!(r.deals[0], ("Napa Cabbage".to_string(), None, "On Sale".to_string(), "produce".to_string(), None));
    assert_eq!(r.deal_positions, vec![(0, 1, 2), (1, 0, 0)]);
}

#[test]
fn sibling_deals_keep_their_week() {
    let deal = Deal {
        id: 1,
        location_id: 2,
        week_id: "hmart-1-2".into(),
        item_name: "Pear".into(),
        brand: Some("Asian".into()),
        deal_description: "$2".into(),
        category: "produce".into(),
        image_url: Some("/api/thumbnails/p.jpg".into()),
        valid_from: Some("2026-03-06".into()),
        valid_to: Some("2026-03-12".into()),
        fetched_at: "now".into(),
    };
    let r = sibling_result("hmart-1-2".into(), &[deal]);
    assert_eq!(r.weekly_week_id, "hmart-1-2");
    assert_eq!(r.weekly_valid_from, "2026-03-06");
    assert_eq!(r.weekly_valid_to, "2026-03-12");
    assert_eq!(r.monthly_week_id, None);
    assert_eq!(
        r.weekly_deals,
        vec![("Pear".to_string(), Some("Asian".to_string()), "$2".to_string(), "produce".to_string(), Some("/api/thumbnails/p.jpg".to_string()))]
    );
    assert!(r.monthly_deals.is_empty());
}
