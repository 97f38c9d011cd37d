use weekly_ad_recipes::ai_deals::{ai_item_to_deal, monthly_items_to_deals, screenshot_items_to_deals, AiDealItem};
use weekly_ad_recipes::ai_requests::{
    api_error_message, build_flyer_blocks, build_item_image_blocks, build_monthly_blocks, build_screenshot_blocks,
    item_deals_from_response, media_type_from_url, missing_api_key, no_text_in_answer, response_action,
    retries_exhausted, retry_delay_ms, send_step, ContentBlock, ResponseAction, SendStep, MAX_ATTEMPTS,
};
use weekly_ad_recipes::categorize::{
    apply_categories, base_category_list, batch_bounds, batch_from_response, build_categorize_prompt, merge_batch,
    merge_batch_outcome, BATCH_SIZE,
};
use weekly_ad_recipes::error::AppError;
use weekly_ad_recipes::keyed::KeyedStore;
use weekly_ad_recipes::meals::{build_meal_prompt, format_deals_list, suggestions_to_meals, validate_ingredient_ids, IngredientRef, MealSuggestion};
use weekly_ad_recipes::models::{Deal, DealTuple};
use weekly_ad_recipes::text::{extract_json_array, extract_json_object, json_span_is_defined};

fn text(b: &ContentBlock) -> &str {
    match b {
        ContentBlock::Text(t) => t.as_str(),
        _ => panic!("not a text block"),
    }
}

fn image(b: &ContentBlock) -> (&str, &str) {
    match b {
        ContentBlock::Image { media_type, data } => (media_type.as_str(), data.as_str()),
        _ => panic!("not an image block"),
    }
}

#[test]
fn item_image_blocks_label_each_item() {
    let items = vec![
        ("Chips".to_string(), "https://img/c.png".to_string(), vec![1u8, 2, 3]),
        ("Soda".to_string(), "https://img/s.jpg".to_string(), vec![0u8]),
    ];
    let blocks = build_item_image_blocks(&items);
    assert_eq!(blocks.len(), 5);
    assert_eq!(text(&blocks[0]), "Item 1: Chips");
    assert_eq!(image(&blocks[1]), ("image/png", "AQID"));
    assert_eq!(text(&blocks[2]), "Item 2: Soda");
    assert_eq!(image(&blocks[3]), ("image/jpeg", "AA=="));
    assert!(text(&blocks[4]).starts_with("For each item image above"));
}

#[test]
fn screenshot_blocks_are_numbered_pngs() {
    let shots = vec![b"abc".to_vec(), b"de".to_vec()];
    let blocks = build_screenshot_blocks(&shots);
    assert_eq!(blocks.len(), 5);
    assert_eq!(text(&blocks[0]), "Screenshot 1 of the weekly ad:");
    assert_eq!(image(&blocks[1]), ("image/png", "YWJj"));
    assert_eq!(text(&blocks[2]), "Screenshot 2 of the weekly ad:");
    assert_eq!(image(&blocks[3]), ("image/png", "ZGU="));
    assert!(text(&blocks[4]).starts_with("Extract all grocery deals from these weekly ad screenshots."));
}

#[test]
fn flyer_blocks_for_one_and_several_images() {
    let one = build_flyer_blocks(&[vec![0xFF, 0xD8, 0xFF]]);
    assert_eq!(one.len(), 3);
    assert_eq!(text(&one[0]), "This is an H Mart grocery weekly ad flyer:");
    assert_eq!(image(&one[1]), ("image/jpeg", "/9j/"));
    assert!(text(&one[2]).starts_with("Extract two things from this flyer:"));

    let png = vec![0x89, 0x50, 0x4E, 0x47];
    let several = build_flyer_blocks(&[vec![0xFF, 0xD8, 0xFF], png]);
    assert_eq!(several.len(), 6);
    assert_eq!(text(&several[0]), "These are H Mart grocery ad flyer images (weekly and/or monthly deals):");
    assert_eq!(text(&several[1]), "Image 1 of 2:");
    assert_eq!(text(&several[3]), "Image 2 of 2:");
    assert_eq!(image(&several[4]).0, "image/png");
}

#[test]
fn monthly_blocks() {
    let blocks = build_monthly_blocks(b"GIF89a");
    assert_eq!(blocks.len(), 3);
    assert_eq!(text(&blocks[0]), "This is an H Mart monthly deals advertisement:");
    assert_eq!(image(&blocks[1]), ("image/gif", "R0lGODlh"));
    assert!(text(&blocks[2]).ends_with("Output only the JSON array."));
}

#[test]
fn media_type_of_item_urls() {
    assert_eq!(media_type_from_url("https://x/a.PNG"), "image/jpeg");
    assert_eq!(media_type_from_url("https://x/a.png?w=1"), "image/png");
}

#[test]
fn item_deals_are_read_from_the_answer() {
    let answer = "Here you go:\n{\"Chips\": \"2 for $5\", \"Soda\": \"On Sale\"}\nThanks";
    assert!(json_span_is_defined(answer, '{', '}'));
    let store = item_deals_from_response(answer).unwrap();
    assert_eq!(store.get("Chips"), Some(&"2 for $5".to_string()));
    assert_eq!(store.get("Soda"), Some(&"On Sale".to_string()));
    assert_eq!(store.get("Milk"), None);
}

#[test]
fn unreadable_item_deals_are_an_ai_error() {
    match item_deals_from_response("no json here") {
        Err(AppError::Ai(m)) => assert!(m.starts_with("Failed to parse vision deals: ")),
        Err(e) => panic!("unexpected {:?}", e),
        Ok(_) => panic!("expected an error"),
    }
}

#[test]
fn json_spans() {
    assert_eq!(extract_json_object("  text {\"a\": {\"b\": 1}} more "), "{\"a\": {\"b\": 1}}");
    assert_eq!(extract_json_array("```json\n[1, [2]]\n```"), "[1, [2]]");
    assert_eq!(extract_json_array("  none  "), "none");
    assert!(!json_span_is_defined("] x [", '[', ']'));
    assert!(json_span_is_defined("[]", '[', ']'));
}

#[test]
fn response_actions_by_status() {
    assert_eq!(response_action(200), ResponseAction::Accept);
    assert_eq!(response_action(299), ResponseAction::Accept);
    assert_eq!(response_action(429), ResponseAction::Retry);
    assert_eq!(response_action(503), ResponseAction::Retry);
    assert_eq!(response_action(400), ResponseAction::Fail);
    assert_eq!(response_action(301), ResponseAction::Fail);
}

#[test]
fn retry_delays_double() {
    assert_eq!(MAX_ATTEMPTS, 3);
    assert_eq!(retry_delay_ms(1), 1000);
    assert_eq!(retry_delay_ms(2), 2000);
}

#[test]
fn ai_error_messages() {
    assert_eq!(
        api_error_message("529 <unknown status code>", "model-x", 1234, "overloaded"),
        "Anthropic API returned 529 <unknown status code> (model: model-x, request: 1234 bytes): overloaded"
    );
    assert!(matches!(retries_exhausted(None), AppError::Ai(m) if m == "Anthropic API failed after retries"));
    assert!(matches!(retries_exhausted(Some("last".into())), AppError::Ai(m) if m == "last"));
    assert!(matches!(missing_api_key(), AppError::Ai(m) if m == "ANTHROPIC_API_KEY not configured"));
    assert!(matches!(no_text_in_answer(), AppError::Ai(m) if m == "No text in AI response"));
}

fn ai_item(name: &str, category: Option<&str>) -> AiDealItem {
    AiDealItem {
        item_name: Some(name.to_string()),
        brand: Some(" Dole ".to_string()),
        deal_description: Some(" $0.59/lb ".to_string()),
        category: category.map(|c| c.to_string()),
        row: None,
        col: None,
    }
}

#[test]
fn ai_items_default_their_category() {
    let d = ai_item_to_deal(&ai_item(" Bananas ", Some(" PRODUCE ")), "other").unwrap();
    assert_eq!(d, ("Bananas".to_string(), Some("Dole".to_string()), "$0.59/lb".to_string(), "produce".to_string(), None));
    assert_eq!(screenshot_items_to_deals(&[ai_item("Kiwi", None)])[0].3, "other");
    assert_eq!(monthly_items_to_deals(&[ai_item("Kiwi", None)])[0].3, "uncategorized");
    assert!(ai_item_to_deal(&ai_item("   ", None), "other").is_none());
}

#[test]
fn categorize_prompt_lists_items_and_categories() {
    assert_eq!(BATCH_SIZE, 40);
    let known = base_category_list();
    assert_eq!(known.len(), 11);
    assert_eq!(known[10], "not_food");
    let items = vec![("Bananas".to_string(), None), ("Cola".to_string(), Some("Coke".to_string()))];
    let prompt = build_categorize_prompt(&items, &known);
    assert!(prompt.starts_with("Categorize each grocery item into exactly one category. Categories: produce, meat, dairy,"));
    assert!(prompt.contains("Items:\n1. Bananas\n2. Cola (Coke)\n\nRespond with ONLY"));
    assert!(prompt.ends_with("every item number from 1 to 2. Output only the JSON object."));
}

#[test]
fn batch_answers_map_numbers_to_names() {
    let items = vec![("Bananas".to_string(), None), ("Soap".to_string(), None), ("Kale".to_string(), None)];
    let batch = batch_from_response(&items, "{\"1\": \"produce\", \"2\": \"not_food\"}").unwrap();
    assert_eq!(batch.get("Bananas"), Some(&"produce".to_string()));
    assert_eq!(batch.get("Soap"), Some(&"not_food".to_string()));
    assert_eq!(batch.get("Kale"), None);
    assert!(matches!(batch_from_response(&items, "{oops}"), Err(AppError::Ai(m)) if m.starts_with("Failed to parse categories: ")));
}

#[test]
fn merged_batches_extend_the_known_categories() {
    let mut all: KeyedStore<String> = KeyedStore::new();
    let mut seen = base_category_list();
    let mut batch: KeyedStore<String> = KeyedStore::new();
    batch.insert("Bananas".to_string(), "produce".to_string());
    batch.insert("Kimchi".to_string(), "fermented".to_string());
    merge_batch(&mut all, &mut seen, &batch);
    assert_eq!(all.get("Kimchi"), Some(&"fermented".to_string()));
    assert_eq!(seen.len(), 12);
    assert_eq!(seen[11], "fermented");
}

#[test]
fn categories_are_applied_by_name() {
    let mut deals: Vec<DealTuple> = vec![
        ("Bananas".to_string(), None, "$1".to_string(), "uncategorized".to_string(), None),
        ("Mystery".to_string(), None, "$2".to_string(), "uncategorized".to_string(), None),
    ];
    let mut cats: KeyedStore<String> = KeyedStore::new();
    cats.insert("Bananas".to_string(), "produce".to_string());
    apply_categories(&mut deals, &cats);
    assert_eq!(deals[0].3, "produce");
    assert_eq!(deals[1].3, "uncategorized");
}

fn deal(id: i64, name: &str, brand: Option<&str>) -> Deal {
    Deal {
        id,
        location_id: 1,
        week_id: "w".into(),
        item_name: name.into(),
        brand: brand.map(|b| b.to_string()),
        deal_description: "$1.99".into(),
        category: "produce".into(),
        image_url: None,
        valid_from: None,
        valid_to: None,
        fetched_at: "t".into(),
    }
}

#[test]
fn meal_prompt_lists_deals_with_ids() {
    let deals = vec![deal(7, "Kale", None), deal(-2, "Tofu", Some("Nasoya"))];
    assert_eq!(format_deals_list(&deals), "- [ID:7] Kale: $1.99 [produce]\n- [ID:-2] Tofu (Nasoya): $1.99 [produce]");
    let prompt = build_meal_prompt(&deals);
    assert!(prompt.contains("- [ID:7] Kale: $1.99 [produce]"));
}

#[test]
fn only_known_deal_ids_stay_on_sale() {
    let deals = vec![deal(7, "Kale", None)];
    let kept = validate_ingredient_ids(
        vec![
            IngredientRef { ingredient: "kale".into(), deal_id: 7 },
            IngredientRef { ingredient: "ghost".into(), deal_id: 99 },
        ],
        &deals,
    );
    assert_eq!(kept.len(), 1);
    assert_eq!(kept[0].ingredient, "kale");
    let meals = suggestions_to_meals(
        vec![MealSuggestion {
            name: "Kale salad".into(),
            description: "Fresh".into(),
            on_sale_ingredients: vec![IngredientRef { ingredient: "ghost".into(), deal_id: 3 }],
            additional_ingredients: vec!["lemon".into()],
            estimated_savings: "$2".into(),
        }],
        &deals,
    );
    assert_eq!(meals.len(), 1);
    assert_eq!(meals[0].0, "Kale salad");
    assert!(meals[0].2.is_empty());
    assert_eq!(meals[0].3, vec!["lemon".to_string()]);
}

#[test]
fn send_steps_retry_at_most_twice() {
    assert_eq!(send_step(0, 200), SendStep::Accept);
    assert_eq!(send_step(0, 529), SendStep::RetryAfter(1000));
    assert_eq!(send_step(1, 429), SendStep::RetryAfter(2000));
    assert_eq!(send_step(2, 500), SendStep::Exhausted);
    assert_eq!(send_step(0, 400), SendStep::Fail);
    assert_eq!(send_step(1, 404), SendStep::Fail);
}

#[test]
fn items_are_categorized_in_batches_of_forty() {
    assert_eq!(batch_bounds(0), vec![]);
    assert_eq!(batch_bounds(40), vec![(0, 40)]);
    assert_eq!(batch_bounds(95), vec![(0, 40), (40, 80), (80, 95)]);
    let items: Vec<u8> = (0..95).collect();
    let by_chunks: Vec<(usize, usize)> = items.chunks(BATCH_SIZE).scan(0, |s, c| { let r = (*s, *s + c.len()); *s += c.len(); Some(r) }).collect();
    assert_eq!(batch_bounds(95), by_chunks);
}

#[test]
fn failed_batches_are_skipped() {
    let mut all: KeyedStore<String> = KeyedStore::new();
    let mut seen = base_category_list();
    merge_batch_outcome(&mut all, &mut seen, &Err(AppError::Ai("down".into())));
    assert!(all.to_pairs().is_empty());
    assert_eq!(seen.len(), 11);
    let mut batch: KeyedStore<String> = KeyedStore::new();
    batch.insert("Kimchi".into(), "fermented".into());
    merge_batch_outcome(&mut all, &mut seen, &Ok(batch));
    assert_eq!(all.get("Kimchi"), Some(&"fermented".to_string()));
    assert_eq!(seen.len(), 12);
}
