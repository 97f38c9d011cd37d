//! Requests to the Anthropic messages API: the content blocks sent with flyer
//! images, and the retry policy applied to the API's answers.

use base64::Engine;
use vstd::prelude::*;
use vstd::arithmetic::power2::{lemma_pow2_unfold, pow2};
use crate::error::AppError;
use crate::hmart::{detect_image_media_type, media_type_of};
use crate::keyed::{text_map, KeyedStore};
use crate::categorize::{json_string_map, parse_json_string_map, store_of_pairs};
use crate::text::{contains_seq, decimal, json_span, json_span_defined, extract_json_object, str_contains, u64_to_string};

verus! {

/// The messages endpoint.
pub const ANTHROPIC_API_URL: &'static str = "https://api.anthropic.com/v1/messages";

/// The API version requested.
pub const ANTHROPIC_VERSION: &'static str = "2023-06-01";

/// How many times a request is sent before giving up.
pub const MAX_ATTEMPTS: u32 = 3;

/// The answer length allowed when reading deal texts off item images.
pub const ITEM_IMAGES_MAX_TOKENS: u32 = 2048;

/// The answer length allowed when reading flyers and screenshots.
pub const VISION_MAX_TOKENS: u32 = 4096;

/// A block of a message's content.
#[derive(Debug, Clone)]
pub enum ContentBlock {
    Text(String),
    Image { media_type: String, data: String },
}

/// A content block as characters: `(kind, text or media type, image data)`.
pub open spec fn block_view(b: ContentBlock) -> (Seq<char>, Seq<char>, Seq<char>) {
    match b {
        ContentBlock::Text(t) => ("text"@, t@, Seq::empty()),
        ContentBlock::Image { media_type, data } => ("image"@, media_type@, data@),
    }
}

/// The blocks as characters.
pub open spec fn block_views(v: Seq<ContentBlock>) -> Seq<(Seq<char>, Seq<char>, Seq<char>)> {
    v.map_values(|b: ContentBlock| block_view(b))
}

/// The character of a six-bit value in the standard base64 alphabet.
pub open spec fn base64_char(n: int) -> char {
    if n < 26 {
        (n + 65) as char
    } else if n < 52 {
        (n - 26 + 97) as char
    } else if n < 62 {
        (n - 52 + 48) as char
    } else if n == 62 {
        '+'
    } else {
        '/'
    }
}

/// The standard, padded base64 encoding of bytes, as the `base64` crate's
/// `STANDARD` engine writes it: each group of three bytes becomes four
/// characters of six bits each; a last group of one or two bytes is padded
/// with `=` to four characters.
pub open spec fn base64_of(bytes: Seq<u8>) -> Seq<char>
    decreases bytes.len(),
{
    if bytes.len() == 0 {
        Seq::empty()
    } else if bytes.len() == 1 {
        let b0 = bytes[0] as int;
        seq![base64_char(b0 / 4), base64_char((b0 % 4) * 16), '=', '=']
    } else if bytes.len() == 2 {
        let (b0, b1) = (bytes[0] as int, bytes[1] as int);
        seq![base64_char(b0 / 4), base64_char((b0 % 4) * 16 + b1 / 16), base64_char((b1 % 16) * 4), '=']
    } else {
        let (b0, b1, b2) = (bytes[0] as int, bytes[1] as int, bytes[2] as int);
        seq![
            base64_char(b0 / 4),
            base64_char((b0 % 4) * 16 + b1 / 16),
            base64_char((b1 % 16) * 4 + b2 / 64),
            base64_char(b2 % 64),
        ] + base64_of(bytes.skip(3))
    }
}

/// Calls `base64::engine::general_purpose::STANDARD.encode`, which writes the
/// standard padded encoding `base64_of` of the bytes. Inputs whose encoded length overflows `usize`
/// (on which the crate panics) are excluded.
#[verifier::external_body]
pub(crate) fn encode_base64(bytes: &[u8]) -> (r: String)
    requires
        bytes@.len() / 3 * 4 + 4 <= usize::MAX,
    ensures
        r@ == base64_of(bytes@),
{
    base64::engine::general_purpose::STANDARD.encode(bytes)
}

/// The image block of some bytes with their media type.
pub open spec fn image_block(media_type: Seq<char>, bytes: Seq<u8>) -> (Seq<char>, Seq<char>, Seq<char>) {
    ("image"@, media_type, base64_of(bytes))
}

/// A text block.
pub open spec fn text_block(text: Seq<char>) -> (Seq<char>, Seq<char>, Seq<char>) {
    ("text"@, text, Seq::empty())
}

/// The largest image that can be base64-encoded here.
pub open spec fn encodable(bytes: Seq<u8>) -> bool {
    bytes.len() / 3 * 4 + 4 <= usize::MAX
}

fn image_block_exec(media_type: &str, bytes: &[u8]) -> (r: ContentBlock)
    requires
        encodable(bytes@),
    ensures
        block_view(r) == image_block(media_type@, bytes@),
{
    ContentBlock::Image { media_type: media_type.to_string(), data: encode_base64(bytes) }
}

/// The media type guessed from an image URL: PNG when it mentions `.png`, else JPEG.
pub open spec fn url_media_type(url: Seq<char>) -> Seq<char> {
    if contains_seq(url, ".png"@) {
        "image/png"@
    } else {
        "image/jpeg"@
    }
}

/// The media type of an item image, guessed from its URL.
pub fn media_type_from_url(url: &str) -> (r: &'static str)
    ensures
        r@ == url_media_type(url@),
{
    if str_contains(url, ".png") {
        "image/png"
    } else {
        "image/jpeg"
    }
}

/// The request asking for the deal text shown on item images.
pub open spec fn item_deals_prompt() -> Seq<char> {
    "For each item image above, read the deal/sale text visible in the image (e.g. \"Buy 1 Get 1 Free\", \"2 for $5\", \"$3.99/lb\", \"Save $2\", etc). Respond with ONLY a JSON object mapping item names (exactly as given) to the deal text. If you can't determine the deal, use \"On Sale\". Example:\n{\"Coca-Cola\": \"Buy 2 Get 1 Free\", \"Doritos\": \"2 for $7\"}"@
}

/// The label of the `n`-th item image: `Item {n}: {name}`.
pub open spec fn item_label(n: nat, name: Seq<char>) -> Seq<char> {
    "Item "@ + decimal(n) + ": "@ + name
}

/// The blocks asking for the deal texts of downloaded item images: each item
/// is labelled with its number and name, followed by its image.
pub open spec fn item_image_blocks(items: Seq<(String, String, Vec<u8>)>) -> Seq<(Seq<char>, Seq<char>, Seq<char>)>
    decreases items.len(),
{
    if items.len() == 0 {
        Seq::empty()
    } else {
        let last = items.last();
        item_image_blocks(items.drop_last()).push(text_block(item_label(items.len(), last.0@))).push(
            image_block(url_media_type(last.1@), last.2@),
        )
    }
}

/// The content asking for the deal text of each downloaded item image, given as
/// `(name, image_url, image_bytes)`, then the request itself.
pub fn build_item_image_blocks(items: &[(String, String, Vec<u8>)]) -> (r: Vec<ContentBlock>)
    requires
        items@.len() < u64::MAX,
        forall|i: int| 0 <= i < items@.len() ==> encodable(#[trigger] items@[i].2@),
    ensures
        block_views(r@) == item_image_blocks(items@).push(text_block(item_deals_prompt())),
{
    let mut r: Vec<ContentBlock> = Vec::new();
    let mut i: usize = 0;
    while i < items.len()
        invariant
            i <= items.len(),
            items@.len() < u64::MAX,
            forall|k: int| 0 <= k < items@.len() ==> encodable(#[trigger] items@[k].2@),
            block_views(r@) == item_image_blocks(items@.take(i as int)),
        decreases items.len() - i,
    {
        let (name, url, bytes) = &items[i];
        let mut label = "Item ".to_string();
        let n = u64_to_string((i + 1) as u64);
        label.append(n.as_str());
        label.append(": ");
        label.append(name.as_str());
        let ghost before = block_views(r@);
        r.push(ContentBlock::Text(label));
        let media_type = media_type_from_url(url.as_str());
        r.push(image_block_exec(media_type, bytes.as_slice()));
        proof {
            let t = items@.take(i + 1);
            assert(t.drop_last() =~= items@.take(i as int));
            assert(t.last() == items@[i as int]);
            assert(block_views(r@) =~= before.push(text_block(item_label((i + 1) as nat, name@))).push(
                image_block(url_media_type(url@), bytes@),
            ));
        }
        i += 1;
    }
    assert(items@.take(items.len() as int) =~= items@);
    let ghost before = block_views(r@);
    r.push(ContentBlock::Text(
        "For each item image above, read the deal/sale text visible in the image (e.g. \"Buy 1 Get 1 Free\", \"2 for $5\", \"$3.99/lb\", \"Save $2\", etc). Respond with ONLY a JSON object mapping item names (exactly as given) to the deal text. If you can't determine the deal, use \"On Sale\". Example:\n{\"Coca-Cola\": \"Buy 2 Get 1 Free\", \"Doritos\": \"2 for $7\"}".to_string(),
    ));
    assert(block_views(r@) =~= before.push(text_block(item_deals_prompt())));
    r
}

/// The error when the item deal texts cannot be read.
pub open spec fn vision_deals_parse_error(message: Seq<char>) -> Seq<char> {
    "Failed to parse vision deals: "@ + message
}

/// Reads the model's answer about item images: the JSON object in it maps
/// item names to deal texts.
pub fn item_deals_from_response(response: &str) -> (r: Result<KeyedStore<String>, AppError>)
    requires
        json_span_defined(response@, '{', '}'),
    ensures
        match json_string_map(json_span(response@, '{', '}')) {
            Ok(m) => r matches Ok(store) && text_map(store@) == m,
            Err(e) => r matches Err(AppError::Ai(msg)) && msg@ == vision_deals_parse_error(e),
        },
{
    let json = extract_json_object(response);
    match parse_json_string_map(json.as_str()) {
        Ok(pairs) => Ok(store_of_pairs(pairs)),
        Err(e) => {
            let mut msg = "Failed to parse vision deals: ".to_string();
            msg.append(e.as_str());
            Err(AppError::Ai(msg))
        },
    }
}

/// The request to read deals off weekly ad screenshots.
pub open spec fn screenshots_prompt() -> Seq<char> {
    "Extract all grocery deals from these weekly ad screenshots. For each deal, provide the item name, deal description (price or discount), and a category (produce, meat, dairy, bakery, frozen, pantry, beverages, snacks, deli, seafood). Skip non-food items. Respond with ONLY a JSON array of objects: [{\"item_name\": \"...\", \"brand\": \"...\", \"deal_description\": \"...\", \"category\": \"...\"}] If brand is unknown, use null. Output only the JSON array."@
}

/// The label of the `n`-th screenshot.
pub open spec fn screenshot_label(n: nat) -> Seq<char> {
    "Screenshot "@ + decimal(n) + " of the weekly ad:"@
}

/// Each screenshot labelled with its number, followed by it as a PNG image.
pub open spec fn screenshot_blocks(shots: Seq<Vec<u8>>) -> Seq<(Seq<char>, Seq<char>, Seq<char>)>
    decreases shots.len(),
{
    if shots.len() == 0 {
        Seq::empty()
    } else {
        screenshot_blocks(shots.drop_last()).push(text_block(screenshot_label(shots.len()))).push(
            image_block("image/png"@, shots.last()@),
        )
    }
}

/// The content asking for the deals of weekly ad screenshots.
pub fn build_screenshot_blocks(screenshots: &[Vec<u8>]) -> (r: Vec<ContentBlock>)
    requires
        screenshots@.len() < u64::MAX,
        forall|i: int| 0 <= i < screenshots@.len() ==> encodable(#[trigger] screenshots@[i]@),
    ensures
        block_views(r@) == screenshot_blocks(screenshots@).push(text_block(screenshots_prompt())),
{
    let mut r: Vec<ContentBlock> = Vec::new();
    let mut i: usize = 0;
    while i < screenshots.len()
        invariant
            i <= screenshots.len(),
            screenshots@.len() < u64::MAX,
            forall|k: int| 0 <= k < screenshots@.len() ==> encodable(#[trigger] screenshots@[k]@),
            block_views(r@) == screenshot_blocks(screenshots@.take(i as int)),
        decreases screenshots.len() - i,
    {
        let mut label = "Screenshot ".to_string();
        let n = u64_to_string((i + 1) as u64);
        label.append(n.as_str());
        label.append(" of the weekly ad:");
        let ghost before = block_views(r@);
        r.push(ContentBlock::Text(label));
        r.push(image_block_exec("image/png", screenshots[i].as_slice()));
        proof {
            let t = screenshots@.take(i + 1);
            assert(t.drop_last() =~= screenshots@.take(i as int));
            assert(t.last() == screenshots@[i as int]);
            assert(block_views(r@) =~= before.push(text_block(screenshot_label((i + 1) as nat))).push(
                image_block("image/png"@, screenshots@[i as int]@),
            ));
        }
        i += 1;
    }
    assert(screenshots@.take(screenshots.len() as int) =~= screenshots@);
    let ghost before = block_views(r@);
    r.push(ContentBlock::Text(
        "Extract all grocery deals from these weekly ad screenshots. For each deal, provide the item name, deal description (price or discount), and a category (produce, meat, dairy, bakery, frozen, pantry, beverages, snacks, deli, seafood). Skip non-food items. Respond with ONLY a JSON array of objects: [{\"item_name\": \"...\", \"brand\": \"...\", \"deal_description\": \"...\", \"category\": \"...\"}] If brand is unknown, use null. Output only the JSON array.".to_string(),
    ));
    assert(block_views(r@) =~= before.push(text_block(screenshots_prompt())));
    r
}

/// The request to read dates, grid and deals off the H Mart weekly flyer.
pub open spec fn weekly_flyer_prompt() -> Seq<char> {
    "Extract two things from this flyer:\n1. The valid date range (e.g., \"03/06\" to \"03/12\", or \"March 6\" to \"March 12\"). Include the year if shown, otherwise assume the current year.\n2. All grocery deals with item name, brand (if shown), and deal description (price or discount).\n\nFor deal_description, always include the dollar sign for prices (e.g., \"$2.99/lb\", \"$5.99\", \"2 for $5\", \"Buy 1 Get 1 Free\"). Read prices carefully from the image \u{2014} make sure you're reading the correct price for each item.\n\nFor each deal, also estimate its grid position in the flyer as row and column (0-indexed, reading left-to-right, top-to-bottom). The flyer is typically laid out in a grid of product tiles.\n\nRespond with ONLY a JSON object in this format:\n{\n\"valid_from\": \"YYYYMMDD\",\n\"valid_to\": \"YYYYMMDD\",\n\"grid_rows\": 4,\n\"grid_cols\": 5,\n\"deals\": [{\"item_name\": \"...\", \"brand\": \"...\", \"deal_description\": \"...\", \"category\": \"...\", \"row\": 0, \"col\": 0}]\n}\nCategories: produce, meat, dairy, bakery, frozen, pantry, beverages, snacks, deli, seafood.\nIf brand is unknown, use null. Output only the JSON object."@
}

/// The opening text of the flyer request: one flyer, or several images.
pub open spec fn flyer_label(count: nat) -> Seq<char> {
    if count > 1 {
        "These are H Mart grocery ad flyer images (weekly and/or monthly deals):"@
    } else {
        "This is an H Mart grocery weekly ad flyer:"@
    }
}

/// Each flyer image, preceded by `Image {n} of {count}:` when there are several.
pub open spec fn flyer_image_blocks(images: Seq<Vec<u8>>, count: nat) -> Seq<(Seq<char>, Seq<char>, Seq<char>)>
    decreases images.len(),
{
    if images.len() == 0 {
        Seq::empty()
    } else {
        let prev = flyer_image_blocks(images.drop_last(), count);
        let with_label = if count > 1 {
            prev.push(text_block("Image "@ + decimal(images.len()) + " of "@ + decimal(count) + ":"@))
        } else {
            prev
        };
        with_label.push(image_block(media_type_of(images.last()@), images.last()@))
    }
}

/// The content asking for the H Mart flyer's dates, grid and deals.
pub fn build_flyer_blocks(images: &[Vec<u8>]) -> (r: Vec<ContentBlock>)
    requires
        images@.len() < u64::MAX,
        forall|i: int| 0 <= i < images@.len() ==> encodable(#[trigger] images@[i]@),
    ensures
        block_views(r@) == seq![text_block(flyer_label(images@.len()))] + flyer_image_blocks(images@, images@.len()).push(
            text_block(weekly_flyer_prompt()),
        ),
{
    let count = images.len();
    let mut r: Vec<ContentBlock> = Vec::new();
    if count > 1 {
        r.push(ContentBlock::Text("These are H Mart grocery ad flyer images (weekly and/or monthly deals):".to_string()));
    } else {
        r.push(ContentBlock::Text("This is an H Mart grocery weekly ad flyer:".to_string()));
    }
    let ghost head = block_views(r@);
    assert(head =~= seq![text_block(flyer_label(count as nat))]);
    let mut i: usize = 0;
    while i < count
        invariant
            i <= count == images@.len(),
            count < u64::MAX,
            forall|k: int| 0 <= k < images@.len() ==> encodable(#[trigger] images@[k]@),
            head == seq![text_block(flyer_label(count as nat))],
            block_views(r@) == head + flyer_image_blocks(images@.take(i as int), count as nat),
        decreases count - i,
    {
        let ghost before = block_views(r@);
        let ghost before_blocks = flyer_image_blocks(images@.take(i as int), count as nat);
        let ghost lbl = text_block("Image "@ + decimal((i + 1) as nat) + " of "@ + decimal(count as nat) + ":"@);
        let ghost step = if count > 1 { before_blocks.push(lbl) } else { before_blocks };
        if count > 1 {
            let mut label = "Image ".to_string();
            let n = u64_to_string((i + 1) as u64);
            label.append(n.as_str());
            label.append(" of ");
            let c = u64_to_string(count as u64);
            label.append(c.as_str());
            label.append(":");
            r.push(ContentBlock::Text(label));
            assert(block_views(r@) =~= before.push(lbl));
        }
        assert(block_views(r@) =~= head + step);
        let ghost mid = block_views(r@);
        let media_type = detect_image_media_type(images[i].as_slice());
        r.push(image_block_exec(media_type, images[i].as_slice()));
        proof {
            let t = images@.take(i + 1);
            let img = image_block(media_type_of(images@[i as int]@), images@[i as int]@);
            assert(t.drop_last() =~= images@.take(i as int));
            assert(t.last() == images@[i as int]);
            assert(flyer_image_blocks(t, count as nat) == step.push(img));
            assert(block_views(r@) =~= mid.push(img));
            assert(block_views(r@) =~= head + flyer_image_blocks(t, count as nat));
        }
        i += 1;
    }
    assert(images@.take(count as int) =~= images@);
    let ghost before = block_views(r@);
    r.push(ContentBlock::Text(weekly_flyer_prompt_text().to_string()));
    assert(block_views(r@) =~= before.push(text_block(weekly_flyer_prompt())));
    r
}

fn weekly_flyer_prompt_text() -> (r: &'static str)
    ensures
        r@ == weekly_flyer_prompt(),
{
    "Extract two things from this flyer:\n1. The valid date range (e.g., \"03/06\" to \"03/12\", or \"March 6\" to \"March 12\"). Include the year if shown, otherwise assume the current year.\n2. All grocery deals with item name, brand (if shown), and deal description (price or discount).\n\nFor deal_description, always include the dollar sign for prices (e.g., \"$2.99/lb\", \"$5.99\", \"2 for $5\", \"Buy 1 Get 1 Free\"). Read prices carefully from the image \u{2014} make sure you're reading the correct price for each item.\n\nFor each deal, also estimate its grid position in the flyer as row and column (0-indexed, reading left-to-right, top-to-bottom). The flyer is typically laid out in a grid of product tiles.\n\nRespond with ONLY a JSON object in this format:\n{\n\"valid_from\": \"YYYYMMDD\",\n\"valid_to\": \"YYYYMMDD\",\n\"grid_rows\": 4,\n\"grid_cols\": 5,\n\"deals\": [{\"item_name\": \"...\", \"brand\": \"...\", \"deal_description\": \"...\", \"category\": \"...\", \"row\": 0, \"col\": 0}]\n}\nCategories: produce, meat, dairy, bakery, frozen, pantry, beverages, snacks, deli, seafood.\nIf brand is unknown, use null. Output only the JSON object."
}

/// The request to read the deals of the H Mart monthly ad.
pub open spec fn monthly_prompt() -> Seq<char> {
    "Extract all grocery deals from this monthly ad image.\nFor each deal, provide the item name, brand (if shown), and deal description.\n\nFor deal_description, always include the dollar sign for prices (e.g., \"$2.99/lb\", \"$5.99\", \"2 for $5\").\nRead prices carefully from the image.\n\nRespond with ONLY a JSON array of objects:\n[{\"item_name\": \"...\", \"brand\": \"...\", \"deal_description\": \"...\", \"category\": \"...\"}]\nCategories: produce, meat, dairy, bakery, frozen, pantry, beverages, snacks, deli, seafood.\nIf brand is unknown, use null. Output only the JSON array."@
}

/// The content asking for the deals of the H Mart monthly ad.
pub fn build_monthly_blocks(image: &[u8]) -> (r: Vec<ContentBlock>)
    requires
        encodable(image@),
    ensures
        block_views(r@) == seq![
            text_block("This is an H Mart monthly deals advertisement:"@),
            image_block(media_type_of(image@), image@),
            text_block(monthly_prompt()),
        ],
{
    let mut r: Vec<ContentBlock> = Vec::new();
    r.push(ContentBlock::Text("This is an H Mart monthly deals advertisement:".to_string()));
    r.push(image_block_exec(detect_image_media_type(image), image));
    r.push(ContentBlock::Text(
        "Extract all grocery deals from this monthly ad image.\nFor each deal, provide the item name, brand (if shown), and deal description.\n\nFor deal_description, always include the dollar sign for prices (e.g., \"$2.99/lb\", \"$5.99\", \"2 for $5\").\nRead prices carefully from the image.\n\nRespond with ONLY a JSON array of objects:\n[{\"item_name\": \"...\", \"brand\": \"...\", \"deal_description\": \"...\", \"category\": \"...\"}]\nCategories: produce, meat, dairy, bakery, frozen, pantry, beverages, snacks, deli, seafood.\nIf brand is unknown, use null. Output only the JSON array.".to_string(),
    ));
    assert(block_views(r@) =~= seq![
        text_block("This is an H Mart monthly deals advertisement:"@),
        image_block(media_type_of(image@), image@),
        text_block(monthly_prompt()),
    ]);
    r
}

/// What to do with an answer of the API, by its HTTP status.
#[derive(Debug, Clone, Copy, PartialEq, Eq, Structural)]
pub enum ResponseAction {
    /// A 2xx answer: read the text of the reply.
    Accept,
    /// A server error or rate limit: try again after a pause.
    Retry,
    /// Any other status: give up with the error.
    Fail,
}

/// The action for an answer's status.
pub open spec fn action_of(status: u16) -> ResponseAction {
    if 200 <= status <= 299 {
        ResponseAction::Accept
    } else if (500 <= status <= 599) || status == 429 {
        ResponseAction::Retry
    } else {
        ResponseAction::Fail
    }
}

/// Whether an answer is used, retried or ends the request with an error.
pub fn response_action(status: u16) -> (r: ResponseAction)
    ensures
        r == action_of(status),
{
    if 200 <= status && status <= 299 {
        ResponseAction::Accept
    } else if (500 <= status && status <= 599) || status == 429 {
        ResponseAction::Retry
    } else {
        ResponseAction::Fail
    }
}

/// The pause before the given (second or later) attempt: one second, doubled
/// at each further attempt.
pub fn retry_delay_ms(attempt: u32) -> (r: u64)
    requires
        1 <= attempt < MAX_ATTEMPTS,
    ensures
        r == 1000 * pow2((attempt - 1) as nat),
{
    let mut delay: u64 = 1000;
    let mut k: u32 = 0;
    proof {
        vstd::arithmetic::power2::lemma2_to64();
    }
    while k < attempt - 1
        invariant
            k <= attempt - 1,
            attempt < MAX_ATTEMPTS,
            delay == 1000 * pow2(k as nat),
        decreases attempt - 1 - k,
    {
        proof {
            lemma_pow2_unfold((k + 1) as nat);
            vstd::arithmetic::power2::lemma2_to64();
        }
        delay = delay * 2;
        k += 1;
    }
    delay
}

/// The error for an unsuccessful answer: its status, the model, the request
/// size and the answer's body.
pub open spec fn api_error_text(status: Seq<char>, model: Seq<char>, request_len: nat, body: Seq<char>) -> Seq<char> {
    "Anthropic API returned "@ + status + " (model: "@ + model + ", request: "@ + decimal(request_len) + " bytes): "@ + body
}

/// The message of an unsuccessful answer; `status` is the status as the HTTP
/// client prints it.
pub fn api_error_message(status: &str, model: &str, request_len: usize, body: &str) -> (r: String)
    ensures
        r@ == api_error_text(status@, model@, request_len as nat, body@),
{
    let mut m = "Anthropic API returned ".to_string();
    m.append(status);
    m.append(" (model: ");
    m.append(model);
    m.append(", request: ");
    let n = u64_to_string(request_len as u64);
    m.append(n.as_str());
    m.append(" bytes): ");
    m.append(body);
    m
}

/// The error after every attempt was answered with a retryable status: the
/// last answer's message.
pub fn retries_exhausted(last_error: Option<String>) -> (r: AppError)
    ensures
        r matches AppError::Ai(m) && m@ == match last_error {
            Some(e) => e@,
            None => "Anthropic API failed after retries"@,
        },
{
    match last_error {
        Some(e) => AppError::Ai(e),
        None => AppError::Ai("Anthropic API failed after retries".to_string()),
    }
}

/// The error when the API key is missing.
pub fn missing_api_key() -> (r: AppError)
    ensures
        r matches AppError::Ai(m) && m@ == "ANTHROPIC_API_KEY not configured"@,
{
    AppError::Ai("ANTHROPIC_API_KEY not configured".to_string())
}

/// The error when an accepted answer holds no text.
pub fn no_text_in_answer() -> (r: AppError)
    ensures
        r matches AppError::Ai(m) && m@ == "No text in AI response"@,
{
    AppError::Ai("No text in AI response".to_string())
}

/// What the request loop does after the answer to attempt `attempt` (counted
/// from 0).
#[derive(Debug, Clone, Copy, PartialEq, Eq, Structural)]
pub enum SendStep {
    /// A 2xx answer: read its text.
    Accept,
    /// A retryable answer with attempts left: wait this many milliseconds, then send again.
    RetryAfter(u64),
    /// A retryable answer to the last attempt: give up with its message.
    Exhausted,
    /// Any other answer: give up with its message at once.
    Fail,
}

/// The step after the answer with `status` to attempt `attempt`.
pub open spec fn send_step_of(attempt: nat, status: u16) -> SendStep {
    match action_of(status) {
        ResponseAction::Accept => SendStep::Accept,
        ResponseAction::Fail => SendStep::Fail,
        ResponseAction::Retry => if attempt + 1 < MAX_ATTEMPTS {
            SendStep::RetryAfter((1000 * pow2(attempt)) as u64)
        } else {
            SendStep::Exhausted
        },
    }
}

/// Decides what the request loop does after an answer.
pub fn send_step(attempt: u32, status: u16) -> (r: SendStep)
    requires
        attempt < MAX_ATTEMPTS,
    ensures
        r == send_step_of(attempt as nat, status),
{
    match response_action(status) {
        ResponseAction::Accept => SendStep::Accept,
        ResponseAction::Fail => SendStep::Fail,
        ResponseAction::Retry => if attempt + 1 < MAX_ATTEMPTS {
            SendStep::RetryAfter(retry_delay_ms(attempt + 1))
        } else {
            SendStep::Exhausted
        },
    }
}

/// How many requests the loop sends, from attempt `attempt` on, when the
/// answers come with the given statuses in turn.
pub open spec fn posts_from(attempt: nat, statuses: Seq<u16>) -> nat
    decreases statuses.len(),
{
    if statuses.len() == 0 {
        0
    } else {
        match send_step_of(attempt, statuses[0]) {
            SendStep::RetryAfter(_) => 1 + posts_from(attempt + 1, statuses.drop_first()),
            _ => 1,
        }
    }
}

/// Whatever the answers, one request sends at most `MAX_ATTEMPTS` times; an
/// answer that is neither a success nor retryable ends it after that try.
pub proof fn lemma_at_most_max_attempts(statuses: Seq<u16>)
    ensures
        posts_from(0, statuses) <= MAX_ATTEMPTS,
        statuses.len() > 0 && action_of(statuses[0]) == ResponseAction::Fail ==> posts_from(0, statuses) == 1,
{
    lemma_posts_bounded(0, statuses);
}

/// From attempt `attempt` on, at most `MAX_ATTEMPTS - attempt` requests are sent.
proof fn lemma_posts_bounded(attempt: nat, statuses: Seq<u16>)
    requires
        attempt < MAX_ATTEMPTS,
    ensures
        posts_from(attempt, statuses) <= MAX_ATTEMPTS - attempt,
    decreases statuses.len(),
{
    if statuses.len() > 0 {
        if send_step_of(attempt, statuses[0]) is RetryAfter {
            lemma_posts_bounded(attempt + 1, statuses.drop_first());
        }
    }
}

} // verus!
