//! Grocery categories: the prompt that asks the model to categorize a batch of
//! items, reading its numbered answer back, and applying the categories.

use std::collections::HashMap;
use vstd::prelude::*;
use crate::error::AppError;
use crate::keyed::{distinct_pair_keys, lemma_pairs_map_at, lemma_pairs_map_push, pairs_map, text_map, KeyedStore};
use crate::models::{tuple_view, tuple_views, DealTuple, DealView};
use crate::text::{
    decimal, join, join_strings, json_span, json_span_defined, extract_json_object, opt_view,
    str_eq, u64_to_string, views,
};

verus! {

/// The answer length allowed to the categorizing model.
pub const CATEGORIZE_MAX_TOKENS: u32 = 4096;

/// How many items are categorized per request, so answers are not truncated.
pub const BATCH_SIZE: usize = 40;

/// The categories offered at first.
pub open spec fn base_categories() -> Seq<Seq<char>> {
    seq![
        "produce"@,
        "meat"@,
        "dairy"@,
        "bakery"@,
        "frozen"@,
        "pantry"@,
        "beverages"@,
        "snacks"@,
        "deli"@,
        "seafood"@,
        "not_food"@,
    ]
}

/// The categories offered at first, in order.
pub fn base_category_list() -> (r: Vec<String>)
    ensures
        views(r@) == base_categories(),
{
    let mut r: Vec<String> = Vec::new();
    r.push("produce".to_string());
    r.push("meat".to_string());
    r.push("dairy".to_string());
    r.push("bakery".to_string());
    r.push("frozen".to_string());
    r.push("pantry".to_string());
    r.push("beverages".to_string());
    r.push("snacks".to_string());
    r.push("deli".to_string());
    r.push("seafood".to_string());
    r.push("not_food".to_string());
    assert(views(r@) =~= base_categories());
    r
}

/// The characters of an `(item name, brand)` list.
pub open spec fn item_views(items: Seq<(String, Option<String>)>) -> Seq<(Seq<char>, Option<Seq<char>>)> {
    items.map_values(|p: (String, Option<String>)| (p.0@, opt_view(p.1)))
}

/// The numbered line of the `i`-th item: `{i+1}. {name}`, then ` ({brand})` when it has one.
pub open spec fn item_line(i: int, item: (Seq<char>, Option<Seq<char>>)) -> Seq<char> {
    decimal((i + 1) as nat) + ". "@ + item.0 + match item.1 {
        Some(b) => " ("@ + b + ")"@,
        None => Seq::empty(),
    }
}

/// The numbered item lines of a batch.
pub open spec fn item_lines(items: Seq<(Seq<char>, Option<Seq<char>>)>) -> Seq<Seq<char>> {
    Seq::new(items.len(), |i: int| item_line(i, items[i]))
}

/// The opening of the categorizing prompt, before the known categories.
pub open spec fn prompt_intro() -> Seq<char> {
    "Categorize each grocery item into exactly one category. Categories: "@
}

/// What the categories are for, and the heading of the item list.
pub open spec fn prompt_guidance() -> Seq<char> {
    "\n\nThis is for a meal planning app, so focus on food and drink items.\nUse \"not_food\" for non-food items like baby supplies, cleaning products, toiletries, pet food, \nEaster decorations, flowers, household items, etc. Alcohol and beverages should stay as \"beverages\".\n\nItems:\n"@
}

/// The expected answer, up to the number of the last item.
pub open spec fn prompt_answer_format() -> Seq<char> {
    "\n\nRespond with ONLY a JSON object mapping each item number to its category. Example:\n{\"1\": \"produce\", \"2\": \"meat\", \"3\": \"not_food\"}\n\nYou MUST include an entry for every item number from 1 to "@
}

/// The end of the categorizing prompt.
pub open spec fn prompt_end() -> Seq<char> {
    ". Output only the JSON object."@
}

/// The prompt asking to categorize a batch: the known categories, the numbered
/// items, and the number of answers expected.
pub open spec fn categorize_prompt(items: Seq<(Seq<char>, Option<Seq<char>>)>, known: Seq<Seq<char>>) -> Seq<char> {
    prompt_intro() + join(known, ", "@) + prompt_guidance() + join(item_lines(items), "\n"@)
        + prompt_answer_format() + decimal(items.len()) + prompt_end()
}

/// The prompt that asks the model to categorize a batch of `(name, brand)` items.
pub fn build_categorize_prompt(items: &[(String, Option<String>)], known_categories: &Vec<String>) -> (r: String)
    requires
        items@.len() < u64::MAX,
    ensures
        r@ == categorize_prompt(item_views(items@), views(known_categories@)),
{
    let mut lines: Vec<String> = Vec::new();
    let mut i: usize = 0;
    while i < items.len()
        invariant
            i <= items.len(),
            items@.len() < u64::MAX,
            views(lines@) == item_lines(item_views(items@)).take(i as int),
        decreases items.len() - i,
    {
        let mut line = u64_to_string((i + 1) as u64);
        line.append(". ");
        line.append(items[i].0.as_str());
        match &items[i].1 {
            Some(brand) => {
                line.append(" (");
                line.append(brand.as_str());
                line.append(")");
            },
            None => {},
        }
        proof {
            let iv = item_views(items@);
            assert(iv[i as int] == (items@[i as int].0@, opt_view(items@[i as int].1)));
            assert(line@ =~= item_line(i as int, iv[i as int]));
        }
        let ghost lv = line@;
        let ghost before = views(lines@);
        lines.push(line);
        proof {
            assert(views(lines@) =~= before.push(lv));
            let il = item_lines(item_views(items@));
            assert(il.take(i + 1) =~= il.take(i as int).push(il[i as int]));
        }
        i += 1;
    }
    assert(item_lines(item_views(items@)).take(items.len() as int) =~= item_lines(item_views(items@)));
    let item_list = join_strings(&lines, "\n");
    let categories = join_strings(known_categories, ", ");
    let mut prompt = "Categorize each grocery item into exactly one category. Categories: ".to_string();
    prompt.append(categories.as_str());
    prompt.append(
        "\n\nThis is for a meal planning app, so focus on food and drink items.\nUse \"not_food\" for non-food items like baby supplies, cleaning products, toiletries, pet food, \nEaster decorations, flowers, household items, etc. Alcohol and beverages should stay as \"beverages\".\n\nItems:\n",
    );
    prompt.append(item_list.as_str());
    prompt.append(
        "\n\nRespond with ONLY a JSON object mapping each item number to its category. Example:\n{\"1\": \"produce\", \"2\": \"meat\", \"3\": \"not_food\"}\n\nYou MUST include an entry for every item number from 1 to ",
    );
    let count = u64_to_string(items.len() as u64);
    prompt.append(count.as_str());
    prompt.append(". Output only the JSON object.");
    prompt
}

/// The string-to-string object that `serde_json::from_str` reads from `text`,
/// or its error message.
pub uninterp spec fn json_string_map(text: Seq<char>) -> Result<Map<Seq<char>, Seq<char>>, Seq<char>>;

/// Calls `serde_json::from_str` for a `HashMap<String, String>`; the outcome
/// (the map, or the error's message) is named `json_string_map` of the text.
/// The pairs come in the map's iteration order, which is left unsaid.
#[verifier::external_body]
pub(crate) fn parse_json_string_map(text: &str) -> (r: Result<Vec<(String, String)>, String>)
    ensures
        match r {
            Ok(pairs) => distinct_pair_keys(pairs@)
                && json_string_map(text@) == Ok::<Map<Seq<char>, Seq<char>>, Seq<char>>(pairs_map(pairs@)),
            Err(e) => json_string_map(text@) == Err::<Map<Seq<char>, Seq<char>>, Seq<char>>(e@),
        },
{
    match serde_json::from_str::<HashMap<String, String>>(text) {
        Ok(map) => Ok(map.into_iter().collect()),
        Err(error) => Err(error.to_string()),
    }
}

/// A map of strings built from pairs with distinct keys.
pub fn store_of_pairs(pairs: Vec<(String, String)>) -> (r: KeyedStore<String>)
    requires
        distinct_pair_keys(pairs@),
    ensures
        text_map(r@) == pairs_map(pairs@),
{
    let ghost all = pairs@;
    let mut store: KeyedStore<String> = KeyedStore::new();
    let n = pairs.len();
    let mut i: usize = 0;
    assert(pairs_map(all.take(0)) =~= Map::empty());
    assert(text_map(store@) =~= Map::empty());
    while i < n
        invariant
            i <= n == all.len(),
            pairs@ == all,
            distinct_pair_keys(all),
            text_map(store@) == pairs_map(all.take(i as int)),
        decreases n - i,
    {
        let key = pairs[i].0.clone();
        let value = pairs[i].1.clone();
        let ghost before = store@;
        store.insert(key, value);
        proof {
            let t = all.take(i + 1);
            assert(t =~= all.take(i as int).push(all[i as int]));
            assert forall|a: int, b: int| 0 <= a < b < t.len() implies t[a].0@ != t[b].0@ by {
                assert(t[a] == all[a] && t[b] == all[b]);
            }
            lemma_pairs_map_push(all.take(i as int), all[i as int]);
            assert(text_map(store@) =~= text_map(before).insert(all[i as int].0@, all[i as int].1@));
        }
        i += 1;
    }
    assert(all.take(n as int) =~= all);
    store
}

/// The categories by item name that a numbered answer gives: the `i`-th item
/// (numbered from 1) gets the category answered for its number; a later item
/// of the same name wins.
pub open spec fn numbered_categories(
    items: Seq<(Seq<char>, Option<Seq<char>>)>,
    by_number: Map<Seq<char>, Seq<char>>,
) -> Map<Seq<char>, Seq<char>>
    decreases items.len(),
{
    if items.len() == 0 {
        Map::empty()
    } else {
        let prev = numbered_categories(items.drop_last(), by_number);
        let key = decimal(items.len());
        if by_number.contains_key(key) {
            prev.insert(items.last().0, by_number[key])
        } else {
            prev
        }
    }
}

/// `name` gets the category answered for item `i` (numbered from 1 in the
/// answer): the `i`-th item has that name, the answer has its number, and no
/// later item of the same name has an answer.
pub open spec fn answered_last_for(
    items: Seq<(Seq<char>, Option<Seq<char>>)>,
    by_number: Map<Seq<char>, Seq<char>>,
    name: Seq<char>,
    i: int,
) -> bool {
    &&& 0 <= i < items.len()
    &&& items[i].0 == name
    &&& by_number.contains_key(decimal((i + 1) as nat))
    &&& forall|k: int| i < k < items.len() && (#[trigger] items[k]).0 == name ==> !by_number.contains_key(decimal((k + 1) as nat))
}

/// Reading a numbered answer gives each item the category answered for its
/// number: every item whose number is answered has a category by its name;
/// every name that has one got it from the last item of that name whose
/// number is answered.
pub proof fn lemma_numbered_categories_by_item(items: Seq<(Seq<char>, Option<Seq<char>>)>, by_number: Map<Seq<char>, Seq<char>>)
    ensures
        forall|i: int| 0 <= i < items.len() && by_number.contains_key(decimal((i + 1) as nat))
            ==> #[trigger] numbered_categories(items, by_number).contains_key(items[i].0),
        forall|name: Seq<char>| #[trigger] numbered_categories(items, by_number).contains_key(name) ==> exists|i: int|
            #[trigger] answered_last_for(items, by_number, name, i)
                && numbered_categories(items, by_number)[name] == by_number[decimal((i + 1) as nat)],
    decreases items.len(),
{
    if items.len() > 0 {
        let init = items.drop_last();
        lemma_numbered_categories_by_item(init, by_number);
        let last = items.len() - 1;
        let key = decimal(items.len());
        assert(items[last] == items.last());
        assert((last + 1) as nat == items.len());
        let r = numbered_categories(items, by_number);
        let p = numbered_categories(init, by_number);
        assert forall|i: int| 0 <= i < items.len() && by_number.contains_key(decimal((i + 1) as nat))
            implies #[trigger] r.contains_key(items[i].0) by {
            if i < last {
                assert(init[i] == items[i]);
                assert(p.contains_key(init[i].0));
            }
        }
        assert forall|name: Seq<char>| #[trigger] r.contains_key(name) implies exists|i: int|
            #[trigger] answered_last_for(items, by_number, name, i) && r[name] == by_number[decimal((i + 1) as nat)] by {
            if by_number.contains_key(key) && name == items[last].0 {
                assert(answered_last_for(items, by_number, name, last));
            } else {
                assert(p.contains_key(name));
                let i = choose|i: int| #[trigger] answered_last_for(init, by_number, name, i)
                    && p[name] == by_number[decimal((i + 1) as nat)];
                assert(init[i] == items[i]);
                assert forall|k: int| i < k < items.len() && (#[trigger] items[k]).0 == name
                    implies !by_number.contains_key(decimal((k + 1) as nat)) by {
                    if k < last {
                        assert(init[k] == items[k]);
                    }
                }
                assert(answered_last_for(items, by_number, name, i));
            }
        }
    }
}

/// The error when the model's categories cannot be read.
pub open spec fn categories_parse_error(message: Seq<char>) -> Seq<char> {
    "Failed to parse categories: "@ + message
}

/// Reads the model's answer for a batch: the JSON object in it maps item
/// numbers to categories, which are given back by item name.
pub fn batch_from_response(items: &[(String, Option<String>)], response: &str) -> (r: Result<KeyedStore<String>, AppError>)
    requires
        json_span_defined(response@, '{', '}'),
        items@.len() < u64::MAX,
    ensures
        match json_string_map(json_span(response@, '{', '}')) {
            Ok(m) => r matches Ok(store) && text_map(store@) == numbered_categories(item_views(items@), m),
            Err(e) => r matches Err(AppError::Ai(msg)) && msg@ == categories_parse_error(e),
        },
{
    let json = extract_json_object(response);
    let pairs = match parse_json_string_map(json.as_str()) {
        Ok(p) => p,
        Err(e) => {
            let mut msg = "Failed to parse categories: ".to_string();
            msg.append(e.as_str());
            return Err(AppError::Ai(msg));
        },
    };
    let by_number = store_of_pairs(pairs);
    let ghost m = text_map(by_number@);
    let mut result: KeyedStore<String> = KeyedStore::new();
    let mut i: usize = 0;
    while i < items.len()
        invariant
            i <= items.len(),
            items@.len() < u64::MAX,
            text_map(by_number@) == m,
            text_map(result@) == numbered_categories(item_views(items@).take(i as int), m),
        decreases items.len() - i,
    {
        let key = u64_to_string((i + 1) as u64);
        proof {
            let t = item_views(items@).take(i + 1);
            assert(t.drop_last() =~= item_views(items@).take(i as int));
            assert(t.len() == i + 1);
        }
        match by_number.get(key.as_str()) {
            Some(category) => {
                let c = category.clone();
                result.insert(items[i].0.clone(), c);
                assert(text_map(result@) =~= numbered_categories(item_views(items@).take(i + 1), m));
            },
            None => {
                assert(text_map(result@) =~= numbered_categories(item_views(items@).take(i + 1), m));
            },
        }
        i += 1;
    }
    assert(item_views(items@).take(items.len() as int) =~= item_views(items@));
    Ok(result)
}

/// Adds a batch's categories to those found so far (a batch's answer wins),
/// and appends to the known categories each new one, so later batches are
/// offered the same names.
pub fn merge_batch(all: &mut KeyedStore<String>, seen: &mut Vec<String>, batch: &KeyedStore<String>)
    ensures
        text_map(final(all)@) == text_map(old(all)@).union_prefer_right(text_map(batch@)),
        views(final(seen)@).take(old(seen)@.len() as int) == views(old(seen)@),
        forall|c: Seq<char>| #[trigger] views(final(seen)@).contains(c) <==> (views(old(seen)@).contains(c)
            || exists|k: Seq<char>| text_map(batch@).contains_key(k) && text_map(batch@)[k] == c),
        forall|a: int, b: int|
            0 <= b < a < final(seen)@.len() && old(seen)@.len() <= a ==> #[trigger] final(seen)@[b]@ != #[trigger] final(seen)@[a]@,
{
    let pairs = batch.to_pairs();
    let ghost all0 = text_map(all@);
    let ghost seen0 = views(seen@);
    let mut i: usize = 0;
    proof {
        assert(pairs_map(pairs@.take(0)) =~= Map::empty());
        assert(all0.union_prefer_right(Map::empty()) =~= all0);
        assert(seen0.take(seen0.len() as int) =~= seen0);
    }
    while i < pairs.len()
        invariant
            i <= pairs@.len(),
            distinct_pair_keys(pairs@),
            text_map(all@) == all0.union_prefer_right(pairs_map(pairs@.take(i as int))),
            seen0.len() <= seen@.len(),
            views(seen@).take(seen0.len() as int) == seen0,
            forall|c: Seq<char>| #[trigger] views(seen@).contains(c) <==> (seen0.contains(c) || exists|a: int|
                0 <= a < i && pairs@[a].1@ == c),
            forall|a: int, b: int|
                0 <= b < a < seen@.len() && seen0.len() <= a ==> #[trigger] seen@[b]@ != #[trigger] seen@[a]@,
        decreases pairs@.len() - i,
    {
        let mut known = false;
        let mut j: usize = 0;
        while j < seen.len()
            invariant
                i < pairs@.len(),
                j <= seen@.len(),
                known == exists|b: int| 0 <= b < j && seen@[b]@ == pairs@[i as int].1@,
            decreases seen@.len() - j,
        {
            if str_eq(seen[j].as_str(), pairs[i].1.as_str()) {
                known = true;
            }
            j += 1;
        }
        let ghost seen_before = views(seen@);
        if !known {
            seen.push(pairs[i].1.clone());
        }
        let ghost all_before = all@;
        all.insert(pairs[i].0.clone(), pairs[i].1.clone());
        proof {
            let sv = views(seen@);
            if !known {
                assert(sv =~= seen_before.push(pairs@[i as int].1@));
                assert(sv.take(seen0.len() as int) =~= seen_before.take(seen0.len() as int));
                assert forall|a: int, b: int|
                    0 <= b < a < seen@.len() && seen0.len() <= a implies #[trigger] seen@[b]@ != #[trigger] seen@[a]@ by {
                    if a == seen@.len() - 1 {
                        assert(seen@[b]@ == seen_before[b]);
                    }
                }
            } else {
                assert(sv == seen_before);
            }
            assert forall|c: Seq<char>| #[trigger] sv.contains(c) <==> (seen0.contains(c) || exists|a: int|
                0 <= a < i + 1 && pairs@[a].1@ == c) by {
                if sv.contains(c) {
                    let b = choose|b: int| 0 <= b < sv.len() && sv[b] == c;
                    if b < seen_before.len() {
                        assert(seen_before[b] == c);
                        assert(seen_before.contains(c));
                    } else {
                        assert(pairs@[i as int].1@ == c);
                    }
                }
                if exists|a: int| 0 <= a < i + 1 && pairs@[a].1@ == c {
                    let a = choose|a: int| 0 <= a < i + 1 && pairs@[a].1@ == c;
                    if a == i {
                        if known {
                            let b = choose|b: int| 0 <= b < seen@.len() && seen@[b]@ == pairs@[i as int].1@;
                            assert(sv[b] == c);
                        } else {
                            assert(sv[sv.len() - 1] == c);
                        }
                    } else {
                        assert(seen_before.contains(c));
                        let b = choose|b: int| 0 <= b < seen_before.len() && seen_before[b] == c;
                        assert(sv[b] == c);
                    }
                }
                if seen0.contains(c) {
                    assert(seen_before.contains(c));
                    let b = choose|b: int| 0 <= b < seen_before.len() && seen_before[b] == c;
                    assert(sv[b] == c);
                }
            }
            let t = pairs@.take(i + 1);
            assert(t =~= pairs@.take(i as int).push(pairs@[i as int]));
            assert forall|a: int, b: int| 0 <= a < b < t.len() implies t[a].0@ != t[b].0@ by {
                assert(t[a] == pairs@[a] && t[b] == pairs@[b]);
            }
            lemma_pairs_map_push(pairs@.take(i as int), pairs@[i as int]);
            assert(text_map(all@) =~= text_map(all_before).insert(pairs@[i as int].0@, pairs@[i as int].1@));
            assert(text_map(all@) =~= all0.union_prefer_right(pairs_map(t)));
        }
        i += 1;
    }
    proof {
        assert(pairs@.take(pairs@.len() as int) =~= pairs@);
        assert forall|c: Seq<char>| #[trigger] views(seen@).contains(c) <==> (seen0.contains(c) || exists|k: Seq<char>|
            text_map(batch@).contains_key(k) && text_map(batch@)[k] == c) by {
            if exists|a: int| 0 <= a < pairs@.len() && pairs@[a].1@ == c {
                let a = choose|a: int| 0 <= a < pairs@.len() && pairs@[a].1@ == c;
                lemma_pairs_map_at(pairs@, a);
                assert(text_map(batch@).contains_key(pairs@[a].0@));
            }
            if exists|k: Seq<char>| text_map(batch@).contains_key(k) && text_map(batch@)[k] == c {
                let k = choose|k: Seq<char>| text_map(batch@).contains_key(k) && text_map(batch@)[k] == c;
                assert(pairs_map(pairs@).contains_key(k));
                let a = choose|a: int| 0 <= a < pairs@.len() && pairs@[a].0@ == k;
                lemma_pairs_map_at(pairs@, a);
                assert(pairs@[a].1@ == c);
            }
        }
    }
}

/// Adds categories found later to those found so far; a later answer for a
/// name wins.
pub fn merge_categories(all: &mut KeyedStore<String>, more: &KeyedStore<String>)
    ensures
        text_map(final(all)@) == text_map(old(all)@).union_prefer_right(text_map(more@)),
{
    let pairs = more.to_pairs();
    let ghost all0 = text_map(all@);
    let mut i: usize = 0;
    proof {
        assert(pairs_map(pairs@.take(0)) =~= Map::empty());
        assert(all0.union_prefer_right(Map::empty()) =~= all0);
    }
    while i < pairs.len()
        invariant
            i <= pairs@.len(),
            distinct_pair_keys(pairs@),
            text_map(all@) == all0.union_prefer_right(pairs_map(pairs@.take(i as int))),
        decreases pairs@.len() - i,
    {
        let ghost all_before = all@;
        all.insert(pairs[i].0.clone(), pairs[i].1.clone());
        proof {
            let t = pairs@.take(i + 1);
            assert(t =~= pairs@.take(i as int).push(pairs@[i as int]));
            assert forall|a: int, b: int| 0 <= a < b < t.len() implies t[a].0@ != t[b].0@ by {
                assert(t[a] == pairs@[a] && t[b] == pairs@[b]);
            }
            lemma_pairs_map_push(pairs@.take(i as int), pairs@[i as int]);
            assert(text_map(all@) =~= text_map(all_before).insert(pairs@[i as int].0@, pairs@[i as int].1@));
            assert(text_map(all@) =~= all0.union_prefer_right(pairs_map(t)));
        }
        i += 1;
    }
    assert(pairs@.take(pairs@.len() as int) =~= pairs@);
}

/// The batches items are categorized in: `[start, end)` index ranges of
/// `BATCH_SIZE` items in order, the last one shorter when the count is not a
/// multiple (what `chunks(BATCH_SIZE)` gives).
pub open spec fn batches(n: nat) -> Seq<(int, int)> {
    Seq::new(
        ((n + BATCH_SIZE - 1) / BATCH_SIZE as int) as nat,
        |i: int| (i * BATCH_SIZE, if i * BATCH_SIZE + BATCH_SIZE <= n { i * BATCH_SIZE + BATCH_SIZE } else { n as int }),
    )
}

/// The batches cover the items once, in order: the first starts at 0, each
/// starts where the one before ends, the last ends at `n`, and each holds
/// between 1 and `BATCH_SIZE` items.
pub proof fn lemma_batches_cover(n: nat)
    ensures
        n > 0 ==> batches(n).len() > 0 && batches(n)[0].0 == 0 && batches(n).last().1 == n,
        n == 0 ==> batches(n).len() == 0,
        forall|i: int| 0 <= i < batches(n).len() ==> 0 < (#[trigger] batches(n)[i]).1 - batches(n)[i].0 <= BATCH_SIZE,
        forall|i: int| 0 < i < batches(n).len() ==> (#[trigger] batches(n)[i]).0 == batches(n)[i - 1].1,
{
    let c = ((n + BATCH_SIZE - 1) / BATCH_SIZE as int) as nat;
    assert(c * BATCH_SIZE < n + BATCH_SIZE && n <= c * BATCH_SIZE) by (nonlinear_arith)
        requires
            c == ((n + BATCH_SIZE - 1) / BATCH_SIZE as int) as nat,
            BATCH_SIZE == 40,
    ;
    assert forall|i: int| 0 <= i < batches(n).len() implies 0 < (#[trigger] batches(n)[i]).1 - batches(n)[i].0 <= BATCH_SIZE by {
        assert(i * BATCH_SIZE < n) by (nonlinear_arith)
            requires
                0 <= i < c,
                c * BATCH_SIZE < n + BATCH_SIZE,
                BATCH_SIZE == 40,
        ;
    }
    assert forall|i: int| 0 < i < batches(n).len() implies (#[trigger] batches(n)[i]).0 == batches(n)[i - 1].1 by {
        assert((i - 1) * BATCH_SIZE + BATCH_SIZE <= n) by (nonlinear_arith)
            requires
                0 < i < c,
                n <= c * BATCH_SIZE,
                c * BATCH_SIZE < n + BATCH_SIZE,
                BATCH_SIZE == 40,
        ;
    }
    if n > 0 {
        assert(c > 0);
        assert((c - 1) * BATCH_SIZE + BATCH_SIZE >= n) by (nonlinear_arith)
            requires
                n <= c * BATCH_SIZE,
                BATCH_SIZE == 40,
        ;
    }
}

/// The batches of `n` items, as `[start, end)` ranges.
pub fn batch_bounds(n: usize) -> (r: Vec<(usize, usize)>)
    ensures
        r@.len() == batches(n as nat).len(),
        forall|i: int| 0 <= i < r@.len() ==> (#[trigger] r@[i].0 as int, r@[i].1 as int) == batches(n as nat)[i],
{
    let mut r: Vec<(usize, usize)> = Vec::new();
    let mut start: usize = 0;
    while start < n
        invariant
            start == r@.len() * BATCH_SIZE || start == n,
            start <= n,
            start < n ==> start == r@.len() * BATCH_SIZE,
            r@.len() * BATCH_SIZE <= n + BATCH_SIZE - 1,
            start == n ==> r@.len() == batches(n as nat).len(),
            r@.len() <= batches(n as nat).len(),
            forall|i: int| 0 <= i < r@.len() ==> (#[trigger] r@[i].0 as int, r@[i].1 as int) == batches(n as nat)[i],
        decreases n - start,
    {
        let k = r.len();
        let end = if n - start > BATCH_SIZE { start + BATCH_SIZE } else { n };
        proof {
            assert(((n + BATCH_SIZE - 1) / BATCH_SIZE as int) > k) by (nonlinear_arith)
                requires
                    start == k * BATCH_SIZE,
                    start < n,
                    BATCH_SIZE == 40,
            ;
            if end == n {
                assert(((n + BATCH_SIZE - 1) / BATCH_SIZE as int) == k + 1) by (nonlinear_arith)
                    requires
                        start == k * BATCH_SIZE,
                        start < n,
                        n <= start + BATCH_SIZE,
                        BATCH_SIZE == 40,
                ;
            }
        }
        r.push((start, end));
        assert(r@[k as int] == (start, end));
        start = end;
    }
    proof {
        if n == 0 {
            assert(batches(n as nat).len() == 0);
        }
    }
    r
}

/// Adds the outcome of one batch: its categories when it was answered; a
/// failed batch is skipped and changes nothing.
pub fn merge_batch_outcome(
    all: &mut KeyedStore<String>,
    seen: &mut Vec<String>,
    outcome: &Result<KeyedStore<String>, AppError>,
)
    ensures
        match outcome {
            Ok(batch) => {
                &&& text_map(final(all)@) == text_map(old(all)@).union_prefer_right(text_map(batch@))
                &&& views(final(seen)@).take(old(seen)@.len() as int) == views(old(seen)@)
                &&& forall|c: Seq<char>| #[trigger] views(final(seen)@).contains(c) <==> (views(old(seen)@).contains(c)
                    || exists|k: Seq<char>| text_map(batch@).contains_key(k) && text_map(batch@)[k] == c)
            },
            Err(_) => final(all)@ == old(all)@ && final(seen)@ == old(seen)@,
        },
{
    match outcome {
        Ok(batch) => merge_batch(all, seen, batch),
        Err(_) => {},
    }
}

/// A deal with its category replaced by the one found for its name, if any.
pub open spec fn categorized_deal(
    t: (Seq<char>, Option<Seq<char>>, Seq<char>, Seq<char>, Option<Seq<char>>),
    categories: Map<Seq<char>, Seq<char>>,
) -> (Seq<char>, Option<Seq<char>>, Seq<char>, Seq<char>, Option<Seq<char>>) {
    if categories.contains_key(t.0) {
        (t.0, t.1, t.2, categories[t.0], t.4)
    } else {
        t
    }
}

/// The deals with their categories applied, leaving out those categorized `not_food`.
pub open spec fn categorized_deals(
    deals: Seq<(Seq<char>, Option<Seq<char>>, Seq<char>, Seq<char>, Option<Seq<char>>)>,
    categories: Map<Seq<char>, Seq<char>>,
) -> Seq<(Seq<char>, Option<Seq<char>>, Seq<char>, Seq<char>, Option<Seq<char>>)>
    decreases deals.len(),
{
    if deals.len() == 0 {
        Seq::empty()
    } else {
        let prev = categorized_deals(deals.drop_last(), categories);
        let d = categorized_deal(deals.last(), categories);
        if d.3 == "not_food"@ {
            prev
        } else {
            prev.push(d)
        }
    }
}

/// Categorizing keeps exactly the food deals: no deal that comes out is
/// categorized `not_food`, and none carries a name that the categories call
/// `not_food`; each deal that comes out is an input deal with its name, brand,
/// deal text and image unchanged and its category replaced by the one found
/// for its name (kept when none was found); and every input deal whose
/// category, so replaced, is not `not_food` comes out, in input order.
pub proof fn lemma_categorized_deals_keep_food(deals: Seq<DealView>, categories: Map<Seq<char>, Seq<char>>)
    ensures
        categorized_deals(deals, categories).len() <= deals.len(),
        forall|i: int| 0 <= i < categorized_deals(deals, categories).len()
            ==> (#[trigger] categorized_deals(deals, categories)[i]).3 != "not_food"@,
        forall|i: int| 0 <= i < categorized_deals(deals, categories).len()
            && categories.contains_key((#[trigger] categorized_deals(deals, categories)[i]).0)
            ==> categories[categorized_deals(deals, categories)[i].0] == categorized_deals(deals, categories)[i].3
                && categories[categorized_deals(deals, categories)[i].0] != "not_food"@,
        forall|i: int| 0 <= i < categorized_deals(deals, categories).len() ==> exists|j: int| {
            &&& 0 <= j < deals.len()
            &&& (#[trigger] categorized_deals(deals, categories)[i]).0 == (#[trigger] deals[j]).0
            &&& categorized_deals(deals, categories)[i].1 == deals[j].1
            &&& categorized_deals(deals, categories)[i].2 == deals[j].2
            &&& categorized_deals(deals, categories)[i].4 == deals[j].4
            &&& !categories.contains_key(deals[j].0) ==> categorized_deals(deals, categories)[i].3 == deals[j].3
        },
        forall|j: int| 0 <= j < deals.len() && (if categories.contains_key((#[trigger] deals[j]).0) {
            categories[deals[j].0]
        } else {
            deals[j].3
        }) != "not_food"@ ==> exists|i: int| 0 <= i < categorized_deals(deals, categories).len()
            && #[trigger] categorized_deals(deals, categories)[i] == (
                deals[j].0,
                deals[j].1,
                deals[j].2,
                if categories.contains_key(deals[j].0) { categories[deals[j].0] } else { deals[j].3 },
                deals[j].4,
            ),
    decreases deals.len(),
{
    if deals.len() > 0 {
        let init = deals.drop_last();
        lemma_categorized_deals_keep_food(init, categories);
        let r = categorized_deals(deals, categories);
        let p = categorized_deals(init, categories);
        let last = deals.len() - 1;
        assert(deals[last] == deals.last());
        assert forall|i: int| 0 <= i < r.len() implies exists|j: int| {
            &&& 0 <= j < deals.len()
            &&& (#[trigger] r[i]).0 == (#[trigger] deals[j]).0
            &&& r[i].1 == deals[j].1
            &&& r[i].2 == deals[j].2
            &&& r[i].4 == deals[j].4
            &&& !categories.contains_key(deals[j].0) ==> r[i].3 == deals[j].3
        } by {
            if i < p.len() {
                assert(r[i] == p[i]);
                let j = choose|j: int| {
                    &&& 0 <= j < init.len()
                    &&& (#[trigger] p[i]).0 == (#[trigger] init[j]).0
                    &&& p[i].1 == init[j].1
                    &&& p[i].2 == init[j].2
                    &&& p[i].4 == init[j].4
                    &&& !categories.contains_key(init[j].0) ==> p[i].3 == init[j].3
                };
                assert(init[j] == deals[j]);
            } else {
                assert(r[i].0 == deals[last].0);
            }
        }
        assert forall|j: int| 0 <= j < deals.len() && (if categories.contains_key((#[trigger] deals[j]).0) {
            categories[deals[j].0]
        } else {
            deals[j].3
        }) != "not_food"@ implies exists|i: int| 0 <= i < r.len()
            && #[trigger] r[i] == (
                deals[j].0,
                deals[j].1,
                deals[j].2,
                if categories.contains_key(deals[j].0) { categories[deals[j].0] } else { deals[j].3 },
                deals[j].4,
            ) by {
            if j < last {
                assert(init[j] == deals[j]);
                let i = choose|i: int| 0 <= i < p.len()
                    && #[trigger] p[i] == (
                        init[j].0,
                        init[j].1,
                        init[j].2,
                        if categories.contains_key(init[j].0) { categories[init[j].0] } else { init[j].3 },
                        init[j].4,
                    );
                assert(r[i] == p[i]);
            } else {
                assert(r[r.len() - 1] == categorized_deal(deals[last], categories));
            }
        }
    }
}

/// Categorizing goes deal by deal, in order: the deals of two lists put
/// together come out as those of the first followed by those of the second,
/// and a single deal comes out, with the category found for its name (its
/// own when none was found), exactly when that category is not `not_food`.
pub proof fn lemma_categorized_deals_in_order(a: Seq<DealView>, b: Seq<DealView>, d: DealView, categories: Map<Seq<char>, Seq<char>>)
    ensures
        categorized_deals(a + b, categories) == categorized_deals(a, categories) + categorized_deals(b, categories),
        categorized_deals(seq![d], categories) == if (if categories.contains_key(d.0) { categories[d.0] } else { d.3 }) == "not_food"@ {
            Seq::<DealView>::empty()
        } else {
            seq![(d.0, d.1, d.2, if categories.contains_key(d.0) { categories[d.0] } else { d.3 }, d.4)]
        },
    decreases b.len(),
{
    assert(seq![d].drop_last() =~= Seq::<DealView>::empty());
    assert(categorized_deals(seq![d].drop_last(), categories) =~= Seq::<DealView>::empty());
    assert(seq![d].last() == d);
    assert(categorized_deals(seq![d], categories) =~= if (if categories.contains_key(d.0) { categories[d.0] } else { d.3 }) == "not_food"@ {
        Seq::<DealView>::empty()
    } else {
        seq![(d.0, d.1, d.2, if categories.contains_key(d.0) { categories[d.0] } else { d.3 }, d.4)]
    });
    if b.len() == 0 {
        assert(a + b =~= a);
        assert(categorized_deals(a, categories) + categorized_deals(b, categories) =~= categorized_deals(a, categories));
    } else {
        lemma_categorized_deals_in_order(a, b.drop_last(), d, categories);
        assert((a + b).drop_last() =~= a + b.drop_last());
        assert((a + b).last() == b.last());
        let ca = categorized_deals(a, categories);
        let cb = categorized_deals(b.drop_last(), categories);
        let x = categorized_deal(b.last(), categories);
        assert((ca + cb).push(x) =~= ca + cb.push(x));
    }
}

/// Applies the categories found for the deals' names and drops non-food deals.
pub fn apply_categories(deals: &mut Vec<DealTuple>, categories: &KeyedStore<String>)
    ensures
        tuple_views(final(deals)@) == categorized_deals(tuple_views(old(deals)@), text_map(categories@)),
        tuple_views(final(deals)@).len() <= tuple_views(old(deals)@).len(),
        forall|i: int| 0 <= i < tuple_views(final(deals)@).len()
            ==> (#[trigger] tuple_views(final(deals)@)[i]).3 != "not_food"@,
        forall|i: int| 0 <= i < tuple_views(final(deals)@).len()
            && text_map(categories@).contains_key((#[trigger] tuple_views(final(deals)@)[i]).0)
            ==> text_map(categories@)[tuple_views(final(deals)@)[i].0] == tuple_views(final(deals)@)[i].3
                && text_map(categories@)[tuple_views(final(deals)@)[i].0] != "not_food"@,
        forall|i: int| 0 <= i < tuple_views(final(deals)@).len() ==> exists|j: int| {
            &&& 0 <= j < tuple_views(old(deals)@).len()
            &&& (#[trigger] tuple_views(final(deals)@)[i]).0 == (#[trigger] tuple_views(old(deals)@)[j]).0
            &&& tuple_views(final(deals)@)[i].1 == tuple_views(old(deals)@)[j].1
            &&& tuple_views(final(deals)@)[i].2 == tuple_views(old(deals)@)[j].2
            &&& tuple_views(final(deals)@)[i].4 == tuple_views(old(deals)@)[j].4
            &&& !text_map(categories@).contains_key(tuple_views(old(deals)@)[j].0) ==> tuple_views(final(deals)@)[i].3 == tuple_views(old(deals)@)[j].3
        },
        forall|j: int| 0 <= j < tuple_views(old(deals)@).len() && (if text_map(categories@).contains_key((#[trigger] tuple_views(old(deals)@)[j]).0) {
            text_map(categories@)[tuple_views(old(deals)@)[j].0]
        } else {
            tuple_views(old(deals)@)[j].3
        }) != "not_food"@ ==> exists|i: int| 0 <= i < tuple_views(final(deals)@).len()
            && #[trigger] tuple_views(final(deals)@)[i] == (
                tuple_views(old(deals)@)[j].0,
                tuple_views(old(deals)@)[j].1,
                tuple_views(old(deals)@)[j].2,
                if text_map(categories@).contains_key(tuple_views(old(deals)@)[j].0) { text_map(categories@)[tuple_views(old(deals)@)[j].0] } else { tuple_views(old(deals)@)[j].3 },
                tuple_views(old(deals)@)[j].4,
            ),
{
    let ghost input = tuple_views(deals@);
    let mut taken: Vec<DealTuple> = Vec::new();
    std::mem::swap(&mut taken, deals);
    let kept = categorized_list(taken, categories);
    *deals = kept;
    proof {
        lemma_categorized_deals_keep_food(input, text_map(categories@));
    }
}

fn categorized_list(taken: Vec<DealTuple>, categories: &KeyedStore<String>) -> (r: Vec<DealTuple>)
    ensures
        tuple_views(r@) == categorized_deals(tuple_views(taken@), text_map(categories@)),
{
    let ghost input = tuple_views(taken@);
    let ghost cats = text_map(categories@);
    let n = taken.len();
    let mut kept: Vec<DealTuple> = Vec::new();
    let mut i: usize = 0;
    while i < n
        invariant
            i <= n == taken@.len(),
            tuple_views(taken@) == input,
            cats == text_map(categories@),
            tuple_views(kept@) == categorized_deals(input.take(i as int), cats),
        decreases n - i,
    {
        let d = &taken[i];
        let category = match categories.get(d.0.as_str()) {
            Some(c) => c.clone(),
            None => d.3.clone(),
        };
        let keep = !str_eq(category.as_str(), "not_food");
        proof {
            assert(input.take(i + 1).drop_last() =~= input.take(i as int));
            assert(input[i as int] == tuple_view(taken@[i as int]));
        }
        if keep {
            let t: DealTuple = (
                d.0.clone(),
                crate::text::clone_opt(&d.1),
                d.2.clone(),
                category,
                crate::text::clone_opt(&d.4),
            );
            kept.push(t);
            assert(tuple_views(kept@) =~= tuple_views(kept@.drop_last()).push(tuple_view(kept@.last())));
        }
        i += 1;
    }
    assert(input.take(n as int) =~= input);
    kept
}


} // verus!
