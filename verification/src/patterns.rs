//! Regular-expression searches over page text, made with the `regex` crate.

use vstd::prelude::*;
use crate::models::{collect_some, lemma_collect_some_push};
use crate::text::opt_view;

verus! {

/// What `Regex::new(pattern)?.captures(text)` yields for its first group, or
/// nothing when the pattern does not compile or does not match.
pub uninterp spec fn first_capture_of(pattern: Seq<char>, text: Seq<char>) -> Option<Seq<char>>;

/// The first group of each non-overlapping match, in order, as `captures_iter`
/// yields the matches: nothing for a match whose group did not take part.
pub uninterp spec fn capture_groups_of(pattern: Seq<char>, text: Seq<char>) -> Seq<Option<Seq<char>>>;

/// The first groups that took part, of all non-overlapping matches, in order.
pub open spec fn all_captures_of(pattern: Seq<char>, text: Seq<char>) -> Seq<Seq<char>> {
    collect_some(capture_groups_of(pattern, text))
}

/// The text of the leftmost match, as `Regex::find` yields it.
pub uninterp spec fn first_match_of(pattern: Seq<char>, text: Seq<char>) -> Option<Seq<char>>;

/// Calls `Regex::captures` with a regex compiled from `pattern` and returns its
/// first group; named `first_capture_of` the pattern and text.
#[verifier::external_body]
pub(crate) fn regex_first_capture(pattern: &str, text: &str) -> (r: Option<String>)
    ensures
        match r {
            Some(s) => first_capture_of(pattern@, text@) == Some(s@),
            None => first_capture_of(pattern@, text@) is None,
        },
{
    let re = regex::Regex::new(pattern).ok()?;
    re.captures(text).and_then(|capture| capture.get(1)).map(|m| m.as_str().to_string())
}

/// Calls `Regex::captures_iter` with a regex compiled from `pattern` and
/// returns the first group of each match, in order; named `capture_groups_of`.
#[verifier::external_body]
fn regex_capture_groups(pattern: &str, text: &str) -> (r: Vec<Option<String>>)
    ensures
        r@.map_values(|g: Option<String>| opt_view(g)) == capture_groups_of(pattern@, text@),
{
    match regex::Regex::new(pattern) {
        Ok(re) => re.captures_iter(text).map(|capture| capture.get(1).map(|m| m.as_str().to_string())).collect(),
        Err(_) => Vec::new(),
    }
}

/// The first group of every match that has one, in order.
pub(crate) fn regex_all_captures(pattern: &str, text: &str) -> (r: Vec<String>)
    ensures
        r@.map_values(|s: String| s@) == all_captures_of(pattern@, text@),
{
    let groups = regex_capture_groups(pattern, text);
    let ghost gs = groups@.map_values(|g: Option<String>| opt_view(g));
    let mut r: Vec<String> = Vec::new();
    let mut i: usize = 0;
    while i < groups.len()
        invariant
            i <= groups@.len(),
            gs == groups@.map_values(|g: Option<String>| opt_view(g)),
            r@.map_values(|s: String| s@) == collect_some(gs.take(i as int)),
        decreases groups@.len() - i,
    {
        proof {
            assert(gs.take(i + 1) =~= gs.take(i as int).push(gs[i as int]));
            lemma_collect_some_push(gs.take(i as int), gs[i as int]);
        }
        match &groups[i] {
            Some(g) => {
                let ghost before = r@.map_values(|s: String| s@);
                r.push(g.clone());
                assert(r@.map_values(|s: String| s@) =~= before.push(g@));
            },
            None => {},
        }
        i += 1;
    }
    assert(gs.take(groups@.len() as int) =~= gs);
    r
}

/// Calls `Regex::find` with a regex compiled from `pattern` and returns the
/// matched text; named `first_match_of`.
#[verifier::external_body]
pub(crate) fn regex_find(pattern: &str, text: &str) -> (r: Option<String>)
    ensures
        match r {
            Some(s) => first_match_of(pattern@, text@) == Some(s@),
            None => first_match_of(pattern@, text@) is None,
        },
{
    let re = regex::Regex::new(pattern).ok()?;
    re.find(text).map(|m| m.as_str().to_string())
}

} // verus!
