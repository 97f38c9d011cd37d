//! The decisions around the stored deals: which are current, which expired.

use vstd::prelude::*;
use crate::calendar::{date_of, date_text, plausible_now, utc_now, UtcNow};
use crate::models::Deal;
use crate::text::{
    chars_of, find_char, lemma_lex_antisym, lemma_lex_refl, lemma_lex_total, lemma_lex_trans, lex_le, lex_lt,
    slice_chars, string_of, str_lt,
};

verus! {

/// The date part of a `valid_to` timestamp: what precedes its first `T`.
pub open spec fn date_part(v: Seq<char>) -> Seq<char> {
    if exists|i: int| 0 <= i < v.len() && v[i] == 'T' {
        let i = choose|i: int| 0 <= i < v.len() && v[i] == 'T' && forall|k: int| 0 <= k < i ==> v[k] != 'T';
        v.subrange(0, i)
    } else {
        v
    }
}

/// A deal has expired on `today` when it has a `valid_to` whose date part sorts before `today`.
pub open spec fn deal_expired_on(d: Deal, today: Seq<char>) -> bool {
    match d.valid_to {
        Some(v) => lex_lt(date_part(v@), today),
        None => false,
    }
}

/// Deals are expired on `today` when there is at least one and every one has expired.
pub open spec fn deals_expired_on(deals: Seq<Deal>, today: Seq<char>) -> bool {
    deals.len() > 0 && forall|i: int| 0 <= i < deals.len() ==> deal_expired_on(#[trigger] deals[i], today)
}

/// The date part of a `valid_to` timestamp.
pub fn date_part_of(valid_to: &str) -> (r: String)
    ensures
        r@ == date_part(valid_to@),
{
    let v = chars_of(valid_to);
    match find_char(v.as_slice(), 'T') {
        Some(i) => {
            let p = slice_chars(v.as_slice(), 0, i);
            proof {
                let w = valid_to@;
                assert(exists|j: int| 0 <= j < w.len() && w[j] == 'T');
                let j = choose|j: int| 0 <= j < w.len() && w[j] == 'T' && forall|k: int| 0 <= k < j ==> w[k] != 'T';
                assert(j == i) by {
                    if j < i {
                        assert(w[j] != 'T');
                    } else if j > i {
                        assert(w[i as int] != 'T');
                    }
                }
            }
            string_of(p.as_slice())
        },
        None => {
            string_of(v.as_slice())
        },
    }
}

/// Whether every one of the (non-empty) deals has expired on `today` (a `%Y-%m-%d` date).
pub fn are_deals_expired_on(deals: &[Deal], today: &str) -> (r: bool)
    ensures
        r == deals_expired_on(deals@, today@),
{
    if deals.len() == 0 {
        return false;
    }
    let mut i: usize = 0;
    while i < deals.len()
        invariant
            i <= deals.len(),
            forall|k: int| 0 <= k < i ==> deal_expired_on(#[trigger] deals@[k], today@),
        decreases deals.len() - i,
    {
        let expired = match &deals[i].valid_to {
            Some(valid_to) => {
                let date = date_part_of(valid_to.as_str());
                str_lt(date.as_str(), today)
            },
            None => false,
        };
        if !expired {
            return false;
        }
        i += 1;
    }
    true
}

/// Whether all the deals have expired as of today's UTC date. Deals without a
/// `valid_to` never expire, and an empty list is not expired.
pub fn are_deals_expired(deals: &[Deal]) -> (r: bool)
    ensures
        exists|now: UtcNow| plausible_now(now) && r == deals_expired_on(deals@, date_text(now)),
        deals@.len() == 0 ==> !r,
        (exists|i: int| 0 <= i < deals@.len() && deals@[i].valid_to is None) ==> !r,
{
    let now = utc_now();
    let today = date_of(now);
    let r = are_deals_expired_on(deals, today.as_str());
    assert(plausible_now(now) && r == deals_expired_on(deals@, date_text(now)));
    r
}

/// The index of the most recently fetched deal: the first of those whose
/// `fetched_at` timestamp (`YYYY-MM-DD HH:MM:SS`, which sorts as time does)
/// sorts last.
pub open spec fn latest_index(deals: Seq<Deal>) -> int
    decreases deals.len(),
{
    if deals.len() <= 1 {
        0
    } else {
        let p = latest_index(deals.drop_last());
        if lex_lt(deals[p].fetched_at@, deals.last().fetched_at@) {
            deals.len() - 1
        } else {
            p
        }
    }
}

/// The most recently fetched deal is fetched no earlier than any other, and
/// strictly later than every deal before it.
pub proof fn lemma_latest_is_most_recent(deals: Seq<Deal>)
    requires
        deals.len() > 0,
    ensures
        0 <= latest_index(deals) < deals.len(),
        forall|j: int| 0 <= j < deals.len() ==> lex_le(#[trigger] deals[j].fetched_at@, deals[latest_index(deals)].fetched_at@),
        forall|j: int| 0 <= j < latest_index(deals) ==> lex_lt(#[trigger] deals[j].fetched_at@, deals[latest_index(deals)].fetched_at@),
    decreases deals.len(),
{
    if deals.len() == 1 {
        lemma_lex_refl(deals[0].fetched_at@);
    } else {
        let init = deals.drop_last();
        lemma_latest_is_most_recent(init);
        let p = latest_index(init);
        let last = deals.last().fetched_at@;
        let best = deals[p].fetched_at@;
        assert(init[p] == deals[p]);
        if lex_lt(best, last) {
            lemma_lex_refl(last);
            assert forall|j: int| 0 <= j < deals.len() implies lex_le(#[trigger] deals[j].fetched_at@, last) by {
                if j < deals.len() - 1 {
                    assert(init[j] == deals[j]);
                    lemma_lex_trans(deals[j].fetched_at@, best, last);
                }
            }
            assert forall|j: int| 0 <= j < deals.len() - 1 implies lex_lt(#[trigger] deals[j].fetched_at@, last) by {
                assert(init[j] == deals[j]);
                lemma_lex_trans(deals[j].fetched_at@, best, last);
                if deals[j].fetched_at@ == last {
                    lemma_lex_antisym(best, last);
                }
            }
        } else {
            lemma_lex_total(best, last);
            assert forall|j: int| 0 <= j < deals.len() implies lex_le(#[trigger] deals[j].fetched_at@, best) by {
                if j < deals.len() - 1 {
                    assert(init[j] == deals[j]);
                }
            }
            assert forall|j: int| 0 <= j < p implies lex_lt(#[trigger] deals[j].fetched_at@, best) by {
                assert(init[j] == deals[j]);
            }
        }
    }
}

/// The current deals of a location with the week id of the most recently
/// fetched one, or nothing when there are none.
pub fn current_deals_of(all_deals: Vec<Deal>) -> (r: Option<(Vec<Deal>, String)>)
    ensures
        all_deals@.len() == 0 <==> r is None,
        r matches Some(p) ==> p.0@ == all_deals@ && p.1@ == all_deals@[latest_index(all_deals@)].week_id@,
{
    if all_deals.len() == 0 {
        return None;
    }
    let mut best: usize = 0;
    let mut i: usize = 1;
    while i < all_deals.len()
        invariant
            1 <= i <= all_deals.len(),
            best == latest_index(all_deals@.take(i as int)),
            best < i,
        decreases all_deals.len() - i,
    {
        proof {
            let t = all_deals@.take(i + 1);
            assert(t.drop_last() =~= all_deals@.take(i as int));
            assert(t[best as int] == all_deals@[best as int]);
            assert(t.last() == all_deals@[i as int]);
        }
        if str_lt(all_deals[best].fetched_at.as_str(), all_deals[i].fetched_at.as_str()) {
            best = i;
        }
        i += 1;
    }
    assert(all_deals@.take(all_deals.len() as int) =~= all_deals@);
    let primary_week_id = all_deals[best].week_id.clone();
    Some((all_deals, primary_week_id))
}

/// Nothing for an empty list, the list otherwise.
pub fn some_if_nonempty(deals: Vec<Deal>) -> (r: Option<Vec<Deal>>)
    ensures
        deals@.len() == 0 <==> r is None,
        r matches Some(v) ==> v@ == deals@,
{
    if deals.len() == 0 {
        None
    } else {
        Some(deals)
    }
}

} // verus!
