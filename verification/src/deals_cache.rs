//! The in-memory cache of deals hashes, one per location and week.

use vstd::prelude::*;
use crate::deals_hash::{compute_deals_hash, deals_hash_spec};
use crate::keyed::KeyedStore;
use crate::models::Deal;
use crate::text::{decimal, digit_char, i64_to_string, signed_decimal};

verus! {

/// The cache key of a location and week: `{location_id}:{week_id}`.
pub open spec fn cache_key_text(location_id: i64, week_id: Seq<char>) -> Seq<char> {
    signed_decimal(location_id as int) + seq![':'] + week_id
}

/// The key under which a location's week is cached, `{location_id}:{week_id}`.
pub fn cache_key(location_id: i64, week_id: &str) -> (r: String)
    ensures
        r@ == cache_key_text(location_id, week_id@),
{
    let mut k = i64_to_string(location_id);
    k.push(':');
    k.append(week_id);
    assert(k@ =~= cache_key_text(location_id, week_id@));
    k
}

/// The key under which a location's deals fetch is tracked: `deals:{location_id}`.
pub open spec fn deals_fetch_key_text(location_id: i64) -> Seq<char> {
    "deals:"@ + signed_decimal(location_id as int)
}

/// The key under which a location's deal fetch is tracked while in flight.
pub fn deals_fetch_key(location_id: i64) -> (r: String)
    ensures
        r@ == deals_fetch_key_text(location_id),
{
    let mut k = "deals:".to_string();
    let n = i64_to_string(location_id);
    k.append(n.as_str());
    k
}

/// The decimal text of a number is one or more digits.
pub proof fn lemma_decimal_shape(n: nat)
    ensures
        decimal(n).len() >= 1,
        forall|i: int| 0 <= i < decimal(n).len() ==> '0' <= #[trigger] decimal(n)[i] <= '9',
    decreases n,
{
    if n >= 10 {
        lemma_decimal_shape(n / 10);
    }
}

/// Distinct digits are written as distinct characters.
pub proof fn lemma_digit_char_injective(a: nat, b: nat)
    requires
        a < 10,
        b < 10,
        digit_char(a) == digit_char(b),
    ensures
        a == b,
{
    assert(((a + 48) as u8) as char == ((b + 48) as u8) as char);
    assert((a + 48) as u8 == (b + 48) as u8);
}

/// Distinct numbers have distinct decimal texts.
pub proof fn lemma_decimal_injective(a: nat, b: nat)
    requires
        decimal(a) == decimal(b),
    ensures
        a == b,
    decreases a,
{
    lemma_decimal_shape(a / 10);
    lemma_decimal_shape(b / 10);
    if a < 10 && b < 10 {
        assert(decimal(a)[0] == digit_char(a));
        assert(decimal(b)[0] == digit_char(b));
        lemma_digit_char_injective(a, b);
    } else if a < 10 {
        assert(decimal(b).len() >= 2);
    } else if b < 10 {
        assert(decimal(a).len() >= 2);
    } else {
        assert(decimal(a).last() == digit_char(a % 10));
        assert(decimal(b).last() == digit_char(b % 10));
        lemma_digit_char_injective(a % 10, b % 10);
        assert(decimal(a).drop_last() == decimal(a / 10));
        assert(decimal(b).drop_last() == decimal(b / 10));
        lemma_decimal_injective(a / 10, b / 10);
    }
}

proof fn lemma_signed_decimal_no_colon(n: int)
    ensures
        forall|i: int| 0 <= i < signed_decimal(n).len() ==> #[trigger] signed_decimal(n)[i] != ':',
        signed_decimal(n).len() >= 1,
{
    if n < 0 {
        lemma_decimal_shape((-n) as nat);
        assert forall|i: int| 0 <= i < signed_decimal(n).len() implies #[trigger] signed_decimal(n)[i] != ':' by {
            if i > 0 {
                assert(signed_decimal(n)[i] == decimal((-n) as nat)[i - 1]);
            }
        }
    } else {
        lemma_decimal_shape(n as nat);
    }
}

/// Different locations or weeks never share a cache key.
pub proof fn lemma_cache_key_injective(l1: i64, w1: Seq<char>, l2: i64, w2: Seq<char>)
    requires
        cache_key_text(l1, w1) == cache_key_text(l2, w2),
    ensures
        l1 == l2,
        w1 == w2,
{
    let s1 = signed_decimal(l1 as int);
    let s2 = signed_decimal(l2 as int);
    let k = cache_key_text(l1, w1);
    lemma_signed_decimal_no_colon(l1 as int);
    lemma_signed_decimal_no_colon(l2 as int);
    assert(k[s1.len() as int] == ':');
    assert(cache_key_text(l2, w2)[s2.len() as int] == ':');
    if s1.len() < s2.len() {
        assert(k[s1.len() as int] == s2[s1.len() as int]);
    } else if s2.len() < s1.len() {
        assert(k[s2.len() as int] == s1[s2.len() as int]);
    }
    assert(s1 =~= k.subrange(0, s1.len() as int));
    assert(s2 =~= k.subrange(0, s2.len() as int));
    assert(w1 =~= k.subrange(s1.len() as int + 1, k.len() as int));
    assert(w2 =~= k.subrange(s2.len() as int + 1, k.len() as int));
    if l1 < 0 && l2 < 0 {
        assert(decimal((-l1) as nat) =~= s1.drop_first());
        assert(decimal((-l2) as nat) =~= s2.drop_first());
        lemma_decimal_injective((-l1) as nat, (-l2) as nat);
    } else if l1 >= 0 && l2 >= 0 {
        lemma_decimal_injective(l1 as nat, l2 as nat);
    } else if l1 < 0 {
        lemma_decimal_shape(l2 as nat);
        assert(s2[0] != '-');
    } else {
        lemma_decimal_shape(l1 as nat);
        assert(s1[0] != '-');
    }
}

/// The hash answered for key `k` when the cache holds `m`: the cached one, or
/// the hash of the given deals.
pub open spec fn resolved_hash(m: Map<Seq<char>, Seq<char>>, k: Seq<char>, deals: Seq<Deal>) -> Seq<char> {
    if m.contains_key(k) {
        m[k]
    } else {
        deals_hash_spec(deals)
    }
}

/// The cache after answering key `k`: unchanged when it held `k`, else holding the new hash.
pub open spec fn after_resolve(m: Map<Seq<char>, Seq<char>>, k: Seq<char>, deals: Seq<Deal>) -> Map<
    Seq<char>,
    Seq<char>,
> {
    if m.contains_key(k) {
        m
    } else {
        m.insert(k, deals_hash_spec(deals))
    }
}

/// Deals hashes by location and week, computed on first use.
pub struct DealsHashCache {
    hashes: KeyedStore<String>,
}

impl View for DealsHashCache {
    type V = Map<Seq<char>, Seq<char>>;

    closed spec fn view(&self) -> Map<Seq<char>, Seq<char>> {
        self.hashes@.map_values(|h: String| h@)
    }
}

impl DealsHashCache {
    /// An empty cache.
    pub fn new() -> (r: Self)
        ensures
            r@ == Map::<Seq<char>, Seq<char>>::empty(),
    {
        let r = DealsHashCache { hashes: KeyedStore::new() };
        assert(r@ =~= Map::<Seq<char>, Seq<char>>::empty());
        r
    }

    /// The cached deals hash of the location's week, or, when there is none,
    /// the hash of `deals`, which is then cached.
    pub fn resolve_deals_hash(&mut self, location_id: i64, week_id: &str, deals: &[Deal]) -> (r: String)
        ensures
            r@ == resolved_hash(old(self)@, cache_key_text(location_id, week_id@), deals@),
            final(self)@ == after_resolve(old(self)@, cache_key_text(location_id, week_id@), deals@),
    {
        let key = cache_key(location_id, week_id);
        match self.hashes.get(key.as_str()) {
            Some(hash) => {
                return hash.clone();
            },
            None => {},
        }
        let hash = compute_deals_hash(deals);
        let stored = hash.clone();
        let ghost k = key@;
        self.hashes.insert(key, stored);
        assert(self@ =~= old(self)@.insert(k, hash@));
        hash
    }

    /// Forgets the cached hash of the location's week.
    pub fn invalidate_deals_hash(&mut self, location_id: i64, week_id: &str)
        ensures
            final(self)@ == old(self)@.remove(cache_key_text(location_id, week_id@)),
    {
        let key = cache_key(location_id, week_id);
        self.hashes.remove(key.as_str());
        assert(self@ =~= old(self)@.remove(key@));
    }
}

/// Read after write: once a week is resolved, the cache holds the hash that was answered.
pub proof fn lemma_resolve_then_cached(m: Map<Seq<char>, Seq<char>>, k: Seq<char>, deals: Seq<Deal>)
    ensures
        after_resolve(m, k, deals).contains_key(k),
        after_resolve(m, k, deals)[k] == resolved_hash(m, k, deals),
{
}

/// A resolved hash sticks: resolving again answers the same hash, whatever deals are given.
pub proof fn lemma_resolve_sticky(
    m: Map<Seq<char>, Seq<char>>,
    k: Seq<char>,
    first: Seq<Deal>,
    second: Seq<Deal>,
)
    ensures
        resolved_hash(after_resolve(m, k, first), k, second) == resolved_hash(m, k, first),
        after_resolve(after_resolve(m, k, first), k, second) == after_resolve(m, k, first),
{
}

/// After invalidation, resolving recomputes the hash from the deals given.
pub proof fn lemma_invalidate_then_recompute(m: Map<Seq<char>, Seq<char>>, k: Seq<char>, deals: Seq<Deal>)
    ensures
        resolved_hash(m.remove(k), k, deals) == deals_hash_spec(deals),
{
}

/// Resolving or invalidating one key leaves every other key as it was.
pub proof fn lemma_other_keys_untouched(
    m: Map<Seq<char>, Seq<char>>,
    k: Seq<char>,
    other: Seq<char>,
    deals: Seq<Deal>,
)
    requires
        k != other,
    ensures
        after_resolve(m, k, deals).contains_key(other) == m.contains_key(other),
        m.contains_key(other) ==> after_resolve(m, k, deals)[other] == m[other],
        m.remove(k).contains_key(other) == m.contains_key(other),
        m.contains_key(other) ==> m.remove(k)[other] == m[other],
{
}

} // verus!
