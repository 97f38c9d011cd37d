//! The fingerprint of a set of deals: a hash of the sorted `(item, description)`
//! pairs, used to tell whether cached meal ideas still match the deals.

use std::collections::hash_map::DefaultHasher;
use std::hash::Hasher;
use vstd::std_specs::hash::DefaultHasherAdditionalSpecFns;
use vstd::utf8::encode_utf8;
use vstd::prelude::*;
use vstd::relations::*;
use crate::models::Deal;
use crate::text::{
    chars_of, hex16, hex_char, hex_digits, lemma_lex_antisym, lemma_lex_refl, lemma_lex_total,
    lemma_lex_trans, lex_le, lex_le_exec, string_of,
};

verus! {

/// Order on `(item_name, deal_description)` pairs, as the tuple's `Ord` compares.
pub open spec fn pair_le(p: (Seq<char>, Seq<char>), q: (Seq<char>, Seq<char>)) -> bool {
    if p.0 == q.0 {
        lex_le(p.1, q.1)
    } else {
        lex_le(p.0, q.0)
    }
}

/// The pair order as a relation, for sorting.
pub open spec fn pair_leq() -> spec_fn((Seq<char>, Seq<char>), (Seq<char>, Seq<char>)) -> bool {
    |p: (Seq<char>, Seq<char>), q: (Seq<char>, Seq<char>)| pair_le(p, q)
}

/// The pair order is a total order, so a sorted arrangement of pairs is unique.
pub proof fn lemma_pair_total_ordering()
    ensures
        total_ordering(pair_leq()),
{
    assert forall|p: (Seq<char>, Seq<char>)| #[trigger] pair_leq()(p, p) by {
        lemma_lex_refl(p.1);
    }
    assert forall|p: (Seq<char>, Seq<char>), q: (Seq<char>, Seq<char>)|
        #[trigger] pair_leq()(p, q) && #[trigger] pair_leq()(q, p) implies p == q by {
        if p.0 == q.0 {
            lemma_lex_antisym(p.1, q.1);
        } else {
            lemma_lex_antisym(p.0, q.0);
        }
    }
    assert forall|p: (Seq<char>, Seq<char>), q: (Seq<char>, Seq<char>), r: (Seq<char>, Seq<char>)|
        #[trigger] pair_leq()(p, q) && #[trigger] pair_leq()(q, r) implies pair_leq()(p, r) by {
        if p.0 == q.0 && q.0 == r.0 {
            lemma_lex_trans(p.1, q.1, r.1);
        } else if p.0 == q.0 || q.0 == r.0 {
        } else {
            lemma_lex_trans(p.0, q.0, r.0);
            if p.0 == r.0 {
                lemma_lex_antisym(p.0, q.0);
            }
        }
    }
    assert forall|p: (Seq<char>, Seq<char>), q: (Seq<char>, Seq<char>)|
        #[trigger] pair_leq()(p, q) || #[trigger] pair_leq()(q, p) by {
        if p.0 == q.0 {
            lemma_lex_total(p.1, q.1);
        } else {
            lemma_lex_total(p.0, q.0);
        }
    }
}

/// The `(item_name, deal_description)` pair of each deal.
pub open spec fn deal_pairs(deals: Seq<Deal>) -> Seq<(Seq<char>, Seq<char>)> {
    deals.map_values(|d: Deal| (d.item_name@, d.deal_description@))
}

/// The writes made into the hasher for sorted pairs: each name's UTF-8 bytes
/// then `0xff`, then the description's the same way (how `str` feeds a hasher).
pub open spec fn hasher_writes(ps: Seq<(Seq<char>, Seq<char>)>) -> Seq<Seq<u8>>
    decreases ps.len(),
{
    if ps.len() == 0 {
        Seq::empty()
    } else {
        hasher_writes(ps.drop_last())
            .push(encode_utf8(ps.last().0))
            .push(seq![0xffu8])
            .push(encode_utf8(ps.last().1))
            .push(seq![0xffu8])
    }
}

/// Feeds a string into the hasher as `<str as Hash>::hash` does.
fn write_str_into(h: &mut DefaultHasher, s: &str)
    ensures
        final(h)@ == old(h)@.push(encode_utf8(s@)).push(seq![0xffu8]),
{
    h.write(s.as_bytes());
    let terminator: [u8; 1] = [0xff];
    h.write(&terminator);
    assert(terminator@ =~= seq![0xffu8]);
}

/// The hash of a set of deals: 16 lower-case hex digits of the digest of the
/// sorted `(item_name, deal_description)` pairs.
pub open spec fn deals_hash_spec(deals: Seq<Deal>) -> Seq<char> {
    hex_digits(DefaultHasher::spec_finish(hasher_writes(deal_pairs(deals).sort_by(pair_leq()))) as nat, 16)
}

/// The sort keys as character sequences.
pub open spec fn key_views(keys: Seq<(Vec<char>, Vec<char>)>) -> Seq<(Seq<char>, Seq<char>)> {
    keys.map_values(|k: (Vec<char>, Vec<char>)| (k.0@, k.1@))
}

fn pair_le_exec(p: &(Vec<char>, Vec<char>), q: &(Vec<char>, Vec<char>)) -> (r: bool)
    ensures
        r == pair_le((p.0@, p.1@), (q.0@, q.1@)),
{
    let eq_first = lex_le_exec(p.0.as_slice(), q.0.as_slice()) && lex_le_exec(q.0.as_slice(), p.0.as_slice());
    proof {
        if eq_first {
            lemma_lex_antisym(p.0@, q.0@);
        }
        if p.0@ == q.0@ {
            lemma_lex_refl(p.0@);
        }
    }
    if eq_first {
        lex_le_exec(p.1.as_slice(), q.1.as_slice())
    } else {
        lex_le_exec(p.0.as_slice(), q.0.as_slice())
    }
}

/// Inserts `k` into the sorted `v` after every pair not greater than it.
fn insert_sorted(v: &mut Vec<(Vec<char>, Vec<char>)>, k: (Vec<char>, Vec<char>))
    requires
        sorted_by(key_views(old(v)@), pair_leq()),
    ensures
        sorted_by(key_views(final(v)@), pair_leq()),
        key_views(final(v)@).to_multiset() == key_views(old(v)@).to_multiset().insert((k.0@, k.1@)),
{
    proof {
        lemma_pair_total_ordering();
    }
    let ghost kv = (k.0@, k.1@);
    let ghost old_views = key_views(v@);
    let mut p: usize = 0;
    while p < v.len() && pair_le_exec(&v[p], &k)
        invariant
            kv == (k.0@, k.1@),
            p <= v.len(),
            key_views(v@) == old_views,
            sorted_by(old_views, pair_leq()),
            total_ordering(pair_leq()),
            forall|j: int| 0 <= j < p ==> pair_leq()(#[trigger] old_views[j], kv),
        decreases v.len() - p,
    {
        assert(old_views[p as int] == (v@[p as int].0@, v@[p as int].1@));
        assert(pair_le(old_views[p as int], kv));
        assert(pair_leq()(old_views[p as int], kv));
        p += 1;
    }
    if p < v.len() {
        assert(!pair_leq()(old_views[p as int], kv));
        assert(pair_leq()(kv, old_views[p as int]));
    }
    v.insert(p, k);
    proof {
        let nv = key_views(v@);
        assert(nv =~= old_views.insert(p as int, kv));
        assert forall|i: int, j: int| 0 <= i < j < nv.len() implies #[trigger] pair_leq()(nv[i], nv[j]) by {
            if j < p {
            } else if i < p && j == p {
            } else if i < p {
                assert(nv[j] == old_views[j - 1]);
            } else if i == p {
                assert(nv[j] == old_views[j - 1]);
                assert(pair_leq()(old_views[p as int], old_views[j - 1]) || j - 1 == p);
            } else {
                assert(nv[i] == old_views[i - 1]);
                assert(nv[j] == old_views[j - 1]);
            }
        }
        old_views.to_multiset_ensures();
        vstd::seq_lib::to_multiset_insert(old_views, p as int, kv);
    }
}

/// The `(item_name, deal_description)` pairs of the deals, sorted.
fn sorted_deal_keys(deals: &[Deal]) -> (r: Vec<(Vec<char>, Vec<char>)>)
    ensures
        key_views(r@) == deal_pairs(deals@).sort_by(pair_leq()),
{
    proof {
        lemma_pair_total_ordering();
    }
    let mut sorted: Vec<(Vec<char>, Vec<char>)> = Vec::new();
    let mut i: usize = 0;
    assert(key_views(sorted@) =~= Seq::empty());
    assert(deal_pairs(deals@).take(0) =~= Seq::empty());
    while i < deals.len()
        invariant
            i <= deals.len(),
            sorted_by(key_views(sorted@), pair_leq()),
            key_views(sorted@).to_multiset() == deal_pairs(deals@).take(i as int).to_multiset(),
        decreases deals.len() - i,
    {
        let name = chars_of(deals[i].item_name.as_str());
        let description = chars_of(deals[i].deal_description.as_str());
        insert_sorted(&mut sorted, (name, description));
        proof {
            let ps = deal_pairs(deals@);
            assert(ps.take(i + 1) =~= ps.take(i as int).push(ps[i as int]));
            ps.take(i as int).to_multiset_ensures();
        }
        i += 1;
    }
    proof {
        let ps = deal_pairs(deals@);
        assert(ps.take(deals.len() as int) =~= ps);
        ps.lemma_sort_by_ensures(pair_leq());
        vstd::seq_lib::lemma_sorted_unique(key_views(sorted@), ps.sort_by(pair_leq()), pair_leq());
    }
    sorted
}

/// A fingerprint of the deals that does not depend on their order: 16 hex digits
/// of the hash of the sorted `(item_name, deal_description)` pairs.
pub fn compute_deals_hash(deals: &[Deal]) -> (r: String)
    ensures
        r@ == deals_hash_spec(deals@),
        r@.len() == 16,
{
    let sorted = sorted_deal_keys(deals);
    let mut hasher = DefaultHasher::new();
    let mut i: usize = 0;
    while i < sorted.len()
        invariant
            i <= sorted.len(),
            hasher@ == hasher_writes(key_views(sorted@).take(i as int)),
        decreases sorted.len() - i,
    {
        let name = string_of(sorted[i].0.as_slice());
        let description = string_of(sorted[i].1.as_slice());
        write_str_into(&mut hasher, name.as_str());
        write_str_into(&mut hasher, description.as_str());
        proof {
            let kv = key_views(sorted@);
            assert(kv.take(i + 1).drop_last() =~= kv.take(i as int));
        }
        i += 1;
    }
    proof {
        assert(key_views(sorted@).take(sorted.len() as int) =~= key_views(sorted@));
    }
    let digest = hasher.finish();
    hex16(digest)
}

/// Order independence: deals holding the same `(item_name, deal_description)`
/// pairs, counted with multiplicity, hash alike whatever their order.
pub proof fn lemma_deals_hash_order_independent(a: Seq<Deal>, b: Seq<Deal>)
    requires
        deal_pairs(a).to_multiset() == deal_pairs(b).to_multiset(),
    ensures
        deals_hash_spec(a) == deals_hash_spec(b),
{
    lemma_pair_total_ordering();
    deal_pairs(a).lemma_sort_by_ensures(pair_leq());
    deal_pairs(b).lemma_sort_by_ensures(pair_leq());
    vstd::seq_lib::lemma_sorted_unique(
        deal_pairs(a).sort_by(pair_leq()),
        deal_pairs(b).sort_by(pair_leq()),
        pair_leq(),
    );
}

/// A deals hash is always 16 lower-case hexadecimal digits.
pub proof fn lemma_deals_hash_shape(deals: Seq<Deal>)
    ensures
        deals_hash_spec(deals).len() == 16,
        forall|i: int| 0 <= i < 16 ==> is_lower_hex(#[trigger] deals_hash_spec(deals)[i]),
{
    lemma_hex_digits_shape(DefaultHasher::spec_finish(hasher_writes(deal_pairs(deals).sort_by(pair_leq()))) as nat, 16);
}

/// A lower-case hexadecimal digit.
pub open spec fn is_lower_hex(c: char) -> bool {
    ('0' <= c && c <= '9') || ('a' <= c && c <= 'f')
}

/// Hex digits come out as `n` lower-case hexadecimal characters.
pub proof fn lemma_hex_digits_shape(x: nat, n: nat)
    ensures
        hex_digits(x, n).len() == n,
        forall|i: int| 0 <= i < n ==> is_lower_hex(#[trigger] hex_digits(x, n)[i]),
    decreases n,
{
    if n > 0 {
        lemma_hex_digits_shape(x / 16, (n - 1) as nat);
        let d = x % 16;
        assert(is_lower_hex(hex_char(d))) by {
            if d < 10 {
                assert(((d + 48) as u8) as char == ((d + 48) as u8) as char);
            }
        }
    }
}

} // verus!
