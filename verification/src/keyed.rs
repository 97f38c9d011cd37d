//! A small map from strings to values, kept as a list of entries with distinct keys.

use vstd::prelude::*;

verus! {

/// Values stored under string keys; at most one entry per key.
pub struct KeyedStore<T> {
    entries: Vec<(String, T)>,
}

impl<T> View for KeyedStore<T> {
    type V = Map<Seq<char>, T>;

    closed spec fn view(&self) -> Map<Seq<char>, T> {
        Map::new(
            |k: Seq<char>| exists|i: int| 0 <= i < self.entries@.len() && self.entries@[i].0@ == k,
            |k: Seq<char>|
                self.entries@[choose|i: int|
                    0 <= i < self.entries@.len() && self.entries@[i].0@ == k].1,
        )
    }
}

impl<T> KeyedStore<T> {
    #[verifier::type_invariant]
    spec fn distinct_keys(self) -> bool {
        forall|i: int, j: int|
            0 <= i < j < self.entries@.len() ==> self.entries@[i].0@ != self.entries@[j].0@
    }

    proof fn lemma_entry_is_value(&self, i: int)
        requires
            0 <= i < self.entries@.len(),
            self.distinct_keys(),
        ensures
            self@.contains_key(self.entries@[i].0@),
            self@[self.entries@[i].0@] == self.entries@[i].1,
    {
        let k = self.entries@[i].0@;
        assert(exists|j: int| 0 <= j < self.entries@.len() && self.entries@[j].0@ == k);
        let j = choose|j: int| 0 <= j < self.entries@.len() && self.entries@[j].0@ == k;
        if j != i {
            if j < i {
                assert(self.entries@[j].0@ != self.entries@[i].0@);
            } else {
                assert(self.entries@[i].0@ != self.entries@[j].0@);
            }
        }
    }

    /// An empty store.
    pub fn new() -> (r: Self)
        ensures
            r@ == Map::<Seq<char>, T>::empty(),
    {
        let r = KeyedStore { entries: Vec::new() };
        assert(r@ =~= Map::<Seq<char>, T>::empty());
        r
    }

    fn position(&self, key: &str) -> (r: Option<usize>)
        ensures
            match r {
                Some(i) => i < self.entries@.len() && self.entries@[i as int].0@ == key@,
                None => forall|i: int| 0 <= i < self.entries@.len() ==> self.entries@[i].0@ != key@,
            },
    {
        let mut i: usize = 0;
        while i < self.entries.len()
            invariant
                i <= self.entries@.len(),
                forall|k: int| 0 <= k < i ==> self.entries@[k].0@ != key@,
            decreases self.entries@.len() - i,
        {
            if crate::text::str_eq(self.entries[i].0.as_str(), key) {
                return Some(i);
            }
            i += 1;
        }
        None
    }

    /// The value stored under `key`, if any.
    pub fn get(&self, key: &str) -> (r: Option<&T>)
        ensures
            r is Some <==> self@.contains_key(key@),
            r matches Some(v) ==> *v == self@[key@],
    {
        proof {
            use_type_invariant(self);
        }
        match self.position(key) {
            Some(i) => {
                proof {
                    self.lemma_entry_is_value(i as int);
                }
                Some(&self.entries[i].1)
            },
            None => {
                assert(!self@.contains_key(key@));
                None
            },
        }
    }

    /// Whether a value is stored under `key`.
    pub fn contains(&self, key: &str) -> (r: bool)
        ensures
            r == self@.contains_key(key@),
    {
        match self.get(key) {
            Some(_) => true,
            None => false,
        }
    }

    /// Stores `value` under `key`, replacing what was there.
    pub fn insert(&mut self, key: String, value: T)
        ensures
            final(self)@ == old(self)@.insert(key@, value),
    {
        proof {
            use_type_invariant(&*self);
        }
        let ghost old_entries = self.entries@;
        let ghost k = key@;
        let pos = self.position(key.as_str());
        let mut entries: Vec<(String, T)> = Vec::new();
        std::mem::swap(&mut entries, &mut self.entries);
        match pos {
            Some(i) => {
                entries.set(i, (key, value));
            },
            None => {
                entries.push((key, value));
            },
        }
        proof {
            let ne = entries@;
            assert forall|a: int, b: int| 0 <= a < b < ne.len() implies ne[a].0@ != ne[b].0@ by {
                if a < old_entries.len() && b < old_entries.len() && pos is None {
                } else if pos is Some {
                    let i = pos->0 as int;
                    if a != i && b != i {
                        assert(ne[a] == old_entries[a] && ne[b] == old_entries[b]);
                    } else if a == i {
                        assert(ne[b] == old_entries[b]);
                        assert(old_entries[i].0@ == k);
                    } else {
                        assert(ne[a] == old_entries[a]);
                        assert(old_entries[i].0@ == k);
                    }
                }
            }
        }
        self.entries = entries;
        proof {
            let target = old(self)@.insert(k, value);
            assert forall|q: Seq<char>| #[trigger] self@.contains_key(q) <==> target.contains_key(q) by {
                if self@.contains_key(q) {
                    let j = choose|j: int| 0 <= j < self.entries@.len() && self.entries@[j].0@ == q;
                    if q != k {
                        assert(old_entries[j] == self.entries@[j]);
                    }
                }
                if target.contains_key(q) && q != k {
                    let j = choose|j: int| 0 <= j < old_entries.len() && old_entries[j].0@ == q;
                    assert(self.entries@[j] == old_entries[j]);
                }
                if q == k {
                    match pos {
                        Some(i) => assert(self.entries@[i as int].0@ == k),
                        None => assert(self.entries@[old_entries.len() as int].0@ == k),
                    }
                }
            }
            assert forall|q: Seq<char>| #[trigger] self@.contains_key(q) implies self@[q] == target[q] by {
                let j = choose|j: int| 0 <= j < self.entries@.len() && self.entries@[j].0@ == q;
                self.lemma_entry_is_value(j);
                if q != k {
                    assert(old_entries[j] == self.entries@[j]);
                    old(self).lemma_entry_is_value(j);
                }
            }
            assert(self@ =~= target);
        }
    }

    /// Removes what is stored under `key`, if anything, and gives it back.
    pub fn remove(&mut self, key: &str) -> (r: Option<T>)
        ensures
            final(self)@ == old(self)@.remove(key@),
            r == (if old(self)@.contains_key(key@) {
                Some(old(self)@[key@])
            } else {
                None::<T>
            }),
    {
        proof {
            use_type_invariant(&*self);
        }
        let ghost old_entries = self.entries@;
        let pos = self.position(key);
        let mut entries: Vec<(String, T)> = Vec::new();
        std::mem::swap(&mut entries, &mut self.entries);
        let removed = match pos {
            Some(i) => {
                proof {
                    old(self).lemma_entry_is_value(i as int);
                }
                let (_, value) = entries.remove(i);
                Some(value)
            },
            None => None,
        };
        proof {
            let ne = entries@;
            assert forall|a: int, b: int| 0 <= a < b < ne.len() implies ne[a].0@ != ne[b].0@ by {
                if let Some(i) = pos {
                    let ia = if a < i { a } else { a + 1 };
                    let ib = if b < i { b } else { b + 1 };
                    assert(ne[a] == old_entries[ia]);
                    assert(ne[b] == old_entries[ib]);
                }
            }
        }
        self.entries = entries;
        proof {
            let target = old(self)@.remove(key@);
            assert forall|q: Seq<char>| #[trigger] self@.contains_key(q) <==> target.contains_key(q) by {
                if self@.contains_key(q) {
                    let j = choose|j: int| 0 <= j < self.entries@.len() && self.entries@[j].0@ == q;
                    if let Some(i) = pos {
                        let oj = if j < i { j } else { j + 1 };
                        assert(self.entries@[j] == old_entries[oj]);
                        if q == key@ {
                            assert(old_entries[i as int].0@ == key@);
                        }
                    } else {
                        assert(self.entries@[j] == old_entries[j]);
                    }
                }
                if target.contains_key(q) {
                    let j = choose|j: int| 0 <= j < old_entries.len() && old_entries[j].0@ == q;
                    if let Some(i) = pos {
                        assert(j != i);
                        let nj = if j < i { j } else { j - 1 };
                        assert(self.entries@[nj] == old_entries[j]);
                    } else {
                        assert(self.entries@[j] == old_entries[j]);
                    }
                }
            }
            assert forall|q: Seq<char>| #[trigger] self@.contains_key(q) implies self@[q] == target[q] by {
                let j = choose|j: int| 0 <= j < self.entries@.len() && self.entries@[j].0@ == q;
                self.lemma_entry_is_value(j);
                let oj = match pos {
                    Some(i) => if j < i { j } else { j + 1 },
                    None => j,
                };
                assert(self.entries@[j] == old_entries[oj]);
                old(self).lemma_entry_is_value(oj);
            }
            assert(self@ =~= target);
        }
        removed
    }
}

/// The text of the values of a map of strings.
pub open spec fn text_map(m: Map<Seq<char>, String>) -> Map<Seq<char>, Seq<char>> {
    m.map_values(|s: String| s@)
}

/// No two pairs share a key.
pub open spec fn distinct_pair_keys(pairs: Seq<(String, String)>) -> bool {
    forall|i: int, j: int| 0 <= i < j < pairs.len() ==> pairs[i].0@ != pairs[j].0@
}

/// The map held by a list of pairs with distinct keys.
pub open spec fn pairs_map(pairs: Seq<(String, String)>) -> Map<Seq<char>, Seq<char>> {
    Map::new(
        |k: Seq<char>| exists|i: int| 0 <= i < pairs.len() && pairs[i].0@ == k,
        |k: Seq<char>| pairs[choose|i: int| 0 <= i < pairs.len() && pairs[i].0@ == k].1@,
    )
}

/// The map of pairs with distinct keys gives each pair's value for its key.
pub proof fn lemma_pairs_map_at(pairs: Seq<(String, String)>, i: int)
    requires
        distinct_pair_keys(pairs),
        0 <= i < pairs.len(),
    ensures
        pairs_map(pairs).contains_key(pairs[i].0@),
        pairs_map(pairs)[pairs[i].0@] == pairs[i].1@,
{
    let k = pairs[i].0@;
    assert(exists|j: int| 0 <= j < pairs.len() && pairs[j].0@ == k);
    let j = choose|j: int| 0 <= j < pairs.len() && pairs[j].0@ == k;
    if j < i {
        assert(pairs[j].0@ != pairs[i].0@);
    } else if j > i {
        assert(pairs[i].0@ != pairs[j].0@);
    }
}

/// Adding a pair with a new key adds that entry to the map.
pub proof fn lemma_pairs_map_push(pairs: Seq<(String, String)>, x: (String, String))
    requires
        distinct_pair_keys(pairs.push(x)),
    ensures
        distinct_pair_keys(pairs),
        pairs_map(pairs.push(x)) == pairs_map(pairs).insert(x.0@, x.1@),
{
    let s = pairs.push(x);
    assert forall|i: int, j: int| 0 <= i < j < pairs.len() implies pairs[i].0@ != pairs[j].0@ by {
        assert(s[i] == pairs[i] && s[j] == pairs[j]);
    }
    let target = pairs_map(pairs).insert(x.0@, x.1@);
    assert forall|k: Seq<char>| #[trigger] pairs_map(s).contains_key(k) <==> target.contains_key(k) by {
        if pairs_map(s).contains_key(k) {
            let j = choose|j: int| 0 <= j < s.len() && s[j].0@ == k;
            if j < pairs.len() {
                assert(s[j] == pairs[j]);
            }
        }
        if pairs_map(pairs).contains_key(k) {
            let j = choose|j: int| 0 <= j < pairs.len() && pairs[j].0@ == k;
            assert(s[j] == pairs[j]);
        }
        assert(s[pairs.len() as int] == x);
    }
    assert forall|k: Seq<char>| #[trigger] pairs_map(s).contains_key(k) implies pairs_map(s)[k] == target[k] by {
        let j = choose|j: int| 0 <= j < s.len() && s[j].0@ == k;
        lemma_pairs_map_at(s, j);
        if j < pairs.len() {
            assert(s[j] == pairs[j]);
            lemma_pairs_map_at(pairs, j);
            assert(s[pairs.len() as int] == x);
            assert(s[j].0@ != s[pairs.len() as int].0@);
        } else {
            assert(s[j] == x);
        }
    }
    assert(pairs_map(s) =~= target);
}

impl KeyedStore<String> {
    /// The stored `(key, value)` pairs, in insertion order.
    pub fn to_pairs(&self) -> (r: Vec<(String, String)>)
        ensures
            distinct_pair_keys(r@),
            pairs_map(r@) == text_map(self@),
    {
        proof {
            use_type_invariant(self);
        }
        let mut r: Vec<(String, String)> = Vec::new();
        let mut i: usize = 0;
        while i < self.entries.len()
            invariant
                i <= self.entries@.len(),
                self.distinct_keys(),
                r@.len() == i,
                forall|k: int| 0 <= k < i ==> #[trigger] r@[k] == self.entries@[k],
            decreases self.entries@.len() - i,
        {
            let key = self.entries[i].0.clone();
            let value = self.entries[i].1.clone();
            r.push((key, value));
            i += 1;
        }
        proof {
            assert(r@ =~= self.entries@);
            assert forall|k: Seq<char>| #[trigger] pairs_map(r@).contains_key(k) == text_map(self@).contains_key(k) by {}
            assert forall|k: Seq<char>| #[trigger] pairs_map(r@).contains_key(k) implies pairs_map(r@)[k] == text_map(self@)[k] by {
                let j = choose|j: int| 0 <= j < r@.len() && r@[j].0@ == k;
                self.lemma_entry_is_value(j);
                lemma_pairs_map_at(r@, j);
            }
            assert(pairs_map(r@) =~= text_map(self@));
        }
        r
    }
}

} // verus!
