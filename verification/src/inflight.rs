//! Deduplication of concurrent fetches: the first caller for a key leads the
//! fetch, later callers wait on what the leader registered, until it releases.

use vstd::prelude::*;
use crate::keyed::KeyedStore;

verus! {

/// Whether a caller for `k` leads, given the registered keys `m`.
pub open spec fn leads<T>(m: Map<Seq<char>, T>, k: Seq<char>) -> bool {
    !m.contains_key(k)
}

/// The registry after a caller for `k` offered `candidate`.
pub open spec fn after_acquire<T>(m: Map<Seq<char>, T>, k: Seq<char>, candidate: T) -> Map<Seq<char>, T> {
    if leads(m, k) {
        m.insert(k, candidate)
    } else {
        m
    }
}

/// What releasing `k` gives back: what its callers wait on, if it is in flight.
pub open spec fn released<T>(m: Map<Seq<char>, T>, k: Seq<char>) -> Option<T> {
    if m.contains_key(k) {
        Some(m[k])
    } else {
        None
    }
}

/// The fetches in flight, each with what its waiters wait on.
pub struct InFlightRegistry<T> {
    in_flight: KeyedStore<T>,
}

impl<T> View for InFlightRegistry<T> {
    type V = Map<Seq<char>, T>;

    closed spec fn view(&self) -> Map<Seq<char>, T> {
        self.in_flight@
    }
}

impl<T> InFlightRegistry<T> {
    /// A registry with nothing in flight.
    pub fn new() -> (r: Self)
        ensures
            r@ == Map::<Seq<char>, T>::empty(),
    {
        InFlightRegistry { in_flight: KeyedStore::new() }
    }

    /// Claims the leader role for `key`. When nothing is in flight for it, the
    /// caller leads and `candidate` is registered for later callers to wait on;
    /// otherwise the caller must wait and the registry is unchanged.
    pub fn try_acquire(&mut self, key: &str, candidate: T) -> (lead: bool)
        ensures
            lead == leads(old(self)@, key@),
            final(self)@ == after_acquire(old(self)@, key@, candidate),
    {
        if self.in_flight.contains(key) {
            false
        } else {
            self.in_flight.insert(key.to_string(), candidate);
            true
        }
    }

    /// What callers for `key` wait on, while its fetch is in flight.
    pub fn waiter(&self, key: &str) -> (r: Option<&T>)
        ensures
            r is Some <==> self@.contains_key(key@),
            r matches Some(v) ==> *v == self@[key@],
    {
        self.in_flight.get(key)
    }

    /// Ends the fetch for `key` and gives back what its callers wait on, so
    /// that the caller can wake them; the next caller for it leads again.
    pub fn release(&mut self, key: &str) -> (r: Option<T>)
        ensures
            final(self)@ == old(self)@.remove(key@),
            r == released(old(self)@, key@),
    {
        self.in_flight.remove(key)
    }
}

/// While a fetch is in flight, a second caller for the same key waits, and
/// what it waits on is what the leader registered.
pub proof fn lemma_second_caller_waits<T>(m: Map<Seq<char>, T>, k: Seq<char>, first: T, second: T)
    requires
        leads(m, k),
    ensures
        !leads(after_acquire(m, k, first), k),
        after_acquire(after_acquire(m, k, first), k, second) == after_acquire(m, k, first),
        after_acquire(m, k, first)[k] == first,
{
}

/// Once the leader releases its key, the next caller leads again.
pub proof fn lemma_release_lets_next_lead<T>(m: Map<Seq<char>, T>, k: Seq<char>)
    ensures
        leads(m.remove(k), k),
{
}

/// Fetches for different keys do not hold each other up.
pub proof fn lemma_keys_independent<T>(m: Map<Seq<char>, T>, k: Seq<char>, other: Seq<char>, c: T)
    requires
        k != other,
    ensures
        leads(after_acquire(m, k, c), other) == leads(m, other),
        leads(m.remove(k), other) == leads(m, other),
{
}

/// The registry after callers offered each of `candidates` for `k`, in order.
pub open spec fn after_acquires<T>(m: Map<Seq<char>, T>, k: Seq<char>, candidates: Seq<T>) -> Map<Seq<char>, T>
    decreases candidates.len(),
{
    if candidates.len() == 0 {
        m
    } else {
        after_acquire(after_acquires(m, k, candidates.drop_last()), k, candidates.last())
    }
}

/// Every caller that comes while the leader holds a key waits, on what the
/// leader registered, and the leader's release gives exactly that back, so
/// waking it wakes them all; after that the next caller leads.
pub proof fn lemma_release_wakes_waiters<T>(m: Map<Seq<char>, T>, k: Seq<char>, leader: T, waiters: Seq<T>)
    requires
        leads(m, k),
    ensures
        forall|i: int| 0 <= i <= waiters.len() ==> {
            let seen = after_acquires(after_acquire(m, k, leader), k, #[trigger] waiters.take(i));
            !leads(seen, k) && seen[k] == leader
        },
        after_acquires(after_acquire(m, k, leader), k, waiters) == after_acquire(m, k, leader),
        released(after_acquires(after_acquire(m, k, leader), k, waiters), k) == Some(leader),
        leads(after_acquires(after_acquire(m, k, leader), k, waiters).remove(k), k),
{
    let held = after_acquire(m, k, leader);
    assert forall|i: int| 0 <= i <= waiters.len() implies {
        let seen = after_acquires(held, k, #[trigger] waiters.take(i));
        !leads(seen, k) && seen[k] == leader
    } by {
        lemma_waiters_leave_registry(held, k, waiters.take(i));
    }
    lemma_waiters_leave_registry(held, k, waiters);
}

/// Callers that do not lead leave the registry as it is.
proof fn lemma_waiters_leave_registry<T>(held: Map<Seq<char>, T>, k: Seq<char>, waiters: Seq<T>)
    requires
        !leads(held, k),
    ensures
        after_acquires(held, k, waiters) == held,
    decreases waiters.len(),
{
    if waiters.len() > 0 {
        lemma_waiters_leave_registry(held, k, waiters.drop_last());
    }
}

} // verus!
