//! The correlation table: maps each in-flight call's id to its completion
//! slot. A slot is put in when the request is issued and taken out exactly
//! once, by the reply or error frame that carries the same id; a frame whose
//! id is unknown takes nothing out and changes nothing.

use vstd::prelude::*;
use std::collections::HashMap;

verus! {

broadcast use vstd::std_specs::hash::group_hash_axioms;

/// In-flight calls, keyed by correlation id. `S` is the completion slot a
/// waiting caller holds the other end of.
pub struct CorrelationTable<S> {
    slots: HashMap<u32, S>,
}

impl<S> View for CorrelationTable<S> {
    type V = Map<u32, S>;

    closed spec fn view(&self) -> Map<u32, S> {
        self.slots@
    }
}

impl<S> CorrelationTable<S> {
    /// An empty table.
    pub fn new() -> (r: CorrelationTable<S>)
        ensures
            r@ == Map::<u32, S>::empty(),
    {
        CorrelationTable { slots: HashMap::new() }
    }

    /// Whether a call with this id is in flight.
    pub fn is_pending(&self, id: u32) -> (b: bool)
        ensures
            b == self@.contains_key(id),
    {
        self.slots.contains_key(&id)
    }

    /// The number of in-flight calls.
    pub fn pending_count(&self) -> (n: usize)
        ensures
            n == self@.dom().len(),
    {
        self.slots.len()
    }

    /// Put in the slot for a freshly issued call. An id that is already in
    /// flight is refused and its slot handed back: a collision means the id
    /// space has been misused, and the existing call must not be clobbered.
    pub fn register(&mut self, id: u32, slot: S) -> (r: Result<(), S>)
        ensures
            old(self)@.contains_key(id) ==> (r matches Err(s) && s == slot && final(self)@ == old(
                self)@),
            !old(self)@.contains_key(id) ==> r is Ok && final(self)@ == old(self)@.insert(id, slot),
    {
        if self.slots.contains_key(&id) {
            Err(slot)
        } else {
            self.slots.insert(id, slot);
            Ok(())
        }
    }

    /// Take out and return the slot for `id`, if that call is in flight; a
    /// reply for an id with no pending call leaves the table unchanged, so a
    /// late reply is dropped without error.
    pub fn resolve(&mut self, id: u32) -> (r: Option<S>)
        ensures
            old(self)@.contains_key(id) ==> (r matches Some(s) && s == old(self)@[id] && final(
                self)@ == old(self)@.remove(id)),
            !old(self)@.contains_key(id) ==> r is None && final(self)@ == old(self)@,
    {
        let r = self.slots.remove(&id);
        proof {
            if !old(self)@.contains_key(id) {
                assert(self.slots@ =~= old(self)@);
            }
        }
        r
    }
}

/// Correlation uniqueness: with several calls in flight under distinct ids,
/// taking out one id's slot yields that call's own slot — never another's —
/// and every other in-flight call keeps exactly the slot it had. Replies may
/// therefore arrive in any order without ever crossing two callers.
pub proof fn lemma_correlation_uniqueness<S>(m: Map<u32, S>, i: u32, j: u32)
    requires
        m.contains_key(i),
        m.contains_key(j),
        i != j,
    ensures
        m.remove(i).contains_key(j),
        m.remove(i)[j] == m[j],
        !m.remove(i).contains_key(i),
{
}

} // verus!
