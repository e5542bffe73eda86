//! The handler registry: maps a message kind byte to the inbound delivery
//! channel of the handler bound to that kind. Binding the same kind again
//! replaces the earlier registration — last bind wins — and a request for a
//! kind with no registration is simply not deliverable.

use vstd::prelude::*;
use std::collections::HashMap;

verus! {

broadcast use vstd::std_specs::hash::group_hash_axioms;

/// Bound handlers, keyed by message kind. `H` is the sending end of a
/// handler's inbound channel.
pub struct HandlerRegistry<H> {
    channels: HashMap<u8, H>,
}

impl<H> View for HandlerRegistry<H> {
    type V = Map<u8, H>;

    closed spec fn view(&self) -> Map<u8, H> {
        self.channels@
    }
}

impl<H> HandlerRegistry<H> {
    /// An empty registry.
    pub fn new() -> (r: HandlerRegistry<H>)
        ensures
            r@ == Map::<u8, H>::empty(),
    {
        HandlerRegistry { channels: HashMap::new() }
    }

    /// Bind `chan` as the delivery channel for `kind`; a channel bound to the
    /// same kind earlier is replaced.
    pub fn bind(&mut self, kind: u8, chan: H)
        ensures
            final(self)@ == old(self)@.insert(kind, chan),
    {
        self.channels.insert(kind, chan);
    }

    /// Whether some handler is bound to `kind`.
    pub fn is_bound(&self, kind: u8) -> (b: bool)
        ensures
            b == self@.contains_key(kind),
    {
        self.channels.contains_key(&kind)
    }

    /// The delivery channel bound to `kind`, if any.
    pub fn lookup(&self, kind: u8) -> (r: Option<&H>)
        ensures
            match r {
                Some(h) => self@.contains_key(kind) && *h == self@[kind],
                None => !self@.contains_key(kind),
            },
    {
        self.channels.get(&kind)
    }
}

} // verus!
