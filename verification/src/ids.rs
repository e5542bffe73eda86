//! The call-id generator: a single 32-bit counter that hands out correlation
//! ids for outgoing requests, wrapping to zero after the maximum value.
//!
//! Uniqueness of in-flight ids rests on there being fewer than 2^32 calls in
//! flight at once; the generator itself only promises the counter sequence.

use vstd::prelude::*;

verus! {

/// The id that follows `x`: one more, or zero after the maximum value.
pub open spec fn wrap_next(x: u32) -> u32 {
    if x == u32::MAX {
        0
    } else {
        (x + 1) as u32
    }
}

/// Produces correlation ids in increasing order, wrapping to zero.
pub struct CallIdGen {
    next: u32,
}

impl View for CallIdGen {
    type V = u32;

    /// The id that the next call will receive.
    closed spec fn view(&self) -> u32 {
        self.next
    }
}

impl CallIdGen {
    /// A fresh generator; the first id handed out is zero.
    pub fn new() -> (r: CallIdGen)
        ensures
            r@ == 0,
    {
        CallIdGen { next: 0 }
    }

    /// A generator whose next id is `first`; lets a peer resume an id
    /// sequence at any point, the end of the id space included.
    pub fn starting_at(first: u32) -> (r: CallIdGen)
        ensures
            r@ == first,
    {
        CallIdGen { next: first }
    }

    /// Hand out the current id and step the counter, wrapping after the
    /// maximum representable value.
    pub fn next(&mut self) -> (id: u32)
        ensures
            id == old(self)@,
            final(self)@ == wrap_next(old(self)@),
    {
        let id = self.next;
        self.next = if self.next == u32::MAX {
            0
        } else {
            self.next + 1
        };
        id
    }
}

/// Id wraparound: once the generator has handed out the maximum id, the very
/// next id is zero — the counter never skips to one.
pub proof fn lemma_id_wraparound()
    ensures
        wrap_next(u32::MAX) == 0,
        forall|x: u32| x < u32::MAX ==> #[trigger] wrap_next(x) == x + 1,
{
}

} // verus!
