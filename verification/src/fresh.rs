//! The source of fresh identities.

use vstd::prelude::*;

verus! {

/// A monotonically increasing counter. Every identity below its view has been
/// handed out; none at or above it has.
#[derive(Debug)]
pub struct IdSupply {
    next: u32,
}

impl View for IdSupply {
    type V = nat;

    closed spec fn view(&self) -> nat {
        self.next as nat
    }
}

impl IdSupply {
    pub fn new() -> (r: Self)
        ensures
            r@ == 0,
    {
        IdSupply { next: 0 }
    }

    /// A supply whose first identity is `first`.
    pub fn starting_at(first: u32) -> (r: Self)
        ensures
            r@ == first,
    {
        IdSupply { next: first }
    }

    /// How many identities can still be handed out.
    pub fn remaining(&self) -> (r: u32)
        ensures
            r == u32::MAX - self@,
    {
        u32::MAX - self.next
    }

    /// The identity that the next call of `fresh_id` returns.
    pub fn peek(&self) -> (r: u32)
        ensures
            r == self@,
    {
        self.next
    }

    pub fn fresh_id(&mut self) -> (id: u32)
        requires
            old(self)@ < u32::MAX,
        ensures
            id == old(self)@,
            final(self)@ == old(self)@ + 1,
    {
        let id: u32 = self.next;
        self.next = id + 1;
        id
    }
}

impl Default for IdSupply {
    fn default() -> (r: Self)
        ensures
            r@ == 0,
    {
        IdSupply::new()
    }
}

} // verus!
