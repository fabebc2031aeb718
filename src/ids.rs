use vstd::prelude::*;

verus! {

/// Hands out task identifiers: 1 first, then each one greater than the last.
pub struct IdGenerator {
    last: u64,
}

impl IdGenerator {
    /// The most recent identifier handed out, or 0 before the first.
    pub closed spec fn last_issued(&self) -> u64 {
        self.last
    }

    pub fn new() -> (r: IdGenerator)
        ensures
            r.last_issued() == 0,
    {
        IdGenerator { last: 0 }
    }

    /// Whether another identifier can still be handed out without overflow.
    pub fn can_issue(&self) -> (r: bool)
        ensures
            r == (self.last_issued() < u64::MAX),
    {
        self.last < u64::MAX
    }

    pub fn next_id(&mut self) -> (r: u64)
        requires
            old(self).last_issued() < u64::MAX,
        ensures
            r == old(self).last_issued() + 1,
            final(self).last_issued() == r,
    {
        self.last = self.last + 1;
        self.last
    }
}

} // verus!
