//! The resource budget of one invocation.

use vstd::prelude::*;

verus! {

/// A counter of consumed units that never passes its limit.
#[derive(Debug, Clone, Copy, PartialEq, Eq)]
pub struct Budget {
    limit: u64,
    consumed: u64,
}

impl Budget {
    pub closed spec fn limit(&self) -> nat {
        self.limit as nat
    }

    pub closed spec fn consumed(&self) -> nat {
        self.consumed as nat
    }

    pub open spec fn wf(&self) -> bool {
        self.consumed() <= self.limit()
    }

    /// A fresh budget of `limit` units, none of them consumed.
    pub fn new(limit: u64) -> (r: Budget)
        ensures
            r.wf(),
            r.limit() == limit,
            r.consumed() == 0,
    {
        Budget { limit, consumed: 0 }
    }

    pub fn units_limit(&self) -> (r: u64)
        ensures
            r == self.limit(),
    {
        self.limit
    }

    pub fn units_consumed(&self) -> (r: u64)
        ensures
            r == self.consumed(),
    {
        self.consumed
    }

    /// Charges `cost` units. Where they do not fit, the whole budget counts as
    /// consumed and the answer is `false`.
    pub fn charge(&mut self, cost: u64) -> (paid: bool)
        requires
            old(self).wf(),
        ensures
            final(self).wf(),
            final(self).limit() == old(self).limit(),
            paid == (old(self).consumed() + cost <= old(self).limit()),
            paid ==> final(self).consumed() == old(self).consumed() + cost,
            !paid ==> final(self).consumed() == old(self).limit(),
    {
        if cost <= self.limit - self.consumed {
            self.consumed = self.consumed + cost;
            true
        } else {
            self.consumed = self.limit;
            false
        }
    }
}

} // verus!
