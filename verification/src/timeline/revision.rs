//! The logical clock.

use vstd::prelude::*;

verus! {

/// A stamp of the logical clock. `0` is reserved for values that never change;
/// live stamps start at `1` and only grow.
#[derive(Debug, Copy, Clone, Ord, PartialOrd, Eq, PartialEq, Structural, Hash)]
pub struct Revision {
    timestamp: u64,
}

impl View for Revision {
    type V = nat;

    closed spec fn view(&self) -> nat {
        self.timestamp as nat
    }
}

impl Revision {
    /// The stamp of values that never change.
    pub open spec fn spec_constant() -> nat {
        0
    }

    /// The first live stamp.
    pub open spec fn spec_start() -> nat {
        1
    }

    /// A live stamp. `0` is not one: that is `Revision::constant()`.
    pub fn timestamp(n: u64) -> (r: Revision)
        requires
            n != 0,
        ensures
            r@ == n,
    {
        Revision { timestamp: n }
    }

    /// The first live stamp.
    pub fn start() -> (r: Revision)
        ensures
            r@ == Self::spec_start(),
    {
        Revision { timestamp: 1 }
    }

    /// The stamp of values that never change.
    pub fn constant() -> (r: Revision)
        ensures
            r@ == Self::spec_constant(),
    {
        Revision { timestamp: 0 }
    }

    /// The next stamp. The clock cannot advance past `u64::MAX`.
    pub fn increment(self) -> (r: Revision)
        requires
            self@ < u64::MAX,
        ensures
            r@ == self@ + 1,
    {
        Revision { timestamp: self.timestamp + 1 }
    }

    /// The stamp as a number.
    pub fn value(self) -> (n: u64)
        ensures
            n == self@,
    {
        self.timestamp
    }

    /// The later of two stamps.
    pub fn latest(self, other: Revision) -> (r: Revision)
        ensures
            r == (if other@ > self@ { other } else { self }),
    {
        if other.timestamp > self.timestamp {
            other
        } else {
            self
        }
    }
}

} // verus!
