//! Closed intervals on one axis.

use vstd::prelude::*;
use crate::scalar::Scalar;

verus! {

/// The interval from `min` to `max`, both included.
#[derive(Clone, Copy, Debug, PartialEq, Eq, Structural)]
pub struct Limits {
    pub min: Scalar,
    pub max: Scalar,
}

impl Limits {
    /// The ends are in order.
    pub open spec fn wf(self) -> bool {
        self.min@ <= self.max@
    }

    /// The raw number `v` lies in the interval.
    pub open spec fn holds(self, v: int) -> bool {
        self.min@ <= v <= self.max@
    }

    pub open spec fn spec_contains(self, value: Scalar) -> bool {
        self.holds(value@)
    }

    /// Some number lies in both intervals.
    pub open spec fn spec_intersects(self, other: Limits) -> bool {
        exists|v: int| #[trigger] self.holds(v) && other.holds(v)
    }

    /// Every number of `inner` lies in this interval.
    pub open spec fn covers(self, inner: Limits) -> bool {
        self.min@ <= inner.min@ && inner.max@ <= self.max@
    }

    /// The smallest interval that covers both.
    pub open spec fn spec_merge(self, rhs: Limits) -> Limits {
        Limits { min: self.min.spec_min(rhs.min), max: self.max.spec_max(rhs.max) }
    }

    /// The interval between two numbers, given in either order.
    pub fn new(min: Scalar, max: Scalar) -> (l: Limits)
        ensures
            l.wf(),
            l.min == min.spec_min(max),
            l.max == max.spec_max(min),
    {
        Limits { min: min.min(max), max: max.max(min) }
    }

    pub fn contains(&self, value: Scalar) -> (b: bool)
        ensures
            b == self.spec_contains(value),
    {
        value.ge(self.min) && value.le(self.max)
    }

    pub fn intersects(&self, other: &Limits) -> (b: bool)
        ensures
            b == self.spec_intersects(*other),
    {
        let highest_min: Scalar = self.min.max(other.min);
        let lowest_max: Scalar = self.max.min(other.max);
        let b: bool = highest_min.le(lowest_max);
        proof {
            if b {
                let v = highest_min@;
                assert(self.holds(v) && other.holds(v));
            }
        }
        b
    }

    /// Widens this interval to the union with `rhs`.
    pub fn add_assign(&mut self, rhs: Limits)
        ensures
            *final(self) == old(self).spec_merge(rhs),
            final(self).covers(*old(self)),
            final(self).covers(rhs),
            old(self).wf() ==> final(self).wf(),
    {
        self.min = self.min.min(rhs.min);
        self.max = self.max.max(rhs.max);
    }
}

impl Default for Limits {
    fn default() -> (l: Limits)
        ensures
            l.min@ == 0,
            l.max@ == 0,
    {
        Limits { min: Scalar::zero(), max: Scalar::zero() }
    }
}

} // verus!
