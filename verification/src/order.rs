//! Values are ordered as their raw numerators are.
use crate::unit::UnitRanged;
use core::cmp::Ordering;
use vstd::prelude::*;

verus! {

broadcast use crate::unit::group_unit_ranged;

impl PartialOrd for UnitRanged {
    fn partial_cmp(&self, other: &Self) -> (r: Option<Ordering>) {
        let a = self.into_raw();
        let b = other.into_raw();
        if a < b {
            Some(Ordering::Less)
        } else if a == b {
            Some(Ordering::Equal)
        } else {
            Some(Ordering::Greater)
        }
    }

    fn lt(&self, other: &Self) -> (r: bool) {
        self.into_raw() < other.into_raw()
    }

    fn le(&self, other: &Self) -> (r: bool) {
        self.into_raw() <= other.into_raw()
    }

    fn gt(&self, other: &Self) -> (r: bool) {
        self.into_raw() > other.into_raw()
    }

    fn ge(&self, other: &Self) -> (r: bool) {
        self.into_raw() >= other.into_raw()
    }
}

impl vstd::std_specs::cmp::PartialOrdSpecImpl for UnitRanged {
    open spec fn obeys_partial_cmp_spec() -> bool {
        true
    }

    open spec fn partial_cmp_spec(&self, other: &Self) -> Option<Ordering> {
        if self@ < other@ {
            Some(Ordering::Less)
        } else if self@ == other@ {
            Some(Ordering::Equal)
        } else {
            Some(Ordering::Greater)
        }
    }
}

/// `x` brought into `[lo, hi]`.
pub open spec fn clamp_raw(x: u32, lo: u32, hi: u32) -> u32 {
    if x < lo {
        lo
    } else if x > hi {
        hi
    } else {
        x
    }
}

/// The smaller of two numerators.
pub open spec fn min_raw(a: u32, b: u32) -> u32 {
    if a <= b {
        a
    } else {
        b
    }
}

/// The larger of two numerators.
pub open spec fn max_raw(a: u32, b: u32) -> u32 {
    if a <= b {
        b
    } else {
        a
    }
}

impl UnitRanged {
    /// The smaller of the two values.
    pub fn min(self, other: Self) -> (r: Self)
        ensures
            r@ == min_raw(self@, other@),
    {
        if other.into_raw() < self.into_raw() {
            other
        } else {
            self
        }
    }

    /// The larger of the two values.
    pub fn max(self, other: Self) -> (r: Self)
        ensures
            r@ == max_raw(self@, other@),
    {
        if other.into_raw() < self.into_raw() {
            self
        } else {
            other
        }
    }

    /// `self` brought into `[min, max]`: `min` below it, `max` above it,
    /// `self` inside it. The bounds must be in order.
    pub fn clamp(self, min: Self, max: Self) -> (r: Self)
        requires
            min@ <= max@,
        ensures
            r@ == clamp_raw(self@, min@, max@),
            self@ < min@ ==> r@ == min@,
            self@ > max@ ==> r@ == max@,
            min@ <= self@ <= max@ ==> r@ == self@,
    {
        let x = self.into_raw();
        if x < min.into_raw() {
            min
        } else if x > max.into_raw() {
            max
        } else {
            self
        }
    }
}

/// The smaller and the larger of two values are the two values, in order.
pub proof fn law_min_max(a: u32, b: u32)
    ensures
        min_raw(a, b) <= a && min_raw(a, b) <= b,
        max_raw(a, b) >= a && max_raw(a, b) >= b,
        min_raw(a, b) <= max_raw(a, b),
        (min_raw(a, b) == a && max_raw(a, b) == b) || (min_raw(a, b) == b && max_raw(a, b) == a),
        min_raw(a, b) == min_raw(b, a),
        max_raw(a, b) == max_raw(b, a),
{
}

/// With ordered bounds, a value below the lower bound is brought up to it, a
/// value above the upper bound down to it, and a value inside is kept; so
/// clamping lands inside the bounds, and clamping twice is clamping once.
pub proof fn law_clamp(x: u32, lo: u32, hi: u32)
    requires
        lo <= hi,
    ensures
        x < lo ==> clamp_raw(x, lo, hi) == lo,
        x > hi ==> clamp_raw(x, lo, hi) == hi,
        lo <= clamp_raw(x, lo, hi) <= hi,
        lo <= x <= hi ==> clamp_raw(x, lo, hi) == x,
        clamp_raw(clamp_raw(x, lo, hi), lo, hi) == clamp_raw(x, lo, hi),
{
}

} // verus!
