//! The order of rational numbers.
use crate::denom::Denom;
use crate::ratio::{less_ratio, same_ratio};
use crate::SmartBigRational;
use core::cmp::Ordering;
use vstd::prelude::*;
use vstd::std_specs::cmp::PartialOrdSpecImpl;

verus! {

/// How the first fraction compares to the second one, for positive
/// denominators.
pub open spec fn order_of_ratios(a: (int, int), b: (int, int)) -> Ordering {
    if less_ratio(a, b) {
        Ordering::Less
    } else if same_ratio(a, b) {
        Ordering::Equal
    } else {
        Ordering::Greater
    }
}

/// Comparing the other way around reverses the order.
pub proof fn law_order_reversed(a: (int, int), b: (int, int))
    ensures
        order_of_ratios(a, b) == Ordering::Less <==> order_of_ratios(b, a) == Ordering::Greater,
        order_of_ratios(a, b) == Ordering::Equal <==> order_of_ratios(b, a) == Ordering::Equal,
{
}

/// The order of fractions with positive denominators is transitive.
pub proof fn law_less_transitive(a: (int, int), b: (int, int), c: (int, int))
    requires
        a.1 > 0,
        b.1 > 0,
        c.1 > 0,
        less_ratio(a, b),
        less_ratio(b, c),
    ensures
        less_ratio(a, c),
{
    let (a0, a1, b0, b1, c0, c1) = (a.0, a.1, b.0, b.1, c.0, c.1);
    assert((a0 * c1) * b1 < (c0 * a1) * b1) by (nonlinear_arith)
        requires
            a0 * b1 < b0 * a1,
            b0 * c1 < c0 * b1,
            a1 > 0,
            b1 > 0,
            c1 > 0,
    ;
    assert(a0 * c1 < c0 * a1) by (nonlinear_arith)
        requires
            (a0 * c1) * b1 < (c0 * a1) * b1,
            b1 > 0,
    ;
}

/// Values are ordered by their fractions: equal fractions compare equal.
pub proof fn law_order_equal_iff_same(a: (int, int), b: (int, int))
    ensures
        order_of_ratios(a, b) == Ordering::Equal <==> same_ratio(a, b),
{
}

impl<D: Denom> SmartBigRational<D> {
    /// Compares two values: the numerators, each times the other
    /// denominator.
    pub fn cmp(&self, rhs: &Self) -> (r: Ordering)
        ensures
            r == order_of_ratios(self@, rhs@),
    {
        let x = rhs.denom().mul_integer(self.numer());
        let y = self.denom().mul_integer(rhs.numer());
        proof {
            vstd::arithmetic::mul::lemma_mul_is_commutative(rhs@.0, self@.1);
        }
        let d = x.sub(&y);
        if d.is_zero() {
            Ordering::Equal
        } else if d.negative() {
            Ordering::Less
        } else {
            Ordering::Greater
        }
    }
}

impl<D: Denom> PartialOrd for SmartBigRational<D> {
    /// Values are always comparable.
    fn partial_cmp(&self, other: &Self) -> (r: Option<Ordering>) {
        Some(self.cmp(other))
    }
}

impl<D: Denom> PartialOrdSpecImpl for SmartBigRational<D> {
    open spec fn obeys_partial_cmp_spec() -> bool {
        true
    }

    open spec fn partial_cmp_spec(&self, other: &Self) -> Option<Ordering> {
        Some(order_of_ratios(self@, other@))
    }
}

} // verus!
