//! A big rational type optimized for addition, subtraction and
//! multiplication.
//!
//! Unlike a rational type that reduces every result to lowest terms, the
//! [`SmartBigRational`] doesn't perform a full GCD reduction upon addition
//! and subtraction, and doesn't perform any reduction upon multiplication.
use vstd::prelude::*;

pub mod bignum;
pub mod denom;
pub mod denom_array;
pub mod denom_sparse;
pub mod order;
pub mod prime_dividers;
pub mod prime_gaps;
pub mod primes;
pub mod ratio;
pub mod util;

use crate::bignum::{
    abs, gcd, lemma_abs_trunc_div, lemma_gcd_coprime_quotients, lemma_gcd_divides,
    lemma_trunc_div_exact, rational_new, trunc_div, Integer, Natural,
};
pub use crate::denom::{Denom, DenomRef};
pub use crate::denom_array::{Denom24, DenomArray, DenomArray24};
pub use crate::denom_sparse::{DenomSparse6542, DenomSparseU16};
use crate::ratio::{
    add_ratio, div_ratio, int_ratio, less_ratio, mul_ratio, neg_ratio, pow_ratio, same_ratio,
    sub_ratio,
};
use vstd::std_specs::cmp::PartialEqSpecImpl;

verus! {

/// A big rational type optimized for addition, subtraction and
/// multiplication.
///
/// This is achieved by representing the denominator with a [`Denom`] type,
/// and performing only partial GCD reductions during arithmetic operations.
#[derive(Debug)]
pub struct SmartBigRational<D: Denom> {
    num: Integer,
    denom: D,
}

impl<D: Denom> View for SmartBigRational<D> {
    /// The numerator and the (positive) denominator, as they are held.
    type V = (int, int);

    closed spec fn view(&self) -> (int, int) {
        (self.num@, self.denom.denom_value() as int)
    }
}

impl<D: Denom> SmartBigRational<D> {
    /// The denominator is well formed.
    #[verifier::type_invariant]
    closed spec fn inv(&self) -> bool {
        self.denom.wf()
    }

    /// The denominator, as it is represented.
    pub closed spec fn denom_repr(&self) -> D {
        self.denom
    }

    /// Constant value of 0.
    pub fn zero() -> (r: Self)
        requires
            D::supported(),
        ensures
            r@ == int_ratio(0),
            r.denom_repr().is_canonical(),
    {
        SmartBigRational { num: Integer::zero(), denom: D::one() }
    }

    /// Constant value of 1.
    pub fn one() -> (r: Self)
        requires
            D::supported(),
        ensures
            r@ == int_ratio(1),
            r.denom_repr().is_canonical(),
    {
        SmartBigRational { num: Integer::one(), denom: D::one() }
    }

    /// Creates a new rational number by dividing the given numerator by the
    /// denominator.
    pub fn ratio(num: Integer, denom: D) -> (r: Self)
        requires
            denom.wf(),
        ensures
            r@ == (num@, denom.denom_value() as int),
            r.denom_repr() == denom,
    {
        SmartBigRational { num, denom }
    }

    /// The rational number of an integer.
    pub fn from_integer(value: Integer) -> (r: Self)
        requires
            D::supported(),
        ensures
            r@ == int_ratio(value@),
            r.denom_repr().is_canonical(),
    {
        SmartBigRational { num: value, denom: D::one() }
    }

    /// The rational number `numer / denom` of a fraction with a positive
    /// denominator, such as a reduced big rational holds.
    pub fn from_big_rational(numer: Integer, denom: &Natural) -> (r: Self)
        requires
            D::supported(),
            denom@ > 0,
        ensures
            r@ == (numer@, denom@ as int),
            r.denom_repr().is_canonical(),
    {
        SmartBigRational { num: numer, denom: D::from_natural(denom) }
    }

    /// Returns the current numerator and denominator as is, without
    /// reduction.
    pub fn into_raw(self) -> (r: (Integer, D))
        ensures
            r.0@ == self@.0,
            r.1.wf(),
            r.1.denom_value() == self@.1,
            r.1 == self.denom_repr(),
    {
        proof {
            use_type_invariant(&self);
        }
        (self.num, self.denom)
    }

    /// Returns the current numerator as is, without reduction.
    pub fn numer(&self) -> (r: &Integer)
        ensures
            r@ == self@.0,
    {
        &self.num
    }

    /// Returns the current denominator as is, without reduction.
    pub fn denom(&self) -> (r: &D)
        ensures
            r.wf(),
            r.denom_value() == self@.1,
            *r == self.denom_repr(),
    {
        proof {
            use_type_invariant(self);
        }
        &self.denom
    }

    /// The denominator is positive.
    pub fn denom_is_positive(&self)
        ensures
            self@.1 > 0,
    {
        proof {
            use_type_invariant(self);
            self.denom.lemma_positive();
        }
    }

    /// A copy of this value, with the same representation.
    pub fn copy(&self) -> (r: Self)
        ensures
            r@ == self@,
            r.denom_repr().same_repr(&self.denom_repr()),
            self.denom_repr().is_canonical() ==> r.denom_repr().is_canonical(),
    {
        proof {
            use_type_invariant(self);
        }
        SmartBigRational { num: self.num.copy(), denom: self.denom.copy() }
    }

    /// This value in lowest terms, with a positive denominator, as a big
    /// rational holds it.
    pub fn to_big_rational(&self) -> (r: (Integer, Natural))
        ensures
            r.0@ == trunc_div(self@.0, gcd(abs(self@.0), self@.1 as nat) as int),
            r.1@ == self@.1 / gcd(abs(self@.0), self@.1 as nat) as int,
            r.1@ > 0,
            same_ratio((r.0@, r.1@ as int), self@),
            gcd(abs(r.0@), r.1@) == 1,
    {
        proof {
            use_type_invariant(self);
            self.denom.lemma_positive();
        }
        let d = self.denom.to_natural();
        let r = rational_new(&self.num, &d);
        proof {
            let n = self@.0;
            let m = self@.1;
            let g = gcd(abs(n), m as nat);
            lemma_gcd_divides(abs(n), m as nat);
            lemma_trunc_div_exact(n, g);
            vstd::arithmetic::div_mod::lemma_fundamental_div_mod(m, g as int);
            let q = m / (g as int);
            assert(q > 0) by (nonlinear_arith)
                requires
                    m == g * q,
                    m > 0,
                    g > 0,
            ;
            assert(r.0@ * m == n * q) by (nonlinear_arith)
                requires
                    r.0@ * g == n,
                    m == g * q,
            ;
            lemma_abs_trunc_div(n, g as int);
            lemma_gcd_coprime_quotients(abs(n), m as nat);
        }
        r
    }

    /// Converts this value to lowest terms, as
    /// [`to_big_rational`](SmartBigRational::to_big_rational) does.
    pub fn into_big_rational(self) -> (r: (Integer, Natural))
        ensures
            r.0@ == trunc_div(self@.0, gcd(abs(self@.0), self@.1 as nat) as int),
            r.1@ == self@.1 / gcd(abs(self@.0), self@.1 as nat) as int,
            r.1@ > 0,
            same_ratio((r.0@, r.1@ as int), self@),
            gcd(abs(r.0@), r.1@) == 1,
    {
        self.to_big_rational()
    }

    /// Reduces the current value: the numerator and denominator are divided
    /// by common factors, the value staying the same, until the numerator
    /// shares none of the factors that the denominator's representation
    /// lists.
    pub fn reduce(&mut self)
        ensures
            same_ratio(final(self)@, old(self)@),
            final(self).denom_repr().coprime_with(final(self)@.0),
            final(self)@.1 > 0,
            old(self)@.1 % final(self)@.1 == 0,
            old(self).denom_repr().is_canonical() ==> final(self).denom_repr().is_canonical(),
    {
        proof {
            use_type_invariant(&*self);
        }
        let mut num = self.num.copy();
        let mut denom = self.denom.copy();
        denom.gcd_reduce(&mut num);
        proof {
            denom.lemma_positive();
        }
        *self = SmartBigRational { num, denom };
    }

    /// Whether this value is zero.
    pub fn is_zero(&self) -> (r: bool)
        ensures
            r == (self@.0 == 0),
    {
        self.num.is_zero()
    }

    /// Whether two values are equal: their numerators times the other
    /// denominator are equal.
    pub fn equals(&self, rhs: &Self) -> (r: bool)
        ensures
            r == same_ratio(self@, rhs@),
    {
        proof {
            use_type_invariant(self);
            use_type_invariant(rhs);
        }
        let x = rhs.denom.mul_integer(&self.num);
        let y = self.denom.mul_integer(&rhs.num);
        proof {
            vstd::arithmetic::mul::lemma_mul_is_commutative(rhs@.0, self@.1);
        }
        x.sub(&y).is_zero()
    }

    /// Opposite of this value.
    pub fn neg(&self) -> (r: Self)
        ensures
            r@ == neg_ratio(self@),
            r.denom_repr().same_repr(&self.denom_repr()),
            self.denom_repr().is_canonical() ==> r.denom_repr().is_canonical(),
    {
        proof {
            use_type_invariant(self);
        }
        SmartBigRational { num: self.num.neg(), denom: self.denom.copy() }
    }

    /// Power of this value.
    pub fn pow(&self, e: u32) -> (r: Self)
        requires
            self.denom_repr().pow_supported(e),
        ensures
            r@ == pow_ratio(self@, e as nat),
            r.denom_repr().is_power_of(&self.denom_repr(), e),
    {
        proof {
            use_type_invariant(self);
        }
        SmartBigRational { num: self.num.pow(e), denom: self.denom.pow(e) }
    }

    /// Sum of two values, over a common multiple of their denominators.
    pub fn add(&self, rhs: &Self) -> (r: Self)
        ensures
            same_ratio(r@, add_ratio(self@, rhs@)),
            r@.1 > 0,
            r.denom_repr().is_common_multiple_of(&self.denom_repr(), &rhs.denom_repr()),
    {
        proof {
            use_type_invariant(self);
            use_type_invariant(rhs);
        }
        let mut lnum = self.num.copy();
        let mut rnum = rhs.num.copy();
        let denom = D::normalize(&mut lnum, &mut rnum, &self.denom, &rhs.denom);
        let num = lnum.add(&rnum);
        proof {
            denom.lemma_positive();
            let (a0, a1, b0, b1) = (self@.0, self@.1, rhs@.0, rhs@.1);
            let d = denom.denom_value() as int;
            let (l, r) = (lnum@, rnum@);
            vstd::arithmetic::mul::lemma_mul_is_distributive_add_other_way(a1 * b1, l, r);
            vstd::arithmetic::mul::lemma_mul_is_distributive_add_other_way(d, a0 * b1, b0 * a1);
            assert(l * (a1 * b1) == (l * a1) * b1) by (nonlinear_arith);
            assert(r * (a1 * b1) == (r * b1) * a1) by (nonlinear_arith);
            assert((a0 * d) * b1 == (a0 * b1) * d) by (nonlinear_arith);
            assert((b0 * d) * a1 == (b0 * a1) * d) by (nonlinear_arith);
        }
        SmartBigRational { num, denom }
    }

    /// Difference of two values, over a common multiple of their
    /// denominators.
    pub fn sub(&self, rhs: &Self) -> (r: Self)
        ensures
            same_ratio(r@, sub_ratio(self@, rhs@)),
            r@.1 > 0,
            r.denom_repr().is_common_multiple_of(&self.denom_repr(), &rhs.denom_repr()),
    {
        proof {
            use_type_invariant(self);
            use_type_invariant(rhs);
        }
        let mut lnum = self.num.copy();
        let mut rnum = rhs.num.copy();
        let denom = D::normalize(&mut lnum, &mut rnum, &self.denom, &rhs.denom);
        let num = lnum.sub(&rnum);
        proof {
            denom.lemma_positive();
            let (a0, a1, b0, b1) = (self@.0, self@.1, rhs@.0, rhs@.1);
            let d = denom.denom_value() as int;
            let (l, r) = (lnum@, rnum@);
            vstd::arithmetic::mul::lemma_mul_is_distributive_sub_other_way(a1 * b1, l, r);
            vstd::arithmetic::mul::lemma_mul_is_distributive_sub_other_way(d, a0 * b1, b0 * a1);
            assert(l * (a1 * b1) == (l * a1) * b1) by (nonlinear_arith);
            assert(r * (a1 * b1) == (r * b1) * a1) by (nonlinear_arith);
            assert((a0 * d) * b1 == (a0 * b1) * d) by (nonlinear_arith);
            assert((b0 * d) * a1 == (b0 * a1) * d) by (nonlinear_arith);
        }
        SmartBigRational { num, denom }
    }

    /// Product of two values, without reduction.
    pub fn mul(&self, rhs: &Self) -> (r: Self)
        ensures
            r@ == mul_ratio(self@, rhs@),
            r.denom_repr().is_product_of(&self.denom_repr(), &rhs.denom_repr()),
    {
        proof {
            use_type_invariant(self);
            use_type_invariant(rhs);
        }
        SmartBigRational { num: self.num.mul(&rhs.num), denom: self.denom.mul(&rhs.denom) }
    }

    /// Quotient of two values: the sign and denominator of the divisor go to
    /// the numerator, the magnitude of its numerator to the denominator.
    pub fn div(&self, rhs: &Self) -> (r: Self)
        requires
            rhs@.0 != 0,
        ensures
            same_ratio(r@, div_ratio(self@, rhs@)),
            r@.1 > 0,
            r@ == (self@.0 * (if rhs@.0 < 0 {
                -rhs@.1
            } else {
                rhs@.1
            }), self@.1 * abs(rhs@.0)),
    {
        proof {
            use_type_invariant(self);
            use_type_invariant(rhs);
            rhs.denom.lemma_positive();
        }
        let magnitude = rhs.num.magnitude();
        let negative = rhs.num.negative();
        let signed_denom = Integer::from_natural(negative, rhs.denom.to_natural());
        let num = self.num.mul(&signed_denom);
        let denom = self.denom.mul(&D::from_natural(&magnitude));
        proof {
            denom.lemma_positive();
            let (a0, a1, b0, b1) = (self@.0, self@.1, rhs@.0, rhs@.1);
            let m = magnitude@ as int;
            let s = signed_denom@;
            if negative {
                assert(s == -b1 && m == -b0);
                assert((a0 * s) * (a1 * b0) == (a0 * b1) * (a1 * m)) by (nonlinear_arith)
                    requires
                        s == -b1,
                        m == -b0,
                ;
            } else {
                assert(s == b1 && m == b0);
            }
        }
        SmartBigRational { num, denom }
    }

    /// Sum of this value and an integer.
    pub fn add_integer(&self, rhs: &Integer) -> (r: Self)
        ensures
            r@ == (self@.0 + rhs@ * self@.1, self@.1),
            same_ratio(r@, add_ratio(self@, int_ratio(rhs@))),
    {
        proof {
            use_type_invariant(self);
        }
        let x = self.denom.mul_integer(rhs);
        proof {
            let (a0, a1) = (self@.0, self@.1);
            assert((a0 + rhs@ * a1) * (a1 * 1) == (a0 * 1 + rhs@ * a1) * a1) by (nonlinear_arith);
        }
        SmartBigRational { num: self.num.add(&x), denom: self.denom.copy() }
    }

    /// Difference of this value and an integer.
    pub fn sub_integer(&self, rhs: &Integer) -> (r: Self)
        ensures
            r@ == (self@.0 - rhs@ * self@.1, self@.1),
            same_ratio(r@, sub_ratio(self@, int_ratio(rhs@))),
    {
        proof {
            use_type_invariant(self);
        }
        let x = self.denom.mul_integer(rhs);
        proof {
            let (a0, a1) = (self@.0, self@.1);
            assert((a0 - rhs@ * a1) * (a1 * 1) == (a0 * 1 - rhs@ * a1) * a1) by (nonlinear_arith);
        }
        SmartBigRational { num: self.num.sub(&x), denom: self.denom.copy() }
    }

    /// Product of this value and an integer.
    pub fn mul_integer(&self, rhs: &Integer) -> (r: Self)
        ensures
            r@ == (self@.0 * rhs@, self@.1),
            same_ratio(r@, mul_ratio(self@, int_ratio(rhs@))),
    {
        proof {
            use_type_invariant(self);
        }
        SmartBigRational { num: self.num.mul(rhs), denom: self.denom.copy() }
    }

    /// Quotient of this value by a positive natural number.
    pub fn div_natural(&self, rhs: &Natural) -> (r: Self)
        requires
            rhs@ > 0,
        ensures
            r@ == (self@.0, self@.1 * rhs@),
            same_ratio(r@, div_ratio(self@, int_ratio(rhs@ as int))),
    {
        proof {
            use_type_invariant(self);
            self.denom.lemma_positive();
        }
        SmartBigRational { num: self.num.copy(), denom: self.denom.mul(&D::from_natural(rhs)) }
    }

    /// Adds the other value to this one.
    pub fn add_assign(&mut self, rhs: &Self)
        ensures
            same_ratio(final(self)@, add_ratio(old(self)@, rhs@)),
            final(self)@.1 > 0,
            final(self).denom_repr().is_common_multiple_of(&old(self).denom_repr(), &rhs.denom_repr()),
    {
        *self = self.add(rhs);
    }

    /// Subtracts the other value from this one.
    pub fn sub_assign(&mut self, rhs: &Self)
        ensures
            same_ratio(final(self)@, sub_ratio(old(self)@, rhs@)),
            final(self)@.1 > 0,
            final(self).denom_repr().is_common_multiple_of(&old(self).denom_repr(), &rhs.denom_repr()),
    {
        *self = self.sub(rhs);
    }

    /// Multiplies this value by the other one.
    pub fn mul_assign(&mut self, rhs: &Self)
        ensures
            final(self)@ == mul_ratio(old(self)@, rhs@),
            final(self).denom_repr().is_product_of(&old(self).denom_repr(), &rhs.denom_repr()),
    {
        *self = self.mul(rhs);
    }

    /// Divides this value by the other one.
    pub fn div_assign(&mut self, rhs: &Self)
        requires
            rhs@.0 != 0,
        ensures
            same_ratio(final(self)@, div_ratio(old(self)@, rhs@)),
            final(self)@.1 > 0,
            final(self)@ == (old(self)@.0 * (if rhs@.0 < 0 {
                -rhs@.1
            } else {
                rhs@.1
            }), old(self)@.1 * abs(rhs@.0)),
    {
        *self = self.div(rhs);
    }

    /// Adds an integer to this value.
    pub fn add_assign_integer(&mut self, rhs: &Integer)
        ensures
            final(self)@ == (old(self)@.0 + rhs@ * old(self)@.1, old(self)@.1),
    {
        *self = self.add_integer(rhs);
    }

    /// Subtracts an integer from this value.
    pub fn sub_assign_integer(&mut self, rhs: &Integer)
        ensures
            final(self)@ == (old(self)@.0 - rhs@ * old(self)@.1, old(self)@.1),
    {
        *self = self.sub_integer(rhs);
    }

    /// Multiplies this value by an integer.
    pub fn mul_assign_integer(&mut self, rhs: &Integer)
        ensures
            final(self)@ == (old(self)@.0 * rhs@, old(self)@.1),
    {
        *self = self.mul_integer(rhs);
    }

    /// Divides this value by a positive natural number.
    pub fn div_assign_natural(&mut self, rhs: &Natural)
        requires
            rhs@ > 0,
        ensures
            final(self)@ == (old(self)@.0, old(self)@.1 * rhs@),
    {
        *self = self.div_natural(rhs);
    }

    /// Sum of the values, starting from zero.
    pub fn sum(values: &Vec<Self>) -> (r: Self)
        requires
            D::supported(),
        ensures
            same_ratio(r@, sum_ratios(values@.map_values(|x: Self| x@))),
            r@.1 > 0,
    {
        let mut acc = Self::zero();
        let ghost views = values@.map_values(|x: Self| x@);
        let mut i: usize = 0;
        proof {
            assert(views.take(0) =~= Seq::<(int, int)>::empty());
        }
        while i < values.len()
            invariant
                i <= values.len(),
                views == values@.map_values(|x: Self| x@),
                acc@.1 > 0,
                same_ratio(acc@, sum_ratios(views.take(i as int))),
            decreases values.len() - i,
        {
            let ghost before = acc@;
            values[i].denom_is_positive();
            acc.add_assign(&values[i]);
            proof {
                assert(views.take(i + 1).drop_last() =~= views.take(i as int));
                assert(views[i as int] == values@[i as int]@);
                assert(before.1 * views[i as int].1 > 0) by (nonlinear_arith)
                    requires
                        before.1 > 0,
                        views[i as int].1 > 0,
                ;
                crate::ratio::law_add_congruent(before, views[i as int], sum_ratios(views.take(i as int)), views[i as int]);
                crate::ratio::law_same_ratio_transitive(acc@, add_ratio(before, views[i as int]), sum_ratios(views.take(i + 1)));
            }
            i = i + 1;
        }
        proof {
            assert(views.take(values.len() as int) =~= views);
        }
        acc
    }

    /// Product of the values, starting from one.
    pub fn product(values: &Vec<Self>) -> (r: Self)
        requires
            D::supported(),
        ensures
            r@ == product_ratios(values@.map_values(|x: Self| x@)),
    {
        let mut acc = Self::one();
        let ghost views = values@.map_values(|x: Self| x@);
        let mut i: usize = 0;
        proof {
            assert(views.take(0) =~= Seq::<(int, int)>::empty());
        }
        while i < values.len()
            invariant
                i <= values.len(),
                views == values@.map_values(|x: Self| x@),
                acc@ == product_ratios(views.take(i as int)),
            decreases values.len() - i,
        {
            acc.mul_assign(&values[i]);
            proof {
                assert(views.take(i + 1).drop_last() =~= views.take(i as int));
            }
            i = i + 1;
        }
        proof {
            assert(views.take(values.len() as int) =~= views);
        }
        acc
    }
}

impl<D: Denom> PartialEq for SmartBigRational<D> {
    /// Two values are equal when they denote the same rational number.
    fn eq(&self, other: &Self) -> (r: bool) {
        self.equals(other)
    }
}

impl<D: Denom> Eq for SmartBigRational<D> {

}

impl<D: Denom> PartialEqSpecImpl for SmartBigRational<D> {
    open spec fn obeys_eq_spec() -> bool {
        true
    }

    open spec fn eq_spec(&self, other: &Self) -> bool {
        same_ratio(self@, other@)
    }
}

/// The product of a sequence of fractions, from one.
pub open spec fn product_ratios(s: Seq<(int, int)>) -> (int, int)
    decreases s.len(),
{
    if s.len() == 0 {
        int_ratio(1)
    } else {
        mul_ratio(product_ratios(s.drop_last()), s.last())
    }
}

/// The sum of a sequence of fractions, from zero.
pub open spec fn sum_ratios(s: Seq<(int, int)>) -> (int, int)
    decreases s.len(),
{
    if s.len() == 0 {
        int_ratio(0)
    } else {
        add_ratio(sum_ratios(s.drop_last()), s.last())
    }
}

} // verus!
