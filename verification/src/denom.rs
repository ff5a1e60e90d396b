//! The interface of positive denominators, and the products of powers of
//! basis primes that denominators are made of.
use crate::bignum::{Integer, Natural};
use crate::primes::{basis_prime, lemma_basis_prime};
use vstd::arithmetic::mul::*;
use vstd::arithmetic::power::*;
use vstd::prelude::*;

verus! {

/// Interface representing the positive denominator of a rational number,
/// suitable for use in a [`SmartBigRational`](crate::SmartBigRational).
pub trait Denom: Sized {
    /// The value of this denominator.
    spec fn denom_value(&self) -> nat;

    /// The representation is well formed; its value is then positive.
    spec fn wf(&self) -> bool;

    /// The type's parameters are supported by its representation.
    spec fn supported() -> bool;

    /// A well-formed denominator is positive, and its type is supported.
    proof fn lemma_positive(&self)
        requires
            self.wf(),
        ensures
            self.denom_value() > 0,
            Self::supported(),
    ;

    /// The representation is the one that the conversions give: each small
    /// prime is divided out of what the representation doesn't decompose as
    /// long as its exponent doesn't saturate.
    spec fn is_canonical(&self) -> bool;

    /// Both representations list the same exponents and the same remainder.
    spec fn same_repr(&self, other: &Self) -> bool;

    /// This is the representation that the product of `a` and `b` is given.
    spec fn is_product_of(&self, a: &Self, b: &Self) -> bool;

    /// This is the representation that the `e`-th power of `a` is given.
    spec fn is_power_of(&self, a: &Self, e: u32) -> bool;

    /// This is the representation that the common multiple of `a` and `b`
    /// is given: per listed prime the larger exponent, and the least common
    /// multiple of the remainders.
    spec fn is_common_multiple_of(&self, a: &Self, b: &Self) -> bool;

    /// Constant value of 1.
    fn one() -> (r: Self)
        requires
            Self::supported(),
        ensures
            r.wf(),
            r.denom_value() == 1,
            r.is_canonical(),
    ;

    /// A copy of this denominator.
    fn copy(&self) -> (r: Self)
        requires
            self.wf(),
        ensures
            r.wf(),
            r.denom_value() == self.denom_value(),
            self.is_canonical() ==> r.is_canonical(),
            r.same_repr(self),
    ;

    /// The denominator of the given positive value.
    fn from_natural(x: &Natural) -> (r: Self)
        requires
            Self::supported(),
            x@ > 0,
        ensures
            r.wf(),
            r.denom_value() == x@,
            r.is_canonical(),
    ;

    /// Converts this denominator into a big integer.
    fn to_natural(&self) -> (r: Natural)
        requires
            self.wf(),
        ensures
            r@ == self.denom_value(),
    ;

    /// Product of two denominators.
    fn mul(&self, rhs: &Self) -> (r: Self)
        requires
            self.wf(),
            rhs.wf(),
        ensures
            r.wf(),
            r.denom_value() == self.denom_value() * rhs.denom_value(),
            r.is_product_of(self, rhs),
    ;

    /// Power of a denominator, for the exponents that the representation
    /// supports.
    spec fn pow_supported(&self, e: u32) -> bool;

    /// Power of a denominator.
    fn pow(&self, e: u32) -> (r: Self)
        requires
            self.wf(),
            self.pow_supported(e),
        ensures
            r.wf(),
            r.denom_value() == pow(self.denom_value() as int, e as nat),
            r.is_power_of(self, e),
    ;

    /// Product of an integer by this denominator.
    fn mul_integer(&self, x: &Integer) -> (r: Integer)
        requires
            self.wf(),
        ensures
            r@ == x@ * self.denom_value(),
    ;

    /// Returns a common multiple of two denominators, adjusting the
    /// numerators accordingly: `lnum / ldenom` and `rnum / rdenom` keep their
    /// values over the returned denominator.
    fn normalize(lnum: &mut Integer, rnum: &mut Integer, ldenom: &Self, rdenom: &Self) -> (r: Self)
        requires
            ldenom.wf(),
            rdenom.wf(),
        ensures
            r.wf(),
            final(lnum)@ * ldenom.denom_value() == old(lnum)@ * r.denom_value(),
            final(rnum)@ * rdenom.denom_value() == old(rnum)@ * r.denom_value(),
            r.is_common_multiple_of(ldenom, rdenom),
    ;

    /// The numerator shares none of the factors that this representation
    /// lists: no listed prime of a positive exponent divides it, and it is
    /// coprime with what the representation doesn't decompose.
    spec fn coprime_with(&self, num: int) -> bool;

    /// Reduces this denominator together with the given numerator, keeping the
    /// value of the fraction and dividing the denominator.
    fn gcd_reduce(&mut self, num: &mut Integer)
        requires
            old(self).wf(),
        ensures
            final(self).wf(),
            final(self).coprime_with(final(num)@),
            final(num)@ * old(self).denom_value() == old(num)@ * final(self).denom_value(),
            old(self).denom_value() % final(self).denom_value() == 0,
            old(self).is_canonical() ==> final(self).is_canonical(),
    ;
}

/// Marker for references to a [`Denom`]: the operations on `&D` are the
/// methods of [`Denom`] taking `&self`.
pub trait DenomRef<D: Denom> {
}

/// The exponents of a sequence of counts, as natural numbers.
pub open spec fn exps(s: Seq<u8>) -> Seq<nat> {
    Seq::new(s.len(), |i: int| s[i] as nat)
}

/// The product of `basis_prime(i)^e[i]`.
pub open spec fn basis_product(e: Seq<nat>) -> nat
    decreases e.len(),
{
    if e.len() == 0 {
        1
    } else {
        basis_product(e.drop_last()) * pow(
            basis_prime((e.len() - 1) as nat) as int,
            e.last(),
        ) as nat
    }
}

/// A power of a basis prime is positive.
pub proof fn lemma_basis_pow_pos(i: nat, e: nat)
    ensures
        pow(basis_prime(i) as int, e) >= 1,
{
    lemma_basis_prime(i, i);
    lemma_pow_positive(basis_prime(i) as int, e);
}

/// A product of powers of basis primes is positive.
pub proof fn lemma_basis_product_pos(e: Seq<nat>)
    ensures
        basis_product(e) >= 1,
    decreases e.len(),
{
    if e.len() > 0 {
        lemma_basis_product_pos(e.drop_last());
        lemma_basis_pow_pos((e.len() - 1) as nat, e.last());
        lemma_mul_strictly_positive(
            basis_product(e.drop_last()) as int,
            pow(basis_prime((e.len() - 1) as nat) as int, e.last()),
        );
    }
}

/// Appending an exponent multiplies the product by a power of the next
/// basis prime.
pub proof fn lemma_basis_product_push(e: Seq<nat>, x: nat)
    ensures
        basis_product(e.push(x)) == basis_product(e) * pow(basis_prime(e.len()) as int, x),
{
    assert(e.push(x).drop_last() =~= e);
    lemma_basis_pow_pos(e.len(), x);
}

/// Exponents of a sequence with one more count.
pub proof fn lemma_exps_push(s: Seq<u8>, x: u8)
    ensures
        exps(s.push(x)) == exps(s).push(x as nat),
{
    assert(exps(s.push(x)) =~= exps(s).push(x as nat));
}

/// Adding exponents pointwise multiplies the products.
pub proof fn lemma_basis_product_add(a: Seq<nat>, b: Seq<nat>, c: Seq<nat>)
    requires
        a.len() == b.len(),
        c.len() == a.len(),
        forall|i: int| 0 <= i < c.len() ==> #[trigger] c[i] == a[i] + b[i],
    ensures
        basis_product(c) == basis_product(a) * basis_product(b),
    decreases c.len(),
{
    if c.len() > 0 {
        let n = (c.len() - 1) as nat;
        lemma_basis_product_add(a.drop_last(), b.drop_last(), c.drop_last());
        let p = basis_prime(n) as int;
        lemma_pow_adds(p, a.last(), b.last());
        assert(c.last() == a.last() + b.last());
        lemma_basis_pow_pos(n, a.last());
        lemma_basis_pow_pos(n, b.last());
        lemma_basis_pow_pos(n, c.last());
        let pa = basis_product(a.drop_last()) as int;
        let pb = basis_product(b.drop_last()) as int;
        let xa = pow(p, a.last());
        let xb = pow(p, b.last());
        assert((pa * pb) * (xa * xb) == (pa * xa) * (pb * xb)) by (nonlinear_arith);
        assert(pow(p, c.last()) == xa * xb);
        assert(basis_product(c) == basis_product(c.drop_last()) * pow(p, c.last()));
        assert(basis_product(a) == pa * xa);
        assert(basis_product(b) == pb * xb);
        assert(basis_product(c.drop_last()) == pa * pb);
        assert(basis_product(c) == (pa * pb) * (xa * xb));
    } else {
        assert(basis_product(a) == 1);
        assert(basis_product(b) == 1);
        assert(basis_product(c) == 1);
    }
}

/// Multiplying exponents by `k` takes the product to the power `k`.
pub proof fn lemma_basis_product_scale(a: Seq<nat>, k: nat, c: Seq<nat>)
    requires
        c.len() == a.len(),
        forall|i: int| 0 <= i < c.len() ==> #[trigger] c[i] == a[i] * k,
    ensures
        basis_product(c) == pow(basis_product(a) as int, k),
    decreases c.len(),
{
    if c.len() == 0 {
        lemma1_pow(k);
    } else {
        let n = (c.len() - 1) as nat;
        lemma_basis_product_scale(a.drop_last(), k, c.drop_last());
        let p = basis_prime(n) as int;
        assert(c.last() == a.last() * k);
        lemma_basis_pow_pos(n, c.last());
        lemma_basis_pow_pos(n, a.last());
        lemma_pow_positive(pow(p, a.last()), k);
        lemma_pow_multiplies(p, a.last(), k);
        lemma_pow_distributes(basis_product(a.drop_last()) as int, pow(p, a.last()), k);
        lemma_basis_pow_pos(n, a.last());
        lemma_basis_product_pos(a.drop_last());
    }
}

/// Lowering the exponent at `i` by one divides the product by the `i`-th
/// basis prime.
pub proof fn lemma_basis_product_dec(e: Seq<nat>, i: int)
    requires
        0 <= i < e.len(),
        e[i] >= 1,
    ensures
        basis_product(e.update(i, (e[i] - 1) as nat)) * basis_prime(i as nat) == basis_product(e),
    decreases e.len(),
{
    let f = e.update(i, (e[i] - 1) as nat);
    let n = (e.len() - 1) as nat;
    if i == n {
        assert(f.drop_last() =~= e.drop_last());
        let p = basis_prime(n) as int;
        lemma_basis_pow_pos(n, e.last());
        lemma_basis_pow_pos(n, (e[i] - 1) as nat);
        lemma_pow_adds(p, (e[i] - 1) as nat, 1);
        lemma_pow1(p);
        let q = basis_product(e.drop_last()) as int;
        assert(q * pow(p, (e[i] - 1) as nat) * p == q * (pow(p, (e[i] - 1) as nat) * p))
            by (nonlinear_arith);
    } else {
        assert(f.drop_last() =~= e.drop_last().update(i, (e[i] - 1) as nat));
        lemma_basis_product_dec(e.drop_last(), i);
        lemma_basis_pow_pos(n, e.last());
        assert(f.last() == e.last());
        let q = basis_product(f.drop_last()) as int;
        let x = pow(basis_prime(n) as int, e.last());
        let p = basis_prime(i as nat) as int;
        assert(q * x * p == q * p * x) by (nonlinear_arith);
    }
}

/// Raising the exponent at `i` by one multiplies the product by the `i`-th
/// basis prime.
pub proof fn lemma_basis_product_inc(e: Seq<nat>, i: int)
    requires
        0 <= i < e.len(),
    ensures
        basis_product(e.update(i, e[i] + 1)) == basis_product(e) * basis_prime(i as nat),
{
    let f = e.update(i, e[i] + 1);
    assert(f.update(i, (f[i] - 1) as nat) =~= e);
    lemma_basis_product_dec(f, i);
}

} // verus!
