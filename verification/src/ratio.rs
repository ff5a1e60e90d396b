//! Fractions as pairs of integers `(numerator, denominator)`, the model that
//! the contracts of [`SmartBigRational`](crate::SmartBigRational) speak of,
//! and the laws of their arithmetic.
use vstd::arithmetic::mul::*;
use vstd::arithmetic::power::*;
use vstd::prelude::*;

verus! {

/// Two fractions denote the same rational number.
pub open spec fn same_ratio(a: (int, int), b: (int, int)) -> bool {
    a.0 * b.1 == b.0 * a.1
}

/// `a` is below `b`, for positive denominators.
pub open spec fn less_ratio(a: (int, int), b: (int, int)) -> bool {
    a.0 * b.1 < b.0 * a.1
}

/// Sum of two fractions.
pub open spec fn add_ratio(a: (int, int), b: (int, int)) -> (int, int) {
    (a.0 * b.1 + b.0 * a.1, a.1 * b.1)
}

/// Difference of two fractions.
pub open spec fn sub_ratio(a: (int, int), b: (int, int)) -> (int, int) {
    (a.0 * b.1 - b.0 * a.1, a.1 * b.1)
}

/// Product of two fractions.
pub open spec fn mul_ratio(a: (int, int), b: (int, int)) -> (int, int) {
    (a.0 * b.0, a.1 * b.1)
}

/// Quotient of two fractions.
pub open spec fn div_ratio(a: (int, int), b: (int, int)) -> (int, int) {
    (a.0 * b.1, a.1 * b.0)
}

/// Opposite of a fraction.
pub open spec fn neg_ratio(a: (int, int)) -> (int, int) {
    (-a.0, a.1)
}

/// Power of a fraction.
pub open spec fn pow_ratio(a: (int, int), e: nat) -> (int, int) {
    (pow(a.0, e), pow(a.1, e))
}

/// The fraction of an integer.
pub open spec fn int_ratio(x: int) -> (int, int) {
    (x, 1)
}

/// Every fraction denotes the same number as itself.
pub proof fn law_same_ratio_reflexive(a: (int, int))
    ensures
        same_ratio(a, a),
{
}

/// Denoting the same number is symmetric.
pub proof fn law_same_ratio_symmetric(a: (int, int), b: (int, int))
    requires
        same_ratio(a, b),
    ensures
        same_ratio(b, a),
{
}

/// Denoting the same number is transitive, through a fraction with a nonzero
/// denominator.
pub proof fn law_same_ratio_transitive(a: (int, int), b: (int, int), c: (int, int))
    requires
        b.1 != 0,
        same_ratio(a, b),
        same_ratio(b, c),
    ensures
        same_ratio(a, c),
{
    let (a0, a1, b0, b1, c0, c1) = (a.0, a.1, b.0, b.1, c.0, c.1);
    assert((a0 * c1) * b1 == (a0 * b1) * c1) by (nonlinear_arith);
    assert((c0 * a1) * b1 == (b1 * c0) * a1) by (nonlinear_arith);
    assert((b0 * a1) * c1 == (b0 * c1) * a1) by (nonlinear_arith);
    assert((a0 * c1) * b1 == (c0 * a1) * b1);
    lemma_mul_is_commutative(a0 * c1, b1);
    lemma_mul_is_commutative(c0 * a1, b1);
    lemma_mul_equality_converse(b1, a0 * c1, c0 * a1);
}

/// Sums of fractions denoting the same numbers denote the same number.
pub proof fn law_add_congruent(a: (int, int), b: (int, int), c: (int, int), d: (int, int))
    requires
        same_ratio(a, c),
        same_ratio(b, d),
    ensures
        same_ratio(add_ratio(a, b), add_ratio(c, d)),
{
    let (a0, a1, b0, b1, c0, c1, d0, d1) = (a.0, a.1, b.0, b.1, c.0, c.1, d.0, d.1);
    lemma_mul_is_distributive_add_other_way(c1 * d1, a0 * b1, b0 * a1);
    lemma_mul_is_distributive_add_other_way(a1 * b1, c0 * d1, d0 * c1);
    assert((a0 * b1) * (c1 * d1) == (a0 * c1) * (b1 * d1)) by (nonlinear_arith);
    assert((b0 * a1) * (c1 * d1) == (b0 * d1) * (a1 * c1)) by (nonlinear_arith);
    assert((c0 * d1) * (a1 * b1) == (c0 * a1) * (b1 * d1)) by (nonlinear_arith);
    assert((d0 * c1) * (a1 * b1) == (d0 * b1) * (a1 * c1)) by (nonlinear_arith);
}

/// Differences of fractions denoting the same numbers denote the same
/// number.
pub proof fn law_sub_congruent(a: (int, int), b: (int, int), c: (int, int), d: (int, int))
    requires
        same_ratio(a, c),
        same_ratio(b, d),
    ensures
        same_ratio(sub_ratio(a, b), sub_ratio(c, d)),
{
    let (a0, a1, b0, b1, c0, c1, d0, d1) = (a.0, a.1, b.0, b.1, c.0, c.1, d.0, d.1);
    lemma_mul_is_distributive_sub_other_way(c1 * d1, a0 * b1, b0 * a1);
    lemma_mul_is_distributive_sub_other_way(a1 * b1, c0 * d1, d0 * c1);
    assert((a0 * b1) * (c1 * d1) == (a0 * c1) * (b1 * d1)) by (nonlinear_arith);
    assert((b0 * a1) * (c1 * d1) == (b0 * d1) * (a1 * c1)) by (nonlinear_arith);
    assert((c0 * d1) * (a1 * b1) == (c0 * a1) * (b1 * d1)) by (nonlinear_arith);
    assert((d0 * c1) * (a1 * b1) == (d0 * b1) * (a1 * c1)) by (nonlinear_arith);
}

/// Products of fractions denoting the same numbers denote the same number.
pub proof fn law_mul_congruent(a: (int, int), b: (int, int), c: (int, int), d: (int, int))
    requires
        same_ratio(a, c),
        same_ratio(b, d),
    ensures
        same_ratio(mul_ratio(a, b), mul_ratio(c, d)),
{
    let (a0, a1, b0, b1, c0, c1, d0, d1) = (a.0, a.1, b.0, b.1, c.0, c.1, d.0, d.1);
    assert((a0 * b0) * (c1 * d1) == (a0 * c1) * (b0 * d1)) by (nonlinear_arith);
    assert((c0 * d0) * (a1 * b1) == (c0 * a1) * (d0 * b1)) by (nonlinear_arith);
}

/// Quotients of fractions denoting the same numbers denote the same number.
pub proof fn law_div_congruent(a: (int, int), b: (int, int), c: (int, int), d: (int, int))
    requires
        same_ratio(a, c),
        same_ratio(b, d),
    ensures
        same_ratio(div_ratio(a, b), div_ratio(c, d)),
{
    let (a0, a1, b0, b1, c0, c1, d0, d1) = (a.0, a.1, b.0, b.1, c.0, c.1, d.0, d.1);
    assert((a0 * b1) * (c1 * d0) == (a0 * c1) * (d0 * b1)) by (nonlinear_arith);
    assert((c0 * d1) * (a1 * b0) == (c0 * a1) * (b0 * d1)) by (nonlinear_arith);
}

/// Opposites of fractions denoting the same number denote the same number.
pub proof fn law_neg_congruent(a: (int, int), c: (int, int))
    requires
        same_ratio(a, c),
    ensures
        same_ratio(neg_ratio(a), neg_ratio(c)),
{
    lemma_mul_unary_negation(a.0, c.1);
    lemma_mul_unary_negation(c.0, a.1);
}

/// Addition is commutative.
pub proof fn law_add_commutative(a: (int, int), b: (int, int))
    ensures
        same_ratio(add_ratio(a, b), add_ratio(b, a)),
{
    assert((a.0 * b.1 + b.0 * a.1) * (b.1 * a.1) == (b.0 * a.1 + a.0 * b.1) * (a.1 * b.1))
        by (nonlinear_arith);
}

/// Addition is associative.
pub proof fn law_add_associative(a: (int, int), b: (int, int), c: (int, int))
    ensures
        same_ratio(add_ratio(add_ratio(a, b), c), add_ratio(a, add_ratio(b, c))),
{
    let (a0, a1, b0, b1, c0, c1) = (a.0, a.1, b.0, b.1, c.0, c.1);
    assert((a0 * b1 + b0 * a1) * c1 + c0 * (a1 * b1) == a0 * (b1 * c1) + (b0 * c1 + c0 * b1)
        * a1) by (nonlinear_arith);
    assert((a1 * b1) * c1 == a1 * (b1 * c1)) by (nonlinear_arith);
}

/// Zero is neutral for addition, on either side, and for subtraction on the
/// right.
pub proof fn law_zero_add_neutral(a: (int, int))
    requires
        a.1 > 0,
    ensures
        same_ratio(add_ratio(a, int_ratio(0)), a),
        same_ratio(add_ratio(int_ratio(0), a), a),
        same_ratio(sub_ratio(a, int_ratio(0)), a),
{
    assert(add_ratio(a, int_ratio(0)).0 * a.1 == a.0 * (a.1 * 1)) by (nonlinear_arith);
    assert(add_ratio(int_ratio(0), a).0 * a.1 == a.0 * (1 * a.1)) by (nonlinear_arith);
    assert(sub_ratio(a, int_ratio(0)).0 * a.1 == a.0 * (a.1 * 1)) by (nonlinear_arith);
}

/// The opposite of the opposite is the fraction itself, and so is zero minus
/// zero minus it.
pub proof fn law_opposite(a: (int, int))
    requires
        a.1 > 0,
    ensures
        same_ratio(neg_ratio(neg_ratio(a)), a),
        same_ratio(sub_ratio(int_ratio(0), sub_ratio(int_ratio(0), a)), a),
{
    let (a0, a1) = (a.0, a.1);
    assert(0 * a1 - a0 * 1 == -a0) by (nonlinear_arith);
    assert(1 * a1 == a1) by (nonlinear_arith);
    assert(0 * a1 - (-a0) * 1 == a0) by (nonlinear_arith);
}

/// A fraction minus itself is zero.
pub proof fn law_sub_self(a: (int, int))
    requires
        a.1 > 0,
    ensures
        same_ratio(sub_ratio(a, a), int_ratio(0)),
{
    let (a0, a1) = (a.0, a.1);
    assert((a0 * a1 - a0 * a1) * 1 == 0 * (a1 * a1)) by (nonlinear_arith);
}

/// Adding then subtracting the same fraction gives back the first one.
pub proof fn law_add_sub(a: (int, int), b: (int, int))
    requires
        a.1 > 0,
        b.1 > 0,
    ensures
        same_ratio(sub_ratio(add_ratio(a, b), b), a),
{
    let (a0, a1, b0, b1) = (a.0, a.1, b.0, b.1);
    assert(((a0 * b1 + b0 * a1) * b1 - b0 * (a1 * b1)) * a1 == a0 * ((a1 * b1) * b1))
        by (nonlinear_arith);
}

/// Subtracting then adding the same fraction gives back the first one.
pub proof fn law_sub_add(a: (int, int), b: (int, int))
    requires
        a.1 > 0,
        b.1 > 0,
    ensures
        same_ratio(add_ratio(sub_ratio(a, b), b), a),
{
    let (a0, a1, b0, b1) = (a.0, a.1, b.0, b.1);
    assert(((a0 * b1 - b0 * a1) * b1 + b0 * (a1 * b1)) * a1 == a0 * ((a1 * b1) * b1))
        by (nonlinear_arith);
}

/// One is neutral for multiplication, on either side.
pub proof fn law_one_mul_neutral(a: (int, int))
    ensures
        same_ratio(mul_ratio(a, int_ratio(1)), a),
        same_ratio(mul_ratio(int_ratio(1), a), a),
{
    let (a0, a1) = (a.0, a.1);
    assert((a0 * 1) * a1 == a0 * (a1 * 1)) by (nonlinear_arith);
    assert((1 * a0) * a1 == a0 * (1 * a1)) by (nonlinear_arith);
}

/// Multiplication is commutative.
pub proof fn law_mul_commutative(a: (int, int), b: (int, int))
    ensures
        same_ratio(mul_ratio(a, b), mul_ratio(b, a)),
{
    assert((a.0 * b.0) * (b.1 * a.1) == (b.0 * a.0) * (a.1 * b.1)) by (nonlinear_arith);
}

/// Multiplication is associative.
pub proof fn law_mul_associative(a: (int, int), b: (int, int), c: (int, int))
    ensures
        same_ratio(mul_ratio(mul_ratio(a, b), c), mul_ratio(a, mul_ratio(b, c))),
{
    assert(((a.0 * b.0) * c.0) * (a.1 * (b.1 * c.1)) == (a.0 * (b.0 * c.0)) * ((a.1 * b.1) * c.1))
        by (nonlinear_arith);
}

/// Multiplication distributes over addition.
pub proof fn law_mul_distributive(a: (int, int), b: (int, int), c: (int, int))
    ensures
        same_ratio(mul_ratio(a, add_ratio(b, c)), add_ratio(mul_ratio(a, b), mul_ratio(a, c))),
{
    let (a0, a1, b0, b1, c0, c1) = (a.0, a.1, b.0, b.1, c.0, c.1);
    let l0 = a0 * (b0 * c1 + c0 * b1);
    let l1 = a1 * (b1 * c1);
    let r0 = (a0 * b0) * (a1 * c1) + (a0 * c0) * (a1 * b1);
    let r1 = (a1 * b1) * (a1 * c1);
    lemma_mul_is_distributive_add(a0, b0 * c1, c0 * b1);
    lemma_mul_is_distributive_add(a1, a0 * (b0 * c1), a0 * (c0 * b1));
    assert((a0 * b0) * (a1 * c1) == a1 * (a0 * (b0 * c1))) by (nonlinear_arith);
    assert((a0 * c0) * (a1 * b1) == a1 * (a0 * (c0 * b1))) by (nonlinear_arith);
    assert((a1 * b1) * (a1 * c1) == a1 * (a1 * (b1 * c1))) by (nonlinear_arith);
    assert(r0 == a1 * l0);
    assert(l0 * (a1 * l1) == (a1 * l0) * l1) by (nonlinear_arith);
}

/// One is neutral for division on the right.
pub proof fn law_one_div_neutral(a: (int, int))
    ensures
        same_ratio(div_ratio(a, int_ratio(1)), a),
{
    let (a0, a1) = (a.0, a.1);
    assert((a0 * 1) * a1 == a0 * (a1 * 1)) by (nonlinear_arith);
}

/// A nonzero fraction divided by itself is one.
pub proof fn law_div_self(a: (int, int))
    requires
        a.0 != 0,
        a.1 > 0,
    ensures
        same_ratio(div_ratio(a, a), int_ratio(1)),
{
    let (a0, a1) = (a.0, a.1);
    assert((a0 * a1) * 1 == 1 * (a1 * a0)) by (nonlinear_arith);
}

/// Multiplying then dividing by the same nonzero fraction gives back the
/// first one.
pub proof fn law_mul_div(a: (int, int), b: (int, int))
    requires
        b.0 != 0,
        b.1 > 0,
    ensures
        same_ratio(div_ratio(mul_ratio(a, b), b), a),
{
    let (a0, a1, b0, b1) = (a.0, a.1, b.0, b.1);
    assert(((a0 * b0) * b1) * a1 == a0 * ((a1 * b1) * b0)) by (nonlinear_arith);
}

/// Fractions with positive denominators have a product of denominators that
/// is positive.
proof fn lemma_denominators_positive(a: (int, int), b: (int, int))
    requires
        a.1 > 0,
        b.1 > 0,
    ensures
        add_ratio(a, b).1 > 0,
        sub_ratio(a, b).1 > 0,
        mul_ratio(a, b).1 > 0,
{
    assert(a.1 * b.1 > 0) by (nonlinear_arith)
        requires
            a.1 > 0,
            b.1 > 0,
    ;
}

/// Computed sums commute: a value `ab` denoting `a + b` and a value `ba`
/// denoting `b + a` are equal.
pub proof fn law_computed_add_commutative(a: (int, int), b: (int, int), ab: (int, int), ba: (int, int))
    requires
        a.1 > 0,
        b.1 > 0,
        same_ratio(ab, add_ratio(a, b)),
        same_ratio(ba, add_ratio(b, a)),
    ensures
        same_ratio(ab, ba),
{
    lemma_denominators_positive(a, b);
    lemma_denominators_positive(b, a);
    law_add_commutative(a, b);
    law_same_ratio_transitive(ab, add_ratio(a, b), add_ratio(b, a));
    law_same_ratio_symmetric(ba, add_ratio(b, a));
    law_same_ratio_transitive(ab, add_ratio(b, a), ba);
}

/// Computed sums associate: `(a + b) + c` and `a + (b + c)`, each computed
/// one operation at a time, are equal.
pub proof fn law_computed_add_associative(
    a: (int, int),
    b: (int, int),
    c: (int, int),
    ab: (int, int),
    ab_c: (int, int),
    bc: (int, int),
    a_bc: (int, int),
)
    requires
        a.1 > 0,
        b.1 > 0,
        c.1 > 0,
        ab.1 > 0,
        bc.1 > 0,
        same_ratio(ab, add_ratio(a, b)),
        same_ratio(ab_c, add_ratio(ab, c)),
        same_ratio(bc, add_ratio(b, c)),
        same_ratio(a_bc, add_ratio(a, bc)),
    ensures
        same_ratio(ab_c, a_bc),
{
    lemma_denominators_positive(ab, c);
    lemma_denominators_positive(a, bc);
    lemma_denominators_positive(a, b);
    lemma_denominators_positive(b, c);
    lemma_denominators_positive(add_ratio(a, b), c);
    lemma_denominators_positive(a, add_ratio(b, c));
    law_same_ratio_reflexive(c);
    law_same_ratio_reflexive(a);
    law_add_congruent(ab, c, add_ratio(a, b), c);
    law_add_congruent(a, bc, a, add_ratio(b, c));
    law_add_associative(a, b, c);
    let l = add_ratio(add_ratio(a, b), c);
    let r = add_ratio(a, add_ratio(b, c));
    law_same_ratio_transitive(ab_c, add_ratio(ab, c), l);
    law_same_ratio_transitive(ab_c, l, r);
    law_same_ratio_transitive(a_bc, add_ratio(a, bc), r);
    law_same_ratio_symmetric(a_bc, r);
    law_same_ratio_transitive(ab_c, r, a_bc);
}

/// Computed products commute.
pub proof fn law_computed_mul_commutative(a: (int, int), b: (int, int), ab: (int, int), ba: (int, int))
    requires
        a.1 > 0,
        b.1 > 0,
        same_ratio(ab, mul_ratio(a, b)),
        same_ratio(ba, mul_ratio(b, a)),
    ensures
        same_ratio(ab, ba),
{
    lemma_denominators_positive(a, b);
    lemma_denominators_positive(b, a);
    law_mul_commutative(a, b);
    law_same_ratio_transitive(ab, mul_ratio(a, b), mul_ratio(b, a));
    law_same_ratio_symmetric(ba, mul_ratio(b, a));
    law_same_ratio_transitive(ab, mul_ratio(b, a), ba);
}

/// Computed products associate.
pub proof fn law_computed_mul_associative(
    a: (int, int),
    b: (int, int),
    c: (int, int),
    ab: (int, int),
    ab_c: (int, int),
    bc: (int, int),
    a_bc: (int, int),
)
    requires
        a.1 > 0,
        b.1 > 0,
        c.1 > 0,
        ab.1 > 0,
        bc.1 > 0,
        same_ratio(ab, mul_ratio(a, b)),
        same_ratio(ab_c, mul_ratio(ab, c)),
        same_ratio(bc, mul_ratio(b, c)),
        same_ratio(a_bc, mul_ratio(a, bc)),
    ensures
        same_ratio(ab_c, a_bc),
{
    lemma_denominators_positive(ab, c);
    lemma_denominators_positive(a, bc);
    lemma_denominators_positive(a, b);
    lemma_denominators_positive(b, c);
    lemma_denominators_positive(mul_ratio(a, b), c);
    lemma_denominators_positive(a, mul_ratio(b, c));
    law_same_ratio_reflexive(c);
    law_same_ratio_reflexive(a);
    law_mul_congruent(ab, c, mul_ratio(a, b), c);
    law_mul_congruent(a, bc, a, mul_ratio(b, c));
    law_mul_associative(a, b, c);
    let l = mul_ratio(mul_ratio(a, b), c);
    let r = mul_ratio(a, mul_ratio(b, c));
    law_same_ratio_transitive(ab_c, mul_ratio(ab, c), l);
    law_same_ratio_transitive(ab_c, l, r);
    law_same_ratio_transitive(a_bc, mul_ratio(a, bc), r);
    law_same_ratio_symmetric(a_bc, r);
    law_same_ratio_transitive(ab_c, r, a_bc);
}

/// Computed products distribute over computed sums: `a * (b + c)` equals
/// `(a * b) + (a * c)`.
pub proof fn law_computed_mul_distributive(
    a: (int, int),
    b: (int, int),
    c: (int, int),
    bc: (int, int),
    a_bc: (int, int),
    ab: (int, int),
    ac: (int, int),
    ab_ac: (int, int),
)
    requires
        a.1 > 0,
        b.1 > 0,
        c.1 > 0,
        bc.1 > 0,
        ab.1 > 0,
        ac.1 > 0,
        same_ratio(bc, add_ratio(b, c)),
        same_ratio(a_bc, mul_ratio(a, bc)),
        same_ratio(ab, mul_ratio(a, b)),
        same_ratio(ac, mul_ratio(a, c)),
        same_ratio(ab_ac, add_ratio(ab, ac)),
    ensures
        same_ratio(a_bc, ab_ac),
{
    lemma_denominators_positive(a, bc);
    lemma_denominators_positive(ab, ac);
    lemma_denominators_positive(b, c);
    lemma_denominators_positive(a, b);
    lemma_denominators_positive(a, c);
    lemma_denominators_positive(a, add_ratio(b, c));
    lemma_denominators_positive(mul_ratio(a, b), mul_ratio(a, c));
    law_same_ratio_reflexive(a);
    law_mul_congruent(a, bc, a, add_ratio(b, c));
    law_add_congruent(ab, ac, mul_ratio(a, b), mul_ratio(a, c));
    law_mul_distributive(a, b, c);
    let l = mul_ratio(a, add_ratio(b, c));
    let r = add_ratio(mul_ratio(a, b), mul_ratio(a, c));
    law_same_ratio_transitive(a_bc, mul_ratio(a, bc), l);
    law_same_ratio_transitive(a_bc, l, r);
    law_same_ratio_transitive(ab_ac, add_ratio(ab, ac), r);
    law_same_ratio_symmetric(ab_ac, r);
    law_same_ratio_transitive(a_bc, r, ab_ac);
}

/// A computed sum minus the value added gives back the first value:
/// `(a + b) - b` equals `a`.
pub proof fn law_computed_add_sub(a: (int, int), b: (int, int), ab: (int, int), ab_b: (int, int))
    requires
        a.1 > 0,
        b.1 > 0,
        ab.1 > 0,
        same_ratio(ab, add_ratio(a, b)),
        same_ratio(ab_b, sub_ratio(ab, b)),
    ensures
        same_ratio(ab_b, a),
{
    lemma_denominators_positive(a, b);
    lemma_denominators_positive(ab, b);
    lemma_denominators_positive(add_ratio(a, b), b);
    law_same_ratio_reflexive(b);
    law_sub_congruent(ab, b, add_ratio(a, b), b);
    law_add_sub(a, b);
    law_same_ratio_transitive(ab_b, sub_ratio(ab, b), sub_ratio(add_ratio(a, b), b));
    law_same_ratio_transitive(ab_b, sub_ratio(add_ratio(a, b), b), a);
}

/// A computed difference plus the value subtracted gives back the first
/// value: `(a - b) + b` equals `a`.
pub proof fn law_computed_sub_add(a: (int, int), b: (int, int), ab: (int, int), ab_b: (int, int))
    requires
        a.1 > 0,
        b.1 > 0,
        ab.1 > 0,
        same_ratio(ab, sub_ratio(a, b)),
        same_ratio(ab_b, add_ratio(ab, b)),
    ensures
        same_ratio(ab_b, a),
{
    lemma_denominators_positive(a, b);
    lemma_denominators_positive(ab, b);
    lemma_denominators_positive(sub_ratio(a, b), b);
    law_same_ratio_reflexive(b);
    law_add_congruent(ab, b, sub_ratio(a, b), b);
    law_sub_add(a, b);
    law_same_ratio_transitive(ab_b, add_ratio(ab, b), add_ratio(sub_ratio(a, b), b));
    law_same_ratio_transitive(ab_b, add_ratio(sub_ratio(a, b), b), a);
}

/// A computed product divided by a nonzero factor gives back the other
/// factor: `(a * b) / b` equals `a`.
pub proof fn law_computed_mul_div(a: (int, int), b: (int, int), ab: (int, int), ab_b: (int, int))
    requires
        a.1 > 0,
        b.0 != 0,
        b.1 > 0,
        ab.1 > 0,
        same_ratio(ab, mul_ratio(a, b)),
        same_ratio(ab_b, div_ratio(ab, b)),
    ensures
        same_ratio(ab_b, a),
{
    lemma_denominators_positive(a, b);
    assert(ab.1 * b.0 != 0) by (nonlinear_arith)
        requires
            ab.1 > 0,
            b.0 != 0,
    ;
    assert(a.1 * b.1 * b.0 != 0) by (nonlinear_arith)
        requires
            a.1 > 0,
            b.1 > 0,
            b.0 != 0,
    ;
    law_same_ratio_reflexive(b);
    law_div_congruent(ab, b, mul_ratio(a, b), b);
    law_mul_div(a, b);
    law_same_ratio_transitive(ab_b, div_ratio(ab, b), div_ratio(mul_ratio(a, b), b));
    law_same_ratio_transitive(ab_b, div_ratio(mul_ratio(a, b), b), a);
}

/// The opposite of a computed opposite gives back the value, and so does
/// zero minus zero minus it.
pub proof fn law_computed_opposite(a: (int, int), mm: (int, int), z: (int, int), zz: (int, int))
    requires
        a.1 > 0,
        z.1 > 0,
        mm == neg_ratio(neg_ratio(a)),
        same_ratio(z, sub_ratio(int_ratio(0), a)),
        same_ratio(zz, sub_ratio(int_ratio(0), z)),
    ensures
        same_ratio(mm, a),
        same_ratio(zz, a),
{
    law_opposite(a);
    lemma_denominators_positive(int_ratio(0), a);
    lemma_denominators_positive(int_ratio(0), z);
    lemma_denominators_positive(int_ratio(0), sub_ratio(int_ratio(0), a));
    law_same_ratio_reflexive(int_ratio(0));
    law_sub_congruent(int_ratio(0), z, int_ratio(0), sub_ratio(int_ratio(0), a));
    let w = sub_ratio(int_ratio(0), sub_ratio(int_ratio(0), a));
    law_same_ratio_transitive(zz, sub_ratio(int_ratio(0), z), w);
    law_same_ratio_transitive(zz, w, a);
}

/// A computed value minus itself is zero, and a nonzero value divided by
/// itself is one.
pub proof fn law_computed_self_inverse(a: (int, int), d: (int, int), q: (int, int))
    requires
        a.1 > 0,
        same_ratio(d, sub_ratio(a, a)),
        a.0 != 0 ==> same_ratio(q, div_ratio(a, a)),
    ensures
        same_ratio(d, int_ratio(0)),
        a.0 != 0 ==> same_ratio(q, int_ratio(1)),
{
    lemma_denominators_positive(a, a);
    law_sub_self(a);
    law_same_ratio_transitive(d, sub_ratio(a, a), int_ratio(0));
    if a.0 != 0 {
        law_div_self(a);
        assert(a.1 * a.0 != 0) by (nonlinear_arith)
            requires
                a.1 > 0,
                a.0 != 0,
        ;
        law_same_ratio_transitive(q, div_ratio(a, a), int_ratio(1));
    }
}

/// Computing with zero and one as neutral elements gives back the value:
/// `a + 0`, `0 + a`, `a - 0`, `a * 1`, `1 * a` and `a / 1` all equal `a`.
pub proof fn law_computed_neutral(
    a: (int, int),
    s1: (int, int),
    s2: (int, int),
    s3: (int, int),
    p1: (int, int),
    p2: (int, int),
    q: (int, int),
)
    requires
        a.1 > 0,
        same_ratio(s1, add_ratio(a, int_ratio(0))),
        same_ratio(s2, add_ratio(int_ratio(0), a)),
        same_ratio(s3, sub_ratio(a, int_ratio(0))),
        p1 == mul_ratio(a, int_ratio(1)),
        p2 == mul_ratio(int_ratio(1), a),
        same_ratio(q, div_ratio(a, int_ratio(1))),
    ensures
        same_ratio(s1, a),
        same_ratio(s2, a),
        same_ratio(s3, a),
        same_ratio(p1, a),
        same_ratio(p2, a),
        same_ratio(q, a),
{
    law_zero_add_neutral(a);
    law_one_mul_neutral(a);
    law_one_div_neutral(a);
    lemma_denominators_positive(a, int_ratio(0));
    lemma_denominators_positive(int_ratio(0), a);
    law_same_ratio_transitive(s1, add_ratio(a, int_ratio(0)), a);
    law_same_ratio_transitive(s2, add_ratio(int_ratio(0), a), a);
    law_same_ratio_transitive(s3, sub_ratio(a, int_ratio(0)), a);
    assert(a.1 * 1 != 0) by (nonlinear_arith)
        requires
            a.1 > 0,
    ;
    law_same_ratio_transitive(q, div_ratio(a, int_ratio(1)), a);
}

} // verus!
