//! Denominators held as a sparse list of `(prime, exponent)` pairs, times a
//! big natural remainder when that's not sufficient.
use crate::bignum::{
    abs, gcd, lemma_abs_mul, lemma_abs_trunc_div, lemma_coprime_factor, lemma_gcd_coprime_quotients,
    lemma_common_divisor, lemma_gcd_divides, lemma_gcd_one, lcm, lemma_lcm, lemma_trunc_div_exact, lemma_trunc_div_rem, trunc_div,
    Integer, Natural,
};
use crate::denom::{Denom, DenomRef};
use crate::denom_array::{accum_pow, accum_pow_natural};
use crate::denom_array::{
    lemma_mul_at_least_two, lemma_not_divides_factor, lemma_pow2_basis, lemma_pow_at_least_two,
    lemma_odd_not_divides_shifted, lemma_small_power_of_two, lemma_unit_not_divisible, opt_value,
    MAX_BASIS_PRIMES,
};
use crate::prime_dividers::{magic_u16_at, magic_u32_at, magic_u64_at};
use crate::util::{power_of_two_below, OddDivider};
use crate::prime_gaps::NUM_ODD_PRIMES;
use crate::primes::{
    basis_prime, factors_product, is_odd_prime, is_prime, known_odd_prime_factor_indices,
    lemma_basis_prime,
    lemma_odd_prime_bounds,
    lemma_odd_prime_increasing, lemma_pow_base_increases, next_odd_prime, odd_prime,
};
use vstd::arithmetic::div_mod::*;
use vstd::arithmetic::mul::*;
use vstd::arithmetic::power::*;
use vstd::prelude::*;

verus! {

/// Denominator representation that decomposes an integer as a product of
/// powers of the first `NUM_PRIMES` primes (up to 2^16), listed sparsely, and
/// multiplied by a regular big integer when that's not sufficient.
#[derive(Debug, PartialEq, Eq)]
pub struct DenomSparseU16<const NUM_PRIMES: usize> {
    // The representation is canonical when powers of small primes saturate
    // their exponent before overflowing into the remainder.
    primes: Vec<(u16, u16)>,
    remainder: Option<Natural>,
}

/// Denominator representation that decomposes an integer as a product of
/// powers of the first 6542 primes (up to 0xfff1), multiplied by a regular
/// big integer when that's not sufficient.
pub type DenomSparse6542 = DenomSparseU16<6542>;


/// The product of `p^e` over a list of `(p, e)` pairs.
pub open spec fn sparse_product(s: Seq<(u16, u16)>) -> nat
    decreases s.len(),
{
    if s.len() == 0 {
        1
    } else {
        sparse_product(s.drop_last()) * pow(s.last().0 as int, s.last().1 as nat) as nat
    }
}

/// The largest of two exponents.
pub open spec fn max_u16(a: u16, b: u16) -> u16 {
    if a < b {
        b
    } else {
        a
    }
}

/// An exponent saturated at the largest 16-bit value.
pub open spec fn saturated(x: int) -> int {
    if x <= 0xFFFF {
        x
    } else {
        0xFFFF
    }
}

/// Primes above one, listed in increasing order.
pub open spec fn sorted_primes(s: Seq<(u16, u16)>) -> bool {
    &&& forall|k: int| 0 <= k < s.len() ==> #[trigger] s[k].0 >= 2
    &&& forall|k: int, l: int| 0 <= k < l < s.len() ==> s[k].0 < s[l].0
}

/// `q` is one of the first `n` basis primes.
pub open spec fn is_basis_prime(q: nat, n: nat) -> bool {
    exists|j: nat| j < n && #[trigger] basis_prime(j) == q
}

/// Each pair lists one of the first `n` basis primes with a positive
/// exponent.
pub open spec fn basis_pairs(s: Seq<(u16, u16)>, n: nat) -> bool {
    forall|k: int| 0 <= k < s.len() ==> (#[trigger] s[k]).1 >= 1 && is_basis_prime(s[k].0 as nat, n)
}

/// The exponent that a list gives `q`: zero where it doesn't list it.
pub open spec fn listed_exponent(s: Seq<(u16, u16)>, q: nat) -> nat
    decreases s.len(),
{
    if s.len() == 0 {
        0
    } else if s.last().0 == q {
        s.last().1 as nat
    } else {
        listed_exponent(s.drop_last(), q)
    }
}

/// Appending a pair to basis pairs keeps them basis pairs.
proof fn lemma_basis_pairs_push(s: Seq<(u16, u16)>, x: (u16, u16), n: nat, j: nat)
    requires
        basis_pairs(s, n),
        x.1 >= 1,
        j < n,
        basis_prime(j) == x.0,
    ensures
        basis_pairs(s.push(x), n),
{
    assert forall|k: int| 0 <= k < s.push(x).len() implies (#[trigger] s.push(x)[k]).1 >= 1
        && is_basis_prime(s.push(x)[k].0 as nat, n) by {
        if k < s.len() {
            assert(s.push(x)[k] == s[k]);
        } else {
            assert(s.push(x)[k] == x);
            assert(basis_prime(j) == x.0 as nat);
        }
    }
}

/// A list whose primes are all below `q` gives it no exponent.
proof fn lemma_listed_absent(s: Seq<(u16, u16)>, q: nat)
    requires
        forall|k: int| 0 <= k < s.len() ==> (#[trigger] s[k]).0 < q,
    ensures
        listed_exponent(s, q) == 0,
    decreases s.len(),
{
    if s.len() > 0 {
        assert(s.last() == s[s.len() - 1]);
        assert forall|k: int| 0 <= k < s.drop_last().len() implies (#[trigger] s.drop_last()[k]).0
            < q by {
            assert(s.drop_last()[k] == s[k]);
        }
        lemma_listed_absent(s.drop_last(), q);
    }
}

/// A listed exponent fits in 16 bits.
proof fn lemma_listed_bound(s: Seq<(u16, u16)>, q: nat)
    ensures
        listed_exponent(s, q) <= 0xFFFF,
    decreases s.len(),
{
    if s.len() > 0 && s.last().0 != q {
        lemma_listed_bound(s.drop_last(), q);
    }
}

/// Appending a pair gives its prime its exponent, and leaves the others.
proof fn lemma_listed_push(s: Seq<(u16, u16)>, x: (u16, u16), q: nat)
    ensures
        listed_exponent(s.push(x), q) == if x.0 == q {
            x.1 as nat
        } else {
            listed_exponent(s, q)
        },
{
    assert(s.push(x).drop_last() =~= s);
    assert(s.push(x).last() == x);
}

/// What basis pairs say of one pair.
proof fn lemma_basis_pairs_at(s: Seq<(u16, u16)>, n: nat, k: int)
    requires
        basis_pairs(s, n),
        0 <= k < s.len(),
    ensures
        s[k].1 >= 1,
        is_basis_prime(s[k].0 as nat, n),
{
}

/// In a sorted list, the exponent given a listed prime is the one listed
/// beside it.
proof fn lemma_listed_at(s: Seq<(u16, u16)>, k: int)
    requires
        sorted_primes(s),
        0 <= k < s.len(),
    ensures
        listed_exponent(s, s[k].0 as nat) == s[k].1,
    decreases s.len(),
{
    if k < s.len() - 1 {
        assert(s[k].0 < s[s.len() - 1].0);
        assert(s.drop_last()[k] == s[k]);
        lemma_listed_at(s.drop_last(), k);
    }
}

/// A prime given a nonzero exponent is listed with it.
proof fn lemma_listed_witness(s: Seq<(u16, u16)>, q: nat)
    requires
        listed_exponent(s, q) != 0,
    ensures
        exists|k: int| 0 <= k < s.len() && s[k].0 == q && s[k].1 == listed_exponent(s, q),
    decreases s.len(),
{
    if s.last().0 == q {
        assert(s[s.len() - 1] == s.last());
    } else {
        lemma_listed_witness(s.drop_last(), q);
        let k = choose|k: int|
            0 <= k < s.drop_last().len() && s.drop_last()[k].0 == q && s.drop_last()[k].1
                == listed_exponent(s.drop_last(), q);
        assert(s[k] == s.drop_last()[k]);
    }
}

/// A remainder that no basis prime of 16 bits divides.
pub open spec fn clear_of_basis(rem: nat, n: nat) -> bool {
    forall|j: nat| j < n && #[trigger] basis_prime(j) <= 0xFFFF ==> rem % basis_prime(j) != 0
}

/// An odd number that the odd primes before `odd_prime(i)` don't divide is
/// clear of the first `n` basis primes, once it is one, or the basis ends
/// at `odd_prime(i)`, or that prime no longer fits in 16 bits.
proof fn lemma_clear_of_basis(v: nat, i: nat, n: nat)
    requires
        v % 2 == 1,
        forall|j: nat| j < i ==> v % #[trigger] odd_prime(j) != 0,
        v == 1 || i + 1 >= n || odd_prime(i) > 0xFFFF,
    ensures
        clear_of_basis(v, n),
{
    assert forall|j: nat| j < n && #[trigger] basis_prime(j) <= 0xFFFF implies v % basis_prime(j) != 0 by {
        if v == 1 {
            lemma_basis_prime(j, j);
            lemma_small_mod(1, basis_prime(j));
        } else if j > 0 {
            let o = (j - 1) as nat;
            assert(basis_prime(j) == odd_prime(o));
            if o >= i {
                if i + 1 >= n {
                    assert(false);
                } else if o > i {
                    lemma_odd_prime_increasing(i, o);
                }
            }
        }
    }
}

/// The `(prime, left exponent)` pairs of aligned triples.
pub open spec fn left_pairs(t: Seq<(u16, u16, u16)>) -> Seq<(u16, u16)> {
    Seq::new(t.len(), |k: int| (t[k].0, t[k].1))
}

/// The `(prime, right exponent)` pairs of aligned triples.
pub open spec fn right_pairs(t: Seq<(u16, u16, u16)>) -> Seq<(u16, u16)> {
    Seq::new(t.len(), |k: int| (t[k].0, t[k].2))
}

/// Primes above one, listed in increasing order, in aligned triples.
pub open spec fn sorted_triples(t: Seq<(u16, u16, u16)>) -> bool {
    &&& forall|k: int| 0 <= k < t.len() ==> #[trigger] t[k].0 >= 2
    &&& forall|k: int, l: int| 0 <= k < l < t.len() ==> t[k].0 < t[l].0
}

/// One more division of what's left by `p`: the power of `p` taken out
/// grows by one, within the width, and what's left stays odd, positive and
/// free of the odd primes before.
proof fn lemma_divide_out(x0: nat, pb: nat, xs: nat, v: nat, quo: nat, p: nat, count: nat, i: nat, bits: nat)
    requires
        p >= 3,
        v % p == 0,
        quo == v / p,
        v >= 1,
        v % 2 == 1,
        xs == v * pow(p as int, count),
        x0 == pb * xs,
        pb >= 1,
        x0 < vstd::arithmetic::power2::pow2(bits),
        forall|j: nat| j < i ==> v % #[trigger] odd_prime(j) != 0,
    ensures
        xs == quo * pow(p as int, count + 1),
        1 <= quo < v,
        count + 1 < bits,
        quo % 2 == 1,
        forall|j: nat| j < i ==> quo % #[trigger] odd_prime(j) != 0,
{
    lemma_fundamental_div_mod(v as int, p as int);
    lemma_pow_adds(p as int, count, 1);
    lemma_pow1(p as int);
    assert(xs == quo * pow(p as int, count + 1)) by (nonlinear_arith)
        requires
            xs == v * pow(p as int, count),
            v == p * quo,
            pow(p as int, count + 1) == pow(p as int, count) * p,
    ;
    assert(quo >= 1 && quo < v) by (nonlinear_arith)
        requires
            v == p * quo,
            v >= 1,
            p >= 3,
    ;
    assert(xs <= x0) by (nonlinear_arith)
        requires
            x0 == pb * xs,
            pb >= 1,
    ;
    lemma_pow_positive(p as int, count + 1);
    assert(pow(p as int, count + 1) <= xs) by (nonlinear_arith)
        requires
            xs == quo * pow(p as int, count + 1),
            quo >= 1,
            pow(p as int, count + 1) >= 1,
    ;
    lemma_count_below_bits(p, count + 1, xs, bits);
    lemma_mul_is_commutative(p as int, quo as int);
    lemma_not_divides_factor(v as int, quo as int, p as int, 2);
    assert forall|j: nat| j < i implies quo % #[trigger] odd_prime(j) != 0 by {
        lemma_odd_prime_bounds(j);
        lemma_not_divides_factor(v as int, quo as int, p as int, odd_prime(j) as int);
    }
}

/// Listing the power of the `i`-th odd prime taken out of what's left keeps
/// the list sorted and made of basis primes, and keeps the value.
proof fn lemma_push_prime_power(
    before: Seq<(u16, u16)>,
    p: nat,
    count: u16,
    pb: nat,
    xs: nat,
    v: nat,
    x0: nat,
    i: nat,
    n: nat,
)
    requires
        sorted_primes(before),
        before.len() > 0 ==> before[before.len() - 1].0 < p,
        basis_pairs(before, n),
        pb == sparse_product(before),
        x0 == pb * xs,
        xs == v * pow(p as int, count as nat),
        p == odd_prime(i),
        i + 1 < n,
        count >= 1,
        3 <= p <= 0xFFFF,
    ensures
        sorted_primes(before.push((p as u16, count))),
        basis_pairs(before.push((p as u16, count)), n),
        x0 == sparse_product(before.push((p as u16, count))) * v,
{
    let s = before.push((p as u16, count));
    lemma_sparse_push(before, (p as u16, count));
    assert(basis_prime(i + 1) == (p as u16) as nat);
    lemma_basis_pairs_push(before, (p as u16, count), n, i + 1);
    assert(x0 == sparse_product(s) * v) by (nonlinear_arith)
        requires
            x0 == pb * xs,
            xs == v * pow(p as int, count as nat),
            sparse_product(s) == pb * pow(p as int, count as nat),
    ;
    assert forall|m: int| 0 <= m < s.len() implies #[trigger] s[m].0 >= 2 by {
        if m < before.len() {
            assert(s[m] == before[m]);
        }
    }
    assert forall|m: int, l: int| 0 <= m < l < s.len() implies s[m].0 < s[l].0 by {
        if l < before.len() {
            assert(s[m] == before[m] && s[l] == before[l]);
        } else {
            assert(s[m] == before[m]);
            if m < before.len() - 1 {
                assert(before[m].0 < before[before.len() - 1].0);
            }
        }
    }
}

/// A power of a prime above one is positive.
proof fn lemma_prime_pow_pos(p: u16, e: u16)
    requires
        p >= 2,
    ensures
        pow(p as int, e as nat) >= 1,
{
    lemma_pow_positive(p as int, e as nat);
}

/// Appending a pair multiplies the product by its power.
pub proof fn lemma_sparse_push(s: Seq<(u16, u16)>, x: (u16, u16))
    ensures
        sparse_product(s.push(x)) == sparse_product(s) * pow(x.0 as int, x.1 as nat),
{
    assert(s.push(x).drop_last() =~= s);
    lemma_sparse_product_nonneg(s);
    if x.0 >= 1 {
        lemma_pow_positive(x.0 as int, x.1 as nat);
    } else if x.1 == 0 {
        lemma_pow0(0);
    } else {
        lemma0_pow(x.1 as nat);
    }
}

/// A product of powers of naturals is a natural.
proof fn lemma_sparse_product_nonneg(s: Seq<(u16, u16)>)
    ensures
        sparse_product(s) >= 0,
{
}

/// A product of powers of primes above one is positive.
pub proof fn lemma_sparse_product_pos(s: Seq<(u16, u16)>)
    requires
        forall|k: int| 0 <= k < s.len() ==> #[trigger] s[k].0 >= 2,
    ensures
        sparse_product(s) >= 1,
    decreases s.len(),
{
    if s.len() > 0 {
        assert forall|k: int| 0 <= k < s.drop_last().len() implies #[trigger] s.drop_last()[k].0
            >= 2 by {
            assert(s.drop_last()[k] == s[k]);
        }
        lemma_sparse_product_pos(s.drop_last());
        lemma_prime_pow_pos(s.last().0, s.last().1);
        lemma_mul_strictly_positive(
            sparse_product(s.drop_last()) as int,
            pow(s.last().0 as int, s.last().1 as nat),
        );
    }
}

/// Adding exponents pointwise, over the same primes, multiplies the products.
pub proof fn lemma_sparse_add(a: Seq<(u16, u16)>, b: Seq<(u16, u16)>, c: Seq<(u16, u16)>)
    requires
        a.len() == b.len(),
        c.len() == a.len(),
        forall|k: int| 0 <= k < c.len() ==> #[trigger] c[k].0 == a[k].0 && c[k].0 == b[k].0,
        forall|k: int| 0 <= k < c.len() ==> #[trigger] c[k].1 == a[k].1 + b[k].1,
        forall|k: int| 0 <= k < c.len() ==> #[trigger] c[k].0 >= 2,
    ensures
        sparse_product(c) == sparse_product(a) * sparse_product(b),
    decreases c.len(),
{
    if c.len() > 0 {
        let (ad, bd, cd) = (a.drop_last(), b.drop_last(), c.drop_last());
        assert forall|k: int| 0 <= k < cd.len() implies #[trigger] cd[k].0 == ad[k].0 && cd[k].0
            == bd[k].0 by {
            assert(cd[k] == c[k] && ad[k] == a[k] && bd[k] == b[k]);
        }
        assert forall|k: int| 0 <= k < cd.len() implies #[trigger] cd[k].1 == ad[k].1 + bd[k].1 by {
            assert(cd[k] == c[k] && ad[k] == a[k] && bd[k] == b[k]);
        }
        assert forall|k: int| 0 <= k < cd.len() implies #[trigger] cd[k].0 >= 2 by {
            assert(cd[k] == c[k]);
        }
        lemma_sparse_add(ad, bd, cd);
        let p = c.last().0 as int;
        lemma_pow_adds(p, a.last().1 as nat, b.last().1 as nat);
        lemma_prime_pow_pos(c.last().0, a.last().1);
        lemma_prime_pow_pos(c.last().0, b.last().1);
        let pa = sparse_product(ad) as int;
        let pb = sparse_product(bd) as int;
        let xa = pow(p, a.last().1 as nat);
        let xb = pow(p, b.last().1 as nat);
        assert((pa * pb) * (xa * xb) == (pa * xa) * (pb * xb)) by (nonlinear_arith);
        assert(c.last() == c[c.len() - 1] && a.last() == a[a.len() - 1] && b.last() == b[b.len() - 1]);
        assert(c.last().0 == a.last().0 && c.last().0 == b.last().0);
        assert(c.last().1 == a.last().1 + b.last().1);
        assert(pow(p, c.last().1 as nat) == xa * xb);
        assert(sparse_product(c) == sparse_product(cd) * pow(p, c.last().1 as nat));
        assert(sparse_product(a) == pa * xa);
        assert(sparse_product(b) == pb * xb);
    } else {
        assert(sparse_product(a) == 1);
        assert(sparse_product(b) == 1);
        assert(sparse_product(c) == 1);
    }
}

/// Multiplying exponents by `k`, over the same primes, takes the product to
/// the power `k`.
pub proof fn lemma_sparse_scale(a: Seq<(u16, u16)>, k: nat, c: Seq<(u16, u16)>)
    requires
        c.len() == a.len(),
        forall|i: int| 0 <= i < c.len() ==> #[trigger] c[i].0 == a[i].0,
        forall|i: int| 0 <= i < c.len() ==> #[trigger] c[i].1 == a[i].1 * k,
        forall|i: int| 0 <= i < c.len() ==> #[trigger] c[i].0 >= 2,
    ensures
        sparse_product(c) == pow(sparse_product(a) as int, k),
    decreases c.len(),
{
    if c.len() == 0 {
        lemma1_pow(k);
    } else {
        let (ad, cd) = (a.drop_last(), c.drop_last());
        assert forall|i: int| 0 <= i < cd.len() implies #[trigger] cd[i].0 == ad[i].0 by {
            assert(cd[i] == c[i] && ad[i] == a[i]);
        }
        assert forall|i: int| 0 <= i < cd.len() implies #[trigger] cd[i].1 == ad[i].1 * k by {
            assert(cd[i] == c[i] && ad[i] == a[i]);
        }
        assert forall|i: int| 0 <= i < cd.len() implies #[trigger] cd[i].0 >= 2 by {
            assert(cd[i] == c[i]);
        }
        assert forall|i: int| 0 <= i < ad.len() implies #[trigger] ad[i].0 >= 2 by {
            assert(cd[i] == c[i] && ad[i] == a[i]);
            assert(c[i].0 == a[i].0);
            assert(c[i].0 >= 2);
        }
        assert(c.last() == c[c.len() - 1] && a.last() == a[a.len() - 1]);
        assert(c.last().0 == a.last().0 && c.last().1 == a.last().1 * k);
        lemma_sparse_scale(ad, k, cd);
        let p = c.last().0 as int;
        lemma_prime_pow_pos(c.last().0, a.last().1);
        lemma_pow_positive(pow(p, a.last().1 as nat), k);
        lemma_pow_multiplies(p, a.last().1 as nat, k);
        lemma_sparse_product_pos(ad);
        lemma_pow_distributes(sparse_product(ad) as int, pow(p, a.last().1 as nat), k);
    }
}

/// Lowering the exponent at `k` by one divides the product by its prime.
pub proof fn lemma_sparse_dec(s: Seq<(u16, u16)>, k: int)
    requires
        0 <= k < s.len(),
        s[k].1 >= 1,
        forall|i: int| 0 <= i < s.len() ==> #[trigger] s[i].0 >= 2,
    ensures
        sparse_product(s.update(k, (s[k].0, (s[k].1 - 1) as u16))) * s[k].0 == sparse_product(s),
    decreases s.len(),
{
    let f = s.update(k, (s[k].0, (s[k].1 - 1) as u16));
    let n = s.len() - 1;
    let p = s[k].0 as int;
    if k == n {
        assert(f.drop_last() =~= s.drop_last());
        lemma_pow_adds(p, (s[k].1 - 1) as nat, 1);
        lemma_pow1(p);
        lemma_prime_pow_pos(s[k].0, (s[k].1 - 1) as u16);
        lemma_prime_pow_pos(s[k].0, s[k].1);
        assert(f.last() == (s[k].0, (s[k].1 - 1) as u16));
        let q = sparse_product(s.drop_last()) as int;
        let y = pow(p, (s[k].1 - 1) as nat);
        assert(q * y * p == q * (y * p)) by (nonlinear_arith);
    } else {
        assert(f.drop_last() =~= s.drop_last().update(k, (s[k].0, (s[k].1 - 1) as u16)));
        assert forall|i: int| 0 <= i < s.drop_last().len() implies #[trigger] s.drop_last()[i].0 >= 2 by {
            assert(s.drop_last()[i] == s[i]);
        }
        assert(s.drop_last()[k] == s[k]);
        lemma_sparse_dec(s.drop_last(), k);
        assert(f.last() == s.last());
        lemma_prime_pow_pos(s.last().0, s.last().1);
        let q = sparse_product(f.drop_last()) as int;
        let x = pow(s.last().0 as int, s.last().1 as nat);
        assert(q * x * p == q * p * x) by (nonlinear_arith);
    }
}

/// The `i`-th odd prime of the table.
fn odd_prime_at(i: usize) -> (p: u32)
    requires
        i < NUM_ODD_PRIMES,
    ensures
        p == odd_prime(i as nat),
{
    let mut p: u32 = 3;
    let mut j: usize = 0;
    while j < i
        invariant
            j <= i,
            i < NUM_ODD_PRIMES,
            p == odd_prime(j as nat),
        decreases i - j,
    {
        p = next_odd_prime(j, p);
        j = j + 1;
    }
    p
}

/// An exponent is below the power of a base above one.
proof fn lemma_exp_below_pow(q: int, c: nat)
    requires
        q >= 2,
    ensures
        c < pow(q, c),
    decreases c,
{
    if c == 0 {
        lemma_pow0(q);
    } else {
        lemma_exp_below_pow(q, (c - 1) as nat);
        lemma_pow_adds(q, (c - 1) as nat, 1);
        lemma_pow1(q);
        let y = pow(q, (c - 1) as nat);
        assert(y * q >= y + y) by (nonlinear_arith)
            requires
                q >= 2,
                y >= 1,
        ;
    }
}

/// The odd prime of a listed factor divides the product of the factors, and
/// its power is at most that product.
proof fn lemma_factor_divides(f: Seq<(u16, u16)>, k: int)
    requires
        0 <= k < f.len(),
        f[k].1 >= 1,
        forall|j: int| 0 <= j < f.len() ==> #[trigger] f[j].0 >= 1,
    ensures
        (factors_product(f) as int) % (odd_prime((f[k].0 - 1) as nat) as int) == 0,
        pow(odd_prime((f[k].0 - 1) as nat) as int, f[k].1 as nat) <= factors_product(f),
        factors_product(f) >= 1,
    decreases f.len(),
{
    let q = odd_prime((f[k].0 - 1) as nat) as int;
    let d = f.drop_last();
    let last = f.last();
    let ql = odd_prime((last.0 - 1) as nat) as int;
    lemma_odd_prime_bounds((f[k].0 - 1) as nat);
    lemma_odd_prime_bounds((last.0 - 1) as nat);
    lemma_factors_pos(d);
    lemma_pow_positive(ql, last.1 as nat);
    let pd = factors_product(d) as int;
    let y = pow(ql, last.1 as nat);
    assert(factors_product(f) == pd * y);
    assert(pd * y >= 1) by (nonlinear_arith)
        requires
            pd >= 1,
            y >= 1,
    ;
    if k == f.len() - 1 {
        lemma_pow_adds(q, (last.1 - 1) as nat, 1);
        lemma_pow1(q);
        lemma_pow_positive(q, (last.1 - 1) as nat);
        let z = pow(q, (last.1 - 1) as nat);
        assert(pd * y == (pd * z) * q) by (nonlinear_arith)
            requires
                y == z * q,
        ;
        lemma_mod_multiples_basic(pd * z, q);
        assert(y <= pd * y) by (nonlinear_arith)
            requires
                pd >= 1,
                y >= 1,
        ;
    } else {
        assert forall|j: int| 0 <= j < d.len() implies #[trigger] d[j].0 >= 1 by {
            assert(d[j] == f[j]);
        }
        assert(d[k] == f[k]);
        lemma_factor_divides(d, k);
        lemma_fundamental_div_mod(pd, q);
        let m = pd / q;
        assert(pd * y == (m * y) * q) by (nonlinear_arith)
            requires
                pd == q * m,
        ;
        lemma_mod_multiples_basic(m * y, q);
        assert(pd <= pd * y) by (nonlinear_arith)
            requires
                pd >= 1,
                y >= 1,
        ;
    }
}

/// A product of powers of odd primes is positive.
proof fn lemma_factors_pos(f: Seq<(u16, u16)>)
    ensures
        factors_product(f) >= 1,
    decreases f.len(),
{
    if f.len() > 0 {
        lemma_factors_pos(f.drop_last());
        lemma_odd_prime_bounds((f.last().0 - 1) as nat);
        lemma_pow_positive(odd_prime((f.last().0 - 1) as nat) as int, f.last().1 as nat);
        lemma_mul_strictly_positive(
            factors_product(f.drop_last()) as int,
            pow(odd_prime((f.last().0 - 1) as nat) as int, f.last().1 as nat),
        );
    }
}

/// A prefix of the factors has a product at most that of all of them.
proof fn lemma_factors_prefix(f: Seq<(u16, u16)>, k: int)
    requires
        0 <= k <= f.len(),
    ensures
        factors_product(f.take(k)) <= factors_product(f),
    decreases f.len(),
{
    if k < f.len() {
        assert(f.drop_last().take(k) =~= f.take(k));
        lemma_factors_prefix(f.drop_last(), k);
        lemma_factors_pos(f.drop_last());
        lemma_odd_prime_bounds((f.last().0 - 1) as nat);
        lemma_pow_positive(odd_prime((f.last().0 - 1) as nat) as int, f.last().1 as nat);
        let pd = factors_product(f.drop_last()) as int;
        let y = pow(odd_prime((f.last().0 - 1) as nat) as int, f.last().1 as nat);
        assert(pd <= pd * y) by (nonlinear_arith)
            requires
                pd >= 1,
                y >= 1,
        ;
    } else {
        assert(f.take(k) =~= f);
    }
}

/// Appending a factor multiplies the product by its power.
proof fn lemma_factors_push(f: Seq<(u16, u16)>, x: (u16, u16))
    ensures
        factors_product(f.push(x)) == factors_product(f) * pow(
            odd_prime((x.0 - 1) as nat) as int,
            x.1 as nat,
        ),
{
    assert(f.push(x).drop_last() =~= f);
    lemma_odd_prime_bounds((x.0 - 1) as nat);
    lemma_pow_positive(odd_prime((x.0 - 1) as nat) as int, x.1 as nat);
}

/// A tail of a factor list is its first power times the rest.
proof fn lemma_factors_skip(f: Seq<(u16, u16)>, k: int)
    requires
        0 <= k < f.len(),
    ensures
        factors_product(f.skip(k)) == pow(odd_prime((f[k].0 - 1) as nat) as int, f[k].1 as nat)
            * factors_product(f.skip(k + 1)),
    decreases f.len(),
{
    lemma_odd_prime_bounds((f[k].0 - 1) as nat);
    lemma_pow_positive(odd_prime((f[k].0 - 1) as nat) as int, f[k].1 as nat);
    lemma_odd_prime_bounds((f.last().0 - 1) as nat);
    lemma_pow_positive(odd_prime((f.last().0 - 1) as nat) as int, f.last().1 as nat);
    if k == f.len() - 1 {
        assert(f.skip(k).drop_last() =~= Seq::<(u16, u16)>::empty());
        assert(f.skip(k + 1) =~= Seq::<(u16, u16)>::empty());
        assert(f.skip(k).last() == f[k]);
        assert(factors_product(Seq::<(u16, u16)>::empty()) == 1);
        assert(factors_product(f.skip(k)) == factors_product(f.skip(k).drop_last()) * pow(
            odd_prime((f.skip(k).last().0 - 1) as nat) as int,
            f.skip(k).last().1 as nat,
        ) as nat);
        assert(factors_product(f.skip(k + 1)) == 1);
        let a = pow(odd_prime((f[k].0 - 1) as nat) as int, f[k].1 as nat);
        assert(f.skip(k).last().0 == f[k].0 && f.skip(k).last().1 == f[k].1);
        assert(a >= 0);
        assert(factors_product(f.skip(k).drop_last()) == 1);
        assert(factors_product(f.skip(k)) == 1 * (a as nat));
        assert(factors_product(f.skip(k)) == a) by (nonlinear_arith)
            requires
                factors_product(f.skip(k)) == 1 * (a as nat),
                a >= 0,
        ;
        assert(factors_product(f.skip(k)) == a * factors_product(f.skip(k + 1)));
    } else {
        let g = f.drop_last();
        assert(f.skip(k).drop_last() =~= g.skip(k));
        assert(f.skip(k + 1).drop_last() =~= g.skip(k + 1));
        assert(f.skip(k).last() == f.last());
        assert(f.skip(k + 1).last() == f.last());
        assert(g[k] == f[k]);
        lemma_factors_skip(g, k);
        let a = pow(odd_prime((f[k].0 - 1) as nat) as int, f[k].1 as nat);
        let l = pow(odd_prime((f.last().0 - 1) as nat) as int, f.last().1 as nat);
        let r = factors_product(g.skip(k + 1)) as int;
        assert(factors_product(f.skip(k)) == factors_product(g.skip(k)) * l);
        assert(factors_product(f.skip(k + 1)) == r * l);
        assert((a * r) * l == a * (r * l)) by (nonlinear_arith);
        assert(factors_product(g.skip(k)) == a * r);
        assert(factors_product(f.skip(k)) == a * factors_product(f.skip(k + 1)));
    }
}

/// Odd primes don't decrease with their index.
proof fn lemma_odd_prime_increasing_or_equal(i: nat, j: nat)
    requires
        i <= j,
    ensures
        odd_prime(i) <= odd_prime(j),
        i < j ==> odd_prime(i) < odd_prime(j),
{
    if i < j {
        lemma_odd_prime_increasing(i, j);
    }
}

/// Splits a positive integer into a power of two and an odd factor.
fn strip_twos(x: u128) -> (r: (u16, u128))
    requires
        x > 0,
    ensures
        x == pow(2, r.0 as nat) * r.1,
        r.1 % 2 == 1,
        r.0 < 128,
        r.1 >= 1,
        r.1 <= x,
{
    let ghost x0 = x as nat;
    let mut x = x;
    let mut count2: u16 = 0;
    proof {
        lemma_pow0(2);
    }
    while x % 2 == 0
        invariant
            x >= 1,
            x0 == pow(2, count2 as nat) * x,
            count2 < 128,
            pow(2, count2 as nat) >= 1,
            x0 <= u128::MAX,
        decreases x,
    {
        proof {
            lemma_pow_adds(2, count2 as nat, 1);
            lemma_pow1(2);
            lemma_fundamental_div_mod(x as int, 2);
            assert(pow(2, (count2 + 1) as nat) <= x0) by (nonlinear_arith)
                requires
                    x0 == pow(2, count2 as nat) * x,
                    x >= 2,
                    pow(2, (count2 + 1) as nat) == pow(2, count2 as nat) * 2,
                    pow(2, count2 as nat) >= 1,
            ;
            lemma_small_power_of_two((count2 + 1) as nat, x0);
            assert(x0 == pow(2, (count2 + 1) as nat) * (x / 2)) by (nonlinear_arith)
                requires
                    x0 == pow(2, count2 as nat) * x,
                    x == 2 * (x / 2),
                    pow(2, (count2 + 1) as nat) == pow(2, count2 as nat) * 2,
            ;
        }
        x = x / 2;
        count2 = count2 + 1;
    }
    proof {
        assert(x <= x0) by (nonlinear_arith)
            requires
                x0 == pow(2, count2 as nat) * x,
                pow(2, count2 as nat) >= 1,
                x >= 1,
        ;
    }
    (count2, x)
}

/// An exponent whose power of a base above one is at most a number below
/// `2^b` is below `b`.
proof fn lemma_count_below_bits(p: nat, c: nat, v: nat, b: nat)
    requires
        p >= 2,
        pow(p as int, c) <= v,
        v < vstd::arithmetic::power2::pow2(b),
    ensures
        c < b,
{
    lemma_pow_base_increases(2, p, c);
    vstd::arithmetic::power2::lemma_pow2(c);
    vstd::arithmetic::power2::lemma_pow2(b);
    if c >= b {
        if c > b {
            lemma_pow_increases(2, b, c);
        }
    }
}

/// A number without odd prime factors below the `i`-th has its listed
/// factors at index `i` or above.
proof fn lemma_factors_from(f: Seq<(u16, u16)>, x: nat, i: nat)
    requires
        factors_product(f) == x,
        forall|k: int| 0 <= k < f.len() ==> #[trigger] f[k].0 >= 1 && f[k].1 >= 1,
        forall|j: nat| j < i ==> (x as nat) % #[trigger] odd_prime(j) != 0,
    ensures
        forall|k: int| 0 <= k < f.len() ==> #[trigger] f[k].0 - 1 >= i,
{
    assert forall|k: int| 0 <= k < f.len() implies #[trigger] f[k].0 - 1 >= i by {
        if f[k].0 - 1 < i {
            assert forall|j: int| 0 <= j < f.len() implies #[trigger] f[j].0 >= 1 by {
                assert(f[j].0 >= 1 && f[j].1 >= 1);
            }
            assert(f[k].1 >= 1);
            lemma_factor_divides(f, k);
            let j = (f[k].0 - 1) as nat;
            assert(x % odd_prime(j) != 0);
        }
    }
}

/// The pairs of a power of two: one pair, or none for a zero exponent.
proof fn lemma_power_of_two_pairs(s: Seq<(u16, u16)>, c: u16)
    requires
        c != 0 ==> s == Seq::<(u16, u16)>::empty().push((2u16, c)),
        c == 0 ==> s == Seq::<(u16, u16)>::empty(),
    ensures
        sparse_product(s) == pow(2, c as nat),
        pow(2, c as nat) >= 1,
        sorted_primes(s),
{
    lemma_pow0(2);
    lemma_sparse_push(Seq::<(u16, u16)>::empty(), (2u16, c));
    assert(sparse_product(Seq::<(u16, u16)>::empty()) == 1);
    lemma_pow_positive(2, c as nat);
    let y = pow(2, c as nat);
    if c != 0 {
        assert(sparse_product(s) == 1 * y);
        lemma_mul_basics(y);
    } else {
        assert(sparse_product(s) == 1);
        assert(y == 1);
    }
}

/// Prepending a pair multiplies the product by its power.
proof fn lemma_sparse_prepend(s: Seq<(u16, u16)>, x: (u16, u16))
    requires
        x.0 >= 2,
        forall|k: int| 0 <= k < s.len() ==> #[trigger] s[k].0 >= 2,
    ensures
        sparse_product(seq![x] + s) == pow(x.0 as int, x.1 as nat) * sparse_product(s),
    decreases s.len(),
{
    lemma_prime_pow_pos(x.0, x.1);
    if s.len() == 0 {
        assert(seq![x] + s =~= Seq::<(u16, u16)>::empty().push(x));
        lemma_sparse_push(Seq::<(u16, u16)>::empty(), x);
        assert(sparse_product(Seq::<(u16, u16)>::empty()) == 1);
        let y = pow(x.0 as int, x.1 as nat);
        lemma_mul_basics(y);
    } else {
        assert((seq![x] + s).drop_last() =~= seq![x] + s.drop_last());
        assert forall|k: int| 0 <= k < s.drop_last().len() implies #[trigger] s.drop_last()[k].0 >= 2 by {
            assert(s.drop_last()[k] == s[k]);
        }
        lemma_sparse_prepend(s.drop_last(), x);
        assert(s.last() == s[s.len() - 1]);
        lemma_prime_pow_pos(s.last().0, s.last().1);
        assert((seq![x] + s).last() == s.last());
        let a = pow(x.0 as int, x.1 as nat);
        let b = sparse_product(s.drop_last()) as int;
        let c = pow(s.last().0 as int, s.last().1 as nat);
        assert((a * b) * c == a * (b * c)) by (nonlinear_arith);
        let t = seq![x] + s;
        assert(sparse_product(t) == sparse_product(t.drop_last()) * c);
        assert(sparse_product(s) == b * c);
        assert(sparse_product(t.drop_last()) == a * b);
    }
}

/// The missing powers multiply to a positive number.
proof fn lemma_deficit_pos(t: Seq<(u16, u16, u16)>)
    requires
        forall|k: int| 0 <= k < t.len() ==> #[trigger] t[k].0 >= 2,
    ensures
        deficit_product(t) >= 1,
    decreases t.len(),
{
    if t.len() > 0 {
        assert forall|k: int| 0 <= k < t.drop_last().len() implies #[trigger] t.drop_last()[k].0 >= 2 by {
            assert(t.drop_last()[k] == t[k]);
        }
        lemma_deficit_pos(t.drop_last());
        let y: int = if t.last().1 < t.last().2 {
            lemma_prime_pow_pos(t.last().0, (t.last().2 - t.last().1) as u16);
            pow(t.last().0 as int, (t.last().2 - t.last().1) as nat)
        } else {
            1
        };
        assert(y >= 1);
        lemma_mul_strictly_positive(deficit_product(t.drop_last()) as int, y);
    }
}

/// Appending a triple appends its pairs.
proof fn lemma_pairs_push(t: Seq<(u16, u16, u16)>, x: (u16, u16, u16))
    ensures
        left_pairs(t.push(x)) == left_pairs(t).push((x.0, x.1)),
        right_pairs(t.push(x)) == right_pairs(t).push((x.0, x.2)),
{
    assert(left_pairs(t.push(x)) =~= left_pairs(t).push((x.0, x.1)));
    assert(right_pairs(t.push(x)) =~= right_pairs(t).push((x.0, x.2)));
}

/// A sorted list of primes, each flagged by an exponent of one.
pub open spec fn mask_flags(mask: Seq<u16>) -> Seq<(u16, u16)> {
    Seq::new(mask.len(), |k: int| (mask[k], 1u16))
}

/// Two sparse lists aligned on the union of their primes, taking the
/// smaller prime first: each triple holds a prime and its exponent on each
/// side, zero where a side lacks it.
pub open spec fn zip_spec(a: Seq<(u16, u16)>, b: Seq<(u16, u16)>) -> Seq<(u16, u16, u16)>
    decreases a.len() + b.len(),
{
    if a.len() == 0 && b.len() == 0 {
        Seq::empty()
    } else if b.len() == 0 || (a.len() > 0 && a[0].0 < b[0].0) {
        seq![(a[0].0, a[0].1, 0u16)] + zip_spec(a.skip(1), b)
    } else if a.len() == 0 || b[0].0 < a[0].0 {
        seq![(b[0].0, 0u16, b[0].1)] + zip_spec(a, b.skip(1))
    } else {
        seq![(a[0].0, a[0].1, b[0].1)] + zip_spec(a.skip(1), b.skip(1))
    }
}

/// The primes of aligned triples whose left exponent is saturated, in order.
pub open spec fn saturated_primes(t: Seq<(u16, u16, u16)>) -> Seq<u16>
    decreases t.len(),
{
    if t.len() == 0 {
        Seq::empty()
    } else if t.last().1 == 0xFFFF {
        saturated_primes(t.drop_last()).push(t.last().0)
    } else {
        saturated_primes(t.drop_last())
    }
}

/// The pairs of aligned triples whose left exponent exceeds the right one,
/// with the difference as exponent, in order.
pub open spec fn quotient_pairs(t: Seq<(u16, u16, u16)>) -> Seq<(u16, u16)>
    decreases t.len(),
{
    if t.len() == 0 {
        Seq::empty()
    } else if t.last().1 > t.last().2 {
        quotient_pairs(t.drop_last()).push((t.last().0, (t.last().1 - t.last().2) as u16))
    } else {
        quotient_pairs(t.drop_last())
    }
}

/// What is left of exponent `n` once exponent `d` is taken out: nothing when
/// `d` is at least `n`.
pub open spec fn exp_diff(n: nat, d: nat) -> nat {
    if n > d {
        (n - d) as nat
    } else {
        0
    }
}

/// The product of the powers that the left exponents of aligned triples lack
/// to cover the right ones.
pub open spec fn deficit_product(t: Seq<(u16, u16, u16)>) -> nat
    decreases t.len(),
{
    if t.len() == 0 {
        1
    } else {
        deficit_product(t.drop_last()) * (if t.last().1 < t.last().2 {
            pow(t.last().0 as int, (t.last().2 - t.last().1) as nat) as nat
        } else {
            1
        })
    }
}

/// Aligns two sorted sparse lists on the union of their primes: each triple
/// holds a prime and its exponent on each side, zero where a side lacks it.
#[verifier::spinoff_prover]
fn zip_counts(a: &Vec<(u16, u16)>, b: &Vec<(u16, u16)>) -> (r: Vec<(u16, u16, u16)>)
    requires
        sorted_primes(a@),
        sorted_primes(b@),
    ensures
        sorted_triples(r@),
        sparse_product(left_pairs(r@)) == sparse_product(a@),
        sparse_product(right_pairs(r@)) == sparse_product(b@),
        r@ == zip_spec(a@, b@),
        forall|q: nat| #[trigger] listed_exponent(left_pairs(r@), q) == listed_exponent(a@, q),
        forall|q: nat| #[trigger] listed_exponent(right_pairs(r@), q) == listed_exponent(b@, q),
{
    let mut r: Vec<(u16, u16, u16)> = Vec::new();
    let mut i: usize = 0;
    let mut j: usize = 0;
    proof {
        assert(a@.take(0) =~= Seq::<(u16, u16)>::empty());
        assert(b@.take(0) =~= Seq::<(u16, u16)>::empty());
        assert(left_pairs(r@) =~= Seq::<(u16, u16)>::empty());
        assert(right_pairs(r@) =~= Seq::<(u16, u16)>::empty());
        assert(a@.skip(0) =~= a@);
        assert(b@.skip(0) =~= b@);
        assert(r@ + zip_spec(a@, b@) =~= zip_spec(a@, b@));
    }
    while i < a.len() || j < b.len()
        invariant
            sorted_primes(a@),
            sorted_primes(b@),
            i <= a.len(),
            j <= b.len(),
            sorted_triples(r@),
            r.len() > 0 && i < a.len() ==> r[r.len() - 1].0 < a[i as int].0,
            r.len() > 0 && j < b.len() ==> r[r.len() - 1].0 < b[j as int].0,
            sparse_product(left_pairs(r@)) == sparse_product(a@.take(i as int)),
            sparse_product(right_pairs(r@)) == sparse_product(b@.take(j as int)),
            r@ + zip_spec(a@.skip(i as int), b@.skip(j as int)) == zip_spec(a@, b@),
            forall|q: nat|
                #[trigger] listed_exponent(left_pairs(r@), q) == listed_exponent(a@.take(i as int), q),
            forall|q: nat|
                #[trigger] listed_exponent(right_pairs(r@), q) == listed_exponent(b@.take(j as int), q),
            i > 0 ==> r.len() > 0 && a[i - 1].0 <= r[r.len() - 1].0,
            j > 0 ==> r.len() > 0 && b[j - 1].0 <= r[r.len() - 1].0,
        decreases a.len() + b.len() - i - j,
    {
        let ghost r0 = r@;
        let ghost (i0, j0) = (i as int, j as int);
        let t: (u16, u16, u16);
        if j >= b.len() || (i < a.len() && a[i].0 < b[j].0) {
            t = (a[i].0, a[i].1, 0);
            proof {
                assert(a@.take(i + 1) =~= a@.take(i as int).push(a[i as int]));
                lemma_sparse_push(a@.take(i as int), a[i as int]);
                lemma_pow0(t.0 as int);
            }
            i = i + 1;
        } else if i >= a.len() || b[j].0 < a[i].0 {
            t = (b[j].0, 0, b[j].1);
            proof {
                assert(b@.take(j + 1) =~= b@.take(j as int).push(b[j as int]));
                lemma_sparse_push(b@.take(j as int), b[j as int]);
                lemma_pow0(t.0 as int);
            }
            j = j + 1;
        } else {
            t = (a[i].0, a[i].1, b[j].1);
            proof {
                assert(a@.take(i + 1) =~= a@.take(i as int).push(a[i as int]));
                assert(b@.take(j + 1) =~= b@.take(j as int).push(b[j as int]));
                lemma_sparse_push(a@.take(i as int), a[i as int]);
                lemma_sparse_push(b@.take(j as int), b[j as int]);
            }
            i = i + 1;
            j = j + 1;
        }
        r.push(t);
        proof {
            lemma_pairs_push(r0, t);
            if i == i0 {
                assert(r0.len() > 0 && i > 0 ==> a[i - 1].0 <= r0[r0.len() - 1].0);
                assert(r0.len() > 0 ==> r0[r0.len() - 1].0 < t.0);
                assert forall|m: int| 0 <= m < a@.take(i as int).len() implies (#[trigger] a@.take(
                    i as int,
                )[m]).0 < t.0 by {
                    assert(a@.take(i as int)[m] == a[m]);
                    if m < i - 1 {
                        assert(a[m].0 < a[i - 1].0);
                    }
                }
                lemma_listed_absent(a@.take(i as int), t.0 as nat);
            }
            if j == j0 {
                assert(r0.len() > 0 && j > 0 ==> b[j - 1].0 <= r0[r0.len() - 1].0);
                assert(r0.len() > 0 ==> r0[r0.len() - 1].0 < t.0);
                assert forall|m: int| 0 <= m < b@.take(j as int).len() implies (#[trigger] b@.take(
                    j as int,
                )[m]).0 < t.0 by {
                    assert(b@.take(j as int)[m] == b[m]);
                    if m < j - 1 {
                        assert(b[m].0 < b[j - 1].0);
                    }
                }
                lemma_listed_absent(b@.take(j as int), t.0 as nat);
            }
            if i0 < i {
                assert(a@.take(i as int) =~= a@.take(i0).push(a[i0]));
            } else {
                assert(a@.take(i as int) =~= a@.take(i0));
            }
            if j0 < j {
                assert(b@.take(j as int) =~= b@.take(j0).push(b[j0]));
            } else {
                assert(b@.take(j as int) =~= b@.take(j0));
            }
            assert(left_pairs(r@) =~= left_pairs(r0).push((t.0, t.1)));
            assert(right_pairs(r@) =~= right_pairs(r0).push((t.0, t.2)));
            assert forall|q: nat| #[trigger] listed_exponent(left_pairs(r@), q) == listed_exponent(
                a@.take(i as int),
                q,
            ) by {
                lemma_listed_push(left_pairs(r0), (t.0, t.1), q);
                if i0 < i {
                    lemma_listed_push(a@.take(i0), a[i0], q);
                }
            }
            assert forall|q: nat| #[trigger] listed_exponent(right_pairs(r@), q) == listed_exponent(
                b@.take(j as int),
                q,
            ) by {
                lemma_listed_push(right_pairs(r0), (t.0, t.2), q);
                if j0 < j {
                    lemma_listed_push(b@.take(j0), b[j0], q);
                }
            }
            lemma_sparse_push(left_pairs(r0), (t.0, t.1));
            lemma_sparse_push(right_pairs(r0), (t.0, t.2));
            let (sa, sb) = (a@.skip(i0), b@.skip(j0));
            if i0 < a.len() {
                assert(sa.skip(1) =~= a@.skip(i0 + 1));
            }
            if j0 < b.len() {
                assert(sb.skip(1) =~= b@.skip(j0 + 1));
            }
            assert(sa.len() > 0 ==> sa[0] == a[i0]);
            assert(sb.len() > 0 ==> sb[0] == b[j0]);
            assert(zip_spec(sa, sb) == seq![t] + zip_spec(a@.skip(i as int), b@.skip(j as int)));
            assert(r@ + zip_spec(a@.skip(i as int), b@.skip(j as int)) =~= r0 + (seq![t] + zip_spec(
                a@.skip(i as int),
                b@.skip(j as int),
            )));
        }
    }
    proof {
        assert(a@.take(a.len() as int) =~= a@);
        assert(b@.take(b.len() as int) =~= b@);
        assert(a@.skip(a.len() as int) =~= Seq::<(u16, u16)>::empty());
        assert(b@.skip(b.len() as int) =~= Seq::<(u16, u16)>::empty());
        assert(r@ + Seq::<(u16, u16, u16)>::empty() =~= r@);
    }
    r
}

impl<const NUM_PRIMES: usize> DenomSparseU16<NUM_PRIMES> {
    /// The `(prime, exponent)` pairs.
    pub closed spec fn pairs(&self) -> Seq<(u16, u16)> {
        self.primes@
    }

    /// The remainder, if any.
    pub closed spec fn remainder_opt(&self) -> Option<Natural> {
        self.remainder
    }

    /// The value of the remainder: one when there is none.
    pub open spec fn remainder_value(&self) -> nat {
        opt_value(self.remainder_opt())
    }

    /// The product of the powers of the listed primes.
    pub open spec fn primes_value(&self) -> nat {
        sparse_product(self.pairs())
    }

    /// A supported number of basis primes, primes above one listed in
    /// increasing order, and a remainder, when there is one, above one.
    pub open spec fn well_formed(&self) -> bool {
        &&& 1 <= NUM_PRIMES <= MAX_BASIS_PRIMES
        &&& sorted_primes(self.pairs())
        &&& self.remainder_opt() matches Some(r) ==> r@ >= 2
    }

    /// Only basis primes are listed, each with a positive exponent, and each
    /// basis prime of 16 bits whose exponent has not saturated has been
    /// divided out of the remainder as often as it goes: with the value, this
    /// fixes every exponent at the prime's multiplicity, capped at 65535.
    pub open spec fn canonical(&self) -> bool {
        &&& basis_pairs(self.pairs(), NUM_PRIMES as nat)
        &&& forall|j: nat|
            j < NUM_PRIMES && #[trigger] basis_prime(j) <= 0xFFFF && listed_exponent(
                self.pairs(),
                basis_prime(j),
            ) < 0xFFFF ==> self.remainder_value() % basis_prime(j) != 0
    }

    /// Multiplies the exponents of two sparse lists: each sum of exponents
    /// that doesn't fit in 16 bits saturates, and the excess power of the
    /// prime multiplies the remainder.
    #[verifier::spinoff_prover]
    fn mul_primes(lhs: &Vec<(u16, u16)>, rhs: &Vec<(u16, u16)>, remainder: &mut Option<Natural>) -> (primes: Vec<(u16, u16)>)
        requires
            sorted_primes(lhs@),
            sorted_primes(rhs@),
            *old(remainder) matches Some(r) ==> r@ >= 2,
        ensures
            sorted_primes(primes@),
            primes.len() == zip_spec(lhs@, rhs@).len(),
            forall|m: int|
                0 <= m < primes.len() ==> #[trigger] primes[m] == (
                    zip_spec(lhs@, rhs@)[m].0,
                    saturated(zip_spec(lhs@, rhs@)[m].1 + zip_spec(lhs@, rhs@)[m].2) as u16,
                ),
            *final(remainder) matches Some(r) ==> r@ >= 2,
            *old(remainder) is Some ==> *final(remainder) is Some,
            sparse_product(primes@) * opt_value(*final(remainder)) == sparse_product(lhs@)
                * sparse_product(rhs@) * opt_value(*old(remainder)),
    {
        let z = zip_counts(lhs, rhs);
        let mut primes: Vec<(u16, u16)> = Vec::new();
        let ghost rem0 = opt_value(*remainder) as int;
        let ghost was_some = *remainder is Some;
        let mut k: usize = 0;
        proof {
            assert(z@.take(0) =~= Seq::<(u16, u16, u16)>::empty());
            assert(left_pairs(z@.take(0)) =~= Seq::<(u16, u16)>::empty());
            assert(right_pairs(z@.take(0)) =~= Seq::<(u16, u16)>::empty());
        }
        while k < z.len()
            invariant
                sorted_triples(z@),
                k <= z.len(),
                primes.len() == k,
                forall|m: int| 0 <= m < k ==> #[trigger] primes[m].0 == z[m].0,
                forall|m: int|
                    0 <= m < k ==> #[trigger] primes[m] == (z[m].0, saturated(z[m].1 + z[m].2) as u16),
                *remainder matches Some(r) ==> r@ >= 2,
                was_some ==> *remainder is Some,
                sparse_product(primes@) * opt_value(*remainder) == rem0 * sparse_product(
                    left_pairs(z@.take(k as int)),
                ) * sparse_product(right_pairs(z@.take(k as int))),
            decreases z.len() - k,
        {
            let (p, l, r) = z[k];
            let ghost pb = sparse_product(primes@) as int;
            let ghost rb = opt_value(*remainder) as int;
            let ghost lb = sparse_product(left_pairs(z@.take(k as int))) as int;
            let ghost hb = sparse_product(right_pairs(z@.take(k as int))) as int;
            let sum = l as u32 + r as u32;
            let c: u16 = if sum <= 0xFFFF { sum as u16 } else { 0xFFFF };
            let ghost prev = primes@;
            primes.push((p, c));
            proof {
                assert(c as int == saturated(l + r));
                assert forall|m: int| 0 <= m < k + 1 implies #[trigger] primes[m] == (
                    z[m].0,
                    saturated(z[m].1 + z[m].2) as u16,
                ) by {
                    if m < k {
                        assert(primes[m] == prev[m]);
                    }
                }
            }
            if sum > 0xFFFF {
                let factor = Natural::from_u128(p as u128).pow(sum - 0xFFFF);
                proof {
                    lemma_pow_at_least_two(p as nat, (sum - 0xFFFF) as nat);
                    if rb >= 2 {
                        lemma_mul_at_least_two(factor@ as int, rb);
                    }
                }
                *remainder = match remainder {
                    None => Some(factor),
                    Some(x) => Some(x.mul(&factor)),
                };
                assert(opt_value(*remainder) == rb * pow(p as int, (sum - c) as nat));
            } else {
                proof {
                    assert(c == sum);
                    lemma_pow0(p as int);
                    assert(pow(p as int, (sum - c) as nat) == 1);
                    assert(opt_value(*remainder) == rb * pow(p as int, (sum - c) as nat))
                        by (nonlinear_arith)
                        requires
                            opt_value(*remainder) == rb,
                            pow(p as int, (sum - c) as nat) == 1,
                    ;
                }
            }
            proof {
                assert(z@.take(k + 1) =~= z@.take(k as int).push(z[k as int]));
                lemma_pairs_push(z@.take(k as int), z[k as int]);
                lemma_sparse_push(left_pairs(z@.take(k as int)), (p, l));
                lemma_sparse_push(right_pairs(z@.take(k as int)), (p, r));
                lemma_sparse_push(prev, (p, c));
                assert(prev.push((p, c)) =~= primes@);
                lemma_pow_adds(p as int, l as nat, r as nat);
                lemma_pow_adds(p as int, c as nat, (sum - c) as nat);
                let x = pow(p as int, (sum - c) as nat);
                let xc = pow(p as int, c as nat);
                let xl = pow(p as int, l as nat);
                let xr = pow(p as int, r as nat);
                assert(xc * x == xl * xr);
                assert(opt_value(*remainder) == rb * x);
                assert((pb * xc) * (rb * x) == (pb * rb) * (xc * x)) by (nonlinear_arith);
                assert(rem0 * (lb * xl) * (hb * xr) == (rem0 * lb * hb) * (xl * xr))
                    by (nonlinear_arith);
            }
            k = k + 1;
        }
        proof {
            assert(z@.take(z.len() as int) =~= z@);
            assert forall|m: int| 0 <= m < primes.len() implies #[trigger] primes[m].0 >= 2 by {
                assert(primes[m].0 == z[m].0);
            }
            assert forall|m: int, n: int| 0 <= m < n < primes.len() implies primes[m].0
                < primes[n].0 by {
                assert(primes[m].0 == z[m].0 && primes[n].0 == z[n].0);
            }
            let (a, b, c) = (sparse_product(lhs@) as int, sparse_product(rhs@) as int, rem0);
            assert(c * a * b == a * b * c) by (nonlinear_arith);
        }
        primes
    }

    /// Raises the exponents to the power `exponent`: each product that
    /// doesn't fit in 16 bits saturates, and the excess power of the prime
    /// multiplies the remainder.
    #[verifier::spinoff_prover]
    fn pow_primes(this: &Vec<(u16, u16)>, exponent: u32, remainder: &mut Option<Natural>) -> (primes: Vec<(u16, u16)>)
        requires
            sorted_primes(this@),
            forall|i: int| 0 <= i < this.len() ==> this[i].1 * exponent <= u32::MAX,
            *old(remainder) matches Some(r) ==> r@ >= 2,
        ensures
            sorted_primes(primes@),
            primes.len() == this.len(),
            forall|i: int| 0 <= i < this.len() ==> #[trigger] primes[i].0 == this[i].0,
            forall|i: int|
                0 <= i < this.len() ==> #[trigger] primes[i].1 as int == saturated(this[i].1 * exponent),
            *final(remainder) matches Some(r) ==> r@ >= 2,
            *old(remainder) is Some ==> *final(remainder) is Some,
            sparse_product(primes@) * opt_value(*final(remainder)) == pow(
                sparse_product(this@) as int,
                exponent as nat,
            ) * opt_value(*old(remainder)),
    {
        let mut primes: Vec<(u16, u16)> = Vec::new();
        let ghost rem0 = opt_value(*remainder) as int;
        let ghost was_some = *remainder is Some;
        let mut k: usize = 0;
        proof {
            assert(this@.take(0) =~= Seq::<(u16, u16)>::empty());
            lemma1_pow(exponent as nat);
        }
        while k < this.len()
            invariant
                sorted_primes(this@),
                forall|i: int| 0 <= i < this.len() ==> this[i].1 * exponent <= u32::MAX,
                k <= this.len(),
                primes.len() == k,
                forall|i: int| 0 <= i < k ==> #[trigger] primes[i].0 == this[i].0,
                forall|i: int|
                    0 <= i < k ==> #[trigger] primes[i].1 as int == saturated(this[i].1 * exponent),
                *remainder matches Some(r) ==> r@ >= 2,
                was_some ==> *remainder is Some,
                sparse_product(primes@) * opt_value(*remainder) == rem0 * pow(
                    sparse_product(this@.take(k as int)) as int,
                    exponent as nat,
                ),
            decreases this.len() - k,
        {
            let (p, e) = this[k];
            let ghost pb = sparse_product(primes@) as int;
            let ghost rb = opt_value(*remainder) as int;
            let ghost qb = sparse_product(this@.take(k as int)) as int;
            let product = e as u32 * exponent;
            let c: u16 = if product <= 0xFFFF { product as u16 } else { 0xFFFF };
            assert(c as int == saturated(this[k as int].1 * exponent));
            let ghost prev = primes@;
            primes.push((p, c));
            if product > 0xFFFF {
                let factor = Natural::from_u128(p as u128).pow(product - 0xFFFF);
                proof {
                    lemma_pow_at_least_two(p as nat, (product - 0xFFFF) as nat);
                    if rb >= 2 {
                        lemma_mul_at_least_two(factor@ as int, rb);
                    }
                }
                *remainder = match remainder {
                    None => Some(factor),
                    Some(x) => Some(x.mul(&factor)),
                };
                assert(opt_value(*remainder) == rb * factor@);
            } else {
                proof {
                    lemma_pow0(p as int);
                }
            }
            proof {
                assert forall|i: int| 0 <= i < k + 1 implies #[trigger] primes[i].0 == this[i].0
                    && primes[i].1 as int == saturated(this[i].1 * exponent) by {
                    if i < k {
                        assert(primes[i] == prev[i]);
                        assert(prev[i].0 == this[i].0);
                    } else {
                        assert(primes[i] == (p, c));
                        assert(this[i] == (p, e));
                    }
                }
                assert(this@.take(k + 1) =~= this@.take(k as int).push(this[k as int]));
                lemma_sparse_push(this@.take(k as int), (p, e));
                lemma_sparse_push(prev, (p, c));
                assert(prev.push((p, c)) =~= primes@);
                lemma_pow_adds(p as int, c as nat, (product - c) as nat);
                lemma_prime_pow_pos(p, e);
                lemma_sparse_product_nonneg(this@.take(k as int));
                lemma_pow_distributes(qb, pow(p as int, e as nat), exponent as nat);
                lemma_pow_multiplies(p as int, e as nat, exponent as nat);
                let x = pow(p as int, (product - c) as nat);
                let y = pow(pow(p as int, e as nat), exponent as nat);
                let xc = pow(p as int, c as nat);
                let qe = pow(qb, exponent as nat);
                assert(y == xc * x);
                assert(opt_value(*remainder) == rb * x);
                assert((pb * xc) * (rb * x) == rem0 * (qe * y)) by (nonlinear_arith)
                    requires
                        pb * rb == rem0 * qe,
                        y == xc * x,
                ;
            }
            k = k + 1;
        }
        proof {
            assert(this@.take(this.len() as int) =~= this@);
            let (a, c) = (pow(sparse_product(this@) as int, exponent as nat), rem0);
            assert(c * a == a * c) by (nonlinear_arith);
            assert forall|k: int| 0 <= k < primes.len() implies #[trigger] primes[k].0 >= 2 by {
                assert(primes[k].0 == this[k].0);
            }
            assert forall|k: int, l: int| 0 <= k < l < primes.len() implies primes[k].0
                < primes[l].0 by {
                assert(primes[k].0 == this[k].0 && primes[l].0 == this[l].0);
            }
        }
        primes
    }
}

impl<const NUM_PRIMES: usize> DenomSparseU16<NUM_PRIMES> {
    /// Decomposes a positive natural: the power of two first, then the odd
    /// basis primes while they divide it (up to an exponent of 65535 each),
    /// the rest being the remainder.
    #[verifier::spinoff_prover]
    fn decompose_natural(x: &Natural) -> (r: Self)
        requires
            1 <= NUM_PRIMES <= MAX_BASIS_PRIMES,
            x@ > 0,
        ensures
            r.wf(),
            r.denom_value() == x@,
            r.canonical(),
    {
        let ghost x0 = x@;
        let mut x = x.copy();
        let mut count2 = x.trailing_zeros();
        let mut primes: Vec<(u16, u16)> = Vec::new();
        let mut c0: u16 = 0;
        let ghost k0 = count2;
        proof {
            lemma_pow2_basis(count2 as nat);
            lemma_fundamental_div_mod(x0 as int, vstd::arithmetic::power2::pow2(count2 as nat) as int);
        }
        if count2 != 0 {
            x = x.shr(count2);
            if count2 <= 0xFFFF {
                c0 = count2 as u16;
                count2 = 0;
            } else {
                c0 = 0xFFFF;
                count2 = count2 - 0xFFFF;
            }
            primes.push((2, c0));
        }
        proof {
            assert(c0 + count2 == k0);
            lemma_pow2_basis(k0 as nat);
            let pk = vstd::arithmetic::power2::pow2(k0 as nat);
            if k0 == 0 {
                vstd::arithmetic::power2::lemma2_to64();
                assert(x@ == x0);
                assert(pk == 1);
                assert(x0 == pk * x@);
            } else {
                assert(x@ == x0 / pk);
                assert(x0 % pk == 0);
                assert(x0 == pk * (x0 / pk) + x0 % pk);
                assert(x0 == pk * x@);
            }
            lemma_pow2_basis(c0 as nat);
            lemma_pow2_basis(count2 as nat);
            lemma_pow_adds(2, c0 as nat, count2 as nat);
            vstd::arithmetic::power2::lemma_pow2(count2 as nat);
            vstd::arithmetic::power2::lemma_pow2(k0 as nat);
            vstd::arithmetic::power2::lemma_pow2(c0 as nat);
            lemma_pow0(2);
            assert(sparse_product(Seq::<(u16, u16)>::empty()) == 1);
            lemma_sparse_push(Seq::<(u16, u16)>::empty(), (2u16, c0));
            assert(Seq::<(u16, u16)>::empty().push((2u16, c0)) =~= seq![(2u16, c0)]);
            if c0 != 0 {
                assert(primes@ =~= seq![(2u16, c0)]);
            } else {
                assert(primes@ =~= Seq::<(u16, u16)>::empty());
            }
            assert(sparse_product(primes@) == pow(2, c0 as nat));
            if c0 != 0 {
                lemma_basis_pairs_push(Seq::empty(), (2u16, c0), NUM_PRIMES as nat, 0);
                assert(primes@.last() == (2u16, c0));
                assert(primes@.drop_last() =~= Seq::<(u16, u16)>::empty());
            }
            assert(listed_exponent(primes@, 2) == c0);
            if k0 == 0 {
                vstd::arithmetic::power2::lemma2_to64();
                vstd::arithmetic::div_mod::lemma_div_basics(x0 as int);
            }
            assert(x@ == x0 / vstd::arithmetic::power2::pow2(k0 as nat));
            assert(x@ % 2 == 1);
        }
        let ghost t = vstd::arithmetic::power2::pow2(count2 as nat);
        proof {
            assert(x0 == sparse_product(primes@) * t * x@) by (nonlinear_arith)
                requires
                    x0 == vstd::arithmetic::power2::pow2(k0 as nat) * x@,
                    vstd::arithmetic::power2::pow2(k0 as nat) == pow(2, c0 as nat) * t,
                    sparse_product(primes@) == pow(2, c0 as nat),
            ;
            assert(x@ >= 1) by (nonlinear_arith)
                requires
                    x0 == sparse_product(primes@) * t * x@,
                    x0 > 0,
            ;
        }
        let mut done = x.is_one();
        let mut p: u32 = 3;
        let mut i: usize = 0;
        let mut shift: u32 = 1;
        let mut pw: u32 = 2;
        proof {
            vstd::arithmetic::power2::lemma2_to64();
        }
        while i + 1 < NUM_PRIMES && !done
            invariant
                pw == vstd::arithmetic::power2::pow2(shift as nat),
                i + 1 < NUM_PRIMES ==> pw < p,
                1 <= NUM_PRIMES <= MAX_BASIS_PRIMES,
                i + 1 <= NUM_PRIMES,
                i + 1 < NUM_PRIMES ==> p == odd_prime(i as nat),
                sorted_primes(primes@),
                i + 1 < NUM_PRIMES && primes.len() > 0 ==> primes[primes.len() - 1].0 < p,
                x@ >= 1,
                t >= 1,
                x0 == sparse_product(primes@) * t * x@,
                done ==> x@ == 1,
                t == vstd::arithmetic::power2::pow2(count2 as nat),
                basis_pairs(primes@, NUM_PRIMES as nat),
                x@ % 2 == 1,
                listed_exponent(primes@, 2) == c0,
                c0 < 0xFFFF ==> count2 == 0,
                forall|j: nat|
                    j < i && listed_exponent(primes@, #[trigger] odd_prime(j)) < 0xFFFF ==> x@
                        % odd_prime(j) != 0,
            ensures
                done || i + 1 >= NUM_PRIMES || odd_prime(i as nat) > 0xFFFF,
            decreases NUM_PRIMES - i,
        {
            proof {
                lemma_odd_prime_bounds(i as nat);
            }
            if p > 0xFFFF {
                break;
            }
            let mut count: u16 = 0;
            let ghost xs = x@;
            let ghost old_primes = primes@;
            proof {
                lemma_pow0(p as int);
            }
            let (s2, w2) = power_of_two_below(p, shift, pw);
            shift = s2;
            pw = w2;
            let divider = OddDivider::<u64>::with_multiplier(p as u64, shift, pw, magic_u64_at(i));
            while count != 0xFFFF
                invariant
                    divider.is_valid(),
                    divider.divisor == p,
                    p <= 0xFFFF,
                    p >= 3,
                    x@ >= 1,
                    xs == x@ * pow(p as int, count as nat),
                    done ==> x@ == 1,
                    x@ % 2 == 1,
                    forall|j: nat|
                        j < i && listed_exponent(primes@, #[trigger] odd_prime(j)) < 0xFFFF ==> x@
                            % odd_prime(j) != 0,
                ensures
                    x@ >= 1,
                    xs == x@ * pow(p as int, count as nat),
                    done ==> x@ == 1,
                    x@ % 2 == 1,
                    forall|j: nat|
                        j < i && listed_exponent(primes@, #[trigger] odd_prime(j)) < 0xFFFF ==> x@
                            % odd_prime(j) != 0,
                    x@ == 1 || count == 0xFFFF || x@ % (p as nat) != 0,
                decreases 0xFFFF - count,
            {
                if x.rem_by(&divider) != 0 {
                    break;
                }
                let bigp = Natural::from_u128(p as u128);
                let quo = x.div(&bigp);
                proof {
                    lemma_fundamental_div_mod(x@ as int, p as int);
                    lemma_pow_adds(p as int, count as nat, 1);
                    lemma_pow1(p as int);
                    assert(xs == quo@ * pow(p as int, (count + 1) as nat)) by (nonlinear_arith)
                        requires
                            xs == x@ * pow(p as int, count as nat),
                            x@ == p * quo@,
                            pow(p as int, (count + 1) as nat) == pow(p as int, count as nat) * p,
                    ;
                    assert(quo@ >= 1) by (nonlinear_arith)
                        requires
                            x@ == p * quo@,
                            x@ >= 1,
                    ;
                    lemma_mul_is_commutative(p as int, quo@ as int);
                    lemma_not_divides_factor(x@ as int, quo@ as int, p as int, 2);
                    assert forall|j: nat|
                        j < i && listed_exponent(primes@, #[trigger] odd_prime(j)) < 0xFFFF implies quo@
                            % odd_prime(j) != 0 by {
                        lemma_odd_prime_bounds(j);
                        lemma_not_divides_factor(x@ as int, quo@ as int, p as int, odd_prime(j) as int);
                    }
                }
                x = quo;
                count = count + 1;
                if x.is_one() {
                    done = true;
                    break;
                }
            }
            proof {
                if x@ == 1 {
                    lemma_small_mod(1, p as nat);
                }
                assert forall|k: int| 0 <= k < primes@.len() implies (#[trigger] primes@[k]).0 < p by {
                    if k < primes.len() - 1 {
                        assert(primes[k].0 < primes[primes.len() - 1].0);
                    }
                }
                lemma_listed_absent(primes@, p as nat);
                assert forall|j: nat| j < i implies #[trigger] odd_prime(j) != p by {
                    lemma_odd_prime_increasing(j, i as nat);
                }
            }
            if count != 0 {
                let ghost before = primes@;
                primes.push((p as u16, count));
                proof {
                    assert(primes@.drop_last() =~= before);
                    assert(primes@.last() == (p as u16, count));
                    assert(basis_prime(i as nat + 1) == (p as u16) as nat);
                    lemma_basis_pairs_push(before, (p as u16, count), NUM_PRIMES as nat, i as nat + 1);
                    lemma_sparse_push(before, (p as u16, count));
                    let b = sparse_product(before) as int;
                    let y = pow(p as int, count as nat);
                    assert(x0 == (b * y) * t * x@) by (nonlinear_arith)
                        requires
                            x0 == b * t * xs,
                            xs == x@ * y,
                    ;
                }
            } else {
                proof {
                    assert(xs == x@);
                }
            }
            proof {
                assert(listed_exponent(primes@, 2) == c0);
                assert(listed_exponent(primes@, p as nat) == count as nat);
                assert forall|j: nat|
                    j < i + 1 && listed_exponent(primes@, #[trigger] odd_prime(j)) < 0xFFFF implies x@
                        % odd_prime(j) != 0 by {
                    if j == i {
                        assert(odd_prime(j) == p);
                    } else {
                        assert(listed_exponent(primes@, odd_prime(j)) == listed_exponent(
                            old_primes,
                            odd_prime(j),
                        ));
                    }
                }
            }
            if i + 2 < NUM_PRIMES {
                proof {
                    lemma_odd_prime_increasing(i as nat, i as nat + 1);
                }
                p = next_odd_prime(i, p);
            }
            i = i + 1;
        }
        let one = x.is_one();
        let remainder = if one && count2 == 0 {
            None
        } else {
            Some(x.shl(count2))
        };
        proof {
            lemma_pow2_basis(count2 as nat);
            if count2 > 0 {
                vstd::arithmetic::power2::lemma_pow2_strictly_increases(0, count2 as nat);
                vstd::arithmetic::power2::lemma2_to64();
            }
            if !(one && count2 == 0) {
                if x@ >= 2 {
                    lemma_mul_at_least_two(t as int, x@ as int);
                } else {
                    lemma_mul_at_least_two(x@ as int, t as int);
                }
            }
            let b = sparse_product(primes@) as int;
            assert(x0 == b * (x@ * t)) by (nonlinear_arith)
                requires
                    x0 == b * t * x@,
            ;
        }
        let r = DenomSparseU16 { primes, remainder };
        proof {
            assert(r.remainder_value() == x@ * t) by {
                if one && count2 == 0 {
                    vstd::arithmetic::power2::lemma2_to64();
                }
            }
            assert forall|j: nat|
                j < NUM_PRIMES && #[trigger] basis_prime(j) <= 0xFFFF && listed_exponent(
                    r.pairs(),
                    basis_prime(j),
                ) < 0xFFFF implies r.remainder_value() % basis_prime(j) != 0 by {
                if j == 0 {
                    vstd::arithmetic::power2::lemma2_to64();
                    assert(r.remainder_value() == x@ * 1);
                } else {
                    let o = (j - 1) as nat;
                    lemma_odd_prime_bounds(o);
                    assert(basis_prime(j) == odd_prime(o));
                    if o >= i {
                        if x@ == 1 {
                            lemma_small_mod(1, odd_prime(o));
                        } else if o > i {
                            lemma_odd_prime_increasing(i as nat, o);
                        }
                    }
                    lemma_odd_not_divides_shifted(x@, count2 as nat, odd_prime(o));
                }
            }
        }
        r
    }
}

impl<'a, const NUM_PRIMES: usize> DenomRef<DenomSparseU16<NUM_PRIMES>> for &'a DenomSparseU16<
    NUM_PRIMES,
> {

}

impl<const NUM_PRIMES: usize> Denom for DenomSparseU16<NUM_PRIMES> {
    open spec fn denom_value(&self) -> nat {
        self.primes_value() * self.remainder_value()
    }

    open spec fn wf(&self) -> bool {
        self.well_formed()
    }

    open spec fn is_canonical(&self) -> bool {
        self.canonical()
    }

    open spec fn same_repr(&self, other: &Self) -> bool {
        &&& self.pairs() == other.pairs()
        &&& self.remainder_value() == other.remainder_value()
    }

    open spec fn is_product_of(&self, a: &Self, b: &Self) -> bool {
        &&& self.pairs().len() == zip_spec(a.pairs(), b.pairs()).len()
        &&& forall|m: int|
            0 <= m < self.pairs().len() ==> #[trigger] self.pairs()[m] == (
                zip_spec(a.pairs(), b.pairs())[m].0,
                saturated(zip_spec(a.pairs(), b.pairs())[m].1 + zip_spec(a.pairs(), b.pairs())[m].2)
                    as u16,
            )
        &&& self.denom_value() == a.denom_value() * b.denom_value()
    }

    open spec fn is_power_of(&self, a: &Self, e: u32) -> bool {
        &&& e == 0 ==> self.pairs().len() == 0 && self.remainder_opt() is None
        &&& e > 0 ==> self.pairs().len() == a.pairs().len()
        &&& e > 0 ==> forall|i: int|
            0 <= i < a.pairs().len() ==> #[trigger] self.pairs()[i] == (
                a.pairs()[i].0,
                saturated(a.pairs()[i].1 * e) as u16,
            )
        &&& self.denom_value() == pow(a.denom_value() as int, e as nat)
    }

    open spec fn is_common_multiple_of(&self, a: &Self, b: &Self) -> bool {
        &&& self.pairs().len() == zip_spec(a.pairs(), b.pairs()).len()
        &&& forall|m: int|
            0 <= m < self.pairs().len() ==> #[trigger] self.pairs()[m] == (
                zip_spec(a.pairs(), b.pairs())[m].0,
                max_u16(zip_spec(a.pairs(), b.pairs())[m].1, zip_spec(a.pairs(), b.pairs())[m].2),
            )
        &&& self.remainder_value() == lcm(a.remainder_value(), b.remainder_value())
    }

    open spec fn supported() -> bool {
        1 <= NUM_PRIMES <= MAX_BASIS_PRIMES
    }

    proof fn lemma_positive(&self) {
        lemma_sparse_product_pos(self.pairs());
        lemma_mul_strictly_positive(self.primes_value() as int, self.remainder_value() as int);
    }

    fn one() -> (r: Self)
        ensures
            r.pairs().len() == 0,
            r.remainder_opt() is None,
    {
        let r = DenomSparseU16 { primes: Vec::new(), remainder: None };
        proof {
            assert(r.primes@ =~= Seq::<(u16, u16)>::empty());
            assert(sparse_product(r.primes@) == 1);
            assert(r.primes_value() == 1);
            assert(r.remainder_value() == 1);
            assert(r.denom_value() == 1 * 1);
            assert forall|j: nat| #[trigger] basis_prime(j) >= 2 by {
                lemma_basis_prime(j, j);
            }
            assert forall|j: nat| #[trigger] basis_prime(j) >= 2 implies 1nat % basis_prime(j) != 0 by {
                vstd::arithmetic::div_mod::lemma_small_mod(1, basis_prime(j));
            }
        }
        r
    }

    fn copy(&self) -> (r: Self)
        ensures
            r.pairs() == self.pairs(),
            r.remainder_value() == self.remainder_value(),
    {
        let mut primes: Vec<(u16, u16)> = Vec::new();
        let mut k: usize = 0;
        while k < self.primes.len()
            invariant
                k <= self.primes.len(),
                primes@ == self.primes@.take(k as int),
            decreases self.primes.len() - k,
        {
            primes.push(self.primes[k]);
            k = k + 1;
            assert(primes@ =~= self.primes@.take(k as int));
        }
        proof {
            assert(primes@ =~= self.primes@);
        }
        let remainder = match &self.remainder {
            Some(x) => Some(x.copy()),
            None => None,
        };
        DenomSparseU16 { primes, remainder }
    }

    fn from_natural(x: &Natural) -> Self {
        Self::decompose(x)
    }

    fn to_natural(&self) -> (r: Natural) {
        let mut result = match &self.remainder {
            Some(x) => x.copy(),
            None => Natural::one(),
        };
        let mut tmp: usize = 1;
        let mut k: usize = 0;
        proof {
            assert(self.primes@.take(0) =~= Seq::<(u16, u16)>::empty());
        }
        while k < self.primes.len()
            invariant
                self.wf(),
                k <= self.primes.len(),
                tmp >= 1,
                result@ * tmp == self.remainder_value() * sparse_product(
                    self.primes@.take(k as int),
                ),
            decreases self.primes.len() - k,
        {
            let (p, count) = self.primes[k];
            proof {
                assert(self.primes[k as int].0 >= 2);
                assert(self.primes@.take(k + 1) =~= self.primes@.take(k as int).push((p, count)));
                lemma_sparse_push(self.primes@.take(k as int), (p, count));
            }
            accum_pow_natural(&mut result, &mut tmp, p as usize, count);
            proof {
                let b = sparse_product(self.primes@.take(k as int)) as int;
                let x = pow(p as int, count as nat);
                assert(self.remainder_value() * b * x == self.remainder_value() * (b * x))
                    by (nonlinear_arith);
            }
            k = k + 1;
        }
        proof {
            assert(self.primes@.take(self.primes.len() as int) =~= self.primes@);
            assert(self.remainder_value() * self.primes_value() == self.primes_value() * self.remainder_value())
                by (nonlinear_arith);
        }
        result.mul(&Natural::from_u128(tmp as u128))
    }

    fn mul(&self, rhs: &Self) -> (r: Self)
        ensures
            r.pairs().len() == zip_spec(self.pairs(), rhs.pairs()).len(),
            forall|m: int|
                0 <= m < r.pairs().len() ==> #[trigger] r.pairs()[m] == (
                    zip_spec(self.pairs(), rhs.pairs())[m].0,
                    saturated(zip_spec(self.pairs(), rhs.pairs())[m].1 + zip_spec(
                        self.pairs(),
                        rhs.pairs(),
                    )[m].2) as u16,
                ),
    {
        let mut remainder = match (&self.remainder, &rhs.remainder) {
            (None, None) => None,
            (None, Some(r)) => Some(r.copy()),
            (Some(l), None) => Some(l.copy()),
            (Some(l), Some(r)) => Some(l.mul(r)),
        };
        proof {
            if self.remainder is Some && rhs.remainder is Some {
                lemma_mul_at_least_two(self.remainder_value() as int, rhs.remainder_value() as int);
            }
        }
        let primes = Self::mul_primes(&self.primes, &rhs.primes, &mut remainder);
        proof {
            let a = self.primes_value() as int;
            let b = rhs.primes_value() as int;
            let x = self.remainder_value() as int;
            let y = rhs.remainder_value() as int;
            assert(a * b * (x * y) == (a * x) * (b * y)) by (nonlinear_arith);
        }
        DenomSparseU16 { primes, remainder }
    }

    /// The product of each exponent by `e` fits in 32 bits.
    open spec fn pow_supported(&self, e: u32) -> bool {
        forall|i: int| 0 <= i < self.pairs().len() ==> #[trigger] self.pairs()[i].1 * e <= u32::MAX
    }

    fn pow(&self, e: u32) -> (r: Self)
        ensures
            e > 0 ==> r.pairs().len() == self.pairs().len(),
            e > 0 ==> forall|i: int|
                0 <= i < self.pairs().len() ==> #[trigger] r.pairs()[i] == (
                    self.pairs()[i].0,
                    saturated(self.pairs()[i].1 * e) as u16,
                ),
    {
        if e == 0 {
            proof {
                lemma_pow0(self.denom_value() as int);
            }
            return Self::one();
        }
        let mut remainder = match &self.remainder {
            None => None,
            Some(r) => Some(r.pow(e)),
        };
        proof {
            if self.remainder is Some {
                lemma_pow_at_least_two(self.remainder_value(), e as nat);
            } else {
                lemma1_pow(e as nat);
            }
        }
        let primes = Self::pow_primes(&self.primes, e, &mut remainder);
        proof {
            lemma_pow_distributes(self.primes_value() as int, self.remainder_value() as int, e as nat);
        }
        let r = DenomSparseU16 { primes, remainder };
        proof {
            assert(r.pairs().len() == self.pairs().len());
            assert forall|i: int| 0 <= i < self.pairs().len() implies #[trigger] r.pairs()[i] == (
                self.pairs()[i].0,
                saturated(self.pairs()[i].1 * e) as u16,
            ) by {
            }
            assert(r.is_power_of(self, e));
        }
        r
    }

    fn mul_integer(&self, x: &Integer) -> (r: Integer) {
        let mut x = x.copy();
        let ghost x0 = x@;
        let mut tmp: usize = 1;
        let mut k: usize = 0;
        proof {
            assert(self.primes@.take(0) =~= Seq::<(u16, u16)>::empty());
        }
        while k < self.primes.len()
            invariant
                self.wf(),
                k <= self.primes.len(),
                tmp >= 1,
                x@ * tmp == x0 * sparse_product(self.primes@.take(k as int)),
            decreases self.primes.len() - k,
        {
            let (p, count) = self.primes[k];
            let ghost xb = x@;
            let ghost tb = tmp as int;
            proof {
                assert(self.primes[k as int].0 >= 2);
                assert(self.primes@.take(k + 1) =~= self.primes@.take(k as int).push((p, count)));
                lemma_sparse_push(self.primes@.take(k as int), (p, count));
            }
            accum_pow(&mut x, &mut tmp, p as usize, count);
            proof {
                let b = sparse_product(self.primes@.take(k as int)) as int;
                let y = pow(p as int, count as nat);
                assert(x@ * tmp == x0 * (b * y)) by (nonlinear_arith)
                    requires
                        x@ * tmp == xb * tb * y,
                        xb * tb == x0 * b,
                ;
            }
            k = k + 1;
        }
        proof {
            assert(self.primes@.take(self.primes.len() as int) =~= self.primes@);
        }
        x = x.mul_natural(&Natural::from_u128(tmp as u128));
        let ghost x1 = x@;
        match &self.remainder {
            Some(remainder) => {
                let ghost xa = x@;
                x = x.mul_natural(remainder);
                assert(x@ == x1 * self.remainder_value()) by (nonlinear_arith)
                    requires
                        xa == x1,
                        x@ == xa * remainder@,
                        self.remainder_value() == remainder@,
                ;
            },
            None => {
                assert(x@ == x1 * self.remainder_value()) by (nonlinear_arith)
                    requires
                        self.remainder_value() == 1,
                        x@ == x1,
                ;
            },
        }
        proof {
            let pv = self.primes_value() as int;
            let rv = self.remainder_value() as int;
            assert(x@ == x0 * (pv * rv)) by (nonlinear_arith)
                requires
                    x@ == x1 * rv,
                    x1 == x0 * pv,
            ;
        }
        x
    }

    fn normalize(lnum: &mut Integer, rnum: &mut Integer, ldenom: &Self, rdenom: &Self) -> (r: Self)
        ensures
            r.pairs().len() == zip_spec(ldenom.pairs(), rdenom.pairs()).len(),
            forall|m: int|
                0 <= m < r.pairs().len() ==> #[trigger] r.pairs()[m] == (
                    zip_spec(ldenom.pairs(), rdenom.pairs())[m].0,
                    max_u16(
                        zip_spec(ldenom.pairs(), rdenom.pairs())[m].1,
                        zip_spec(ldenom.pairs(), rdenom.pairs())[m].2,
                    ),
                ),
            r.remainder_value() == lcm(ldenom.remainder_value(), rdenom.remainder_value()),
    {
        let ghost l0 = lnum@;
        let ghost r0 = rnum@;
        let z = zip_counts(&ldenom.primes, &rdenom.primes);
        let mut primes: Vec<(u16, u16)> = Vec::new();
        let mut ltmp: usize = 1;
        let mut rtmp: usize = 1;
        let mut k: usize = 0;
        proof {
            assert(z@.take(0) =~= Seq::<(u16, u16, u16)>::empty());
            assert(left_pairs(z@.take(0)) =~= Seq::<(u16, u16)>::empty());
            assert(right_pairs(z@.take(0)) =~= Seq::<(u16, u16)>::empty());
        }
        while k < z.len()
            invariant
                sorted_triples(z@),
                k <= z.len(),
                primes.len() == k,
                forall|m: int| 0 <= m < k ==> #[trigger] primes[m].0 == z[m].0,
                forall|m: int| 0 <= m < k ==> #[trigger] primes[m] == (z[m].0, max_u16(z[m].1, z[m].2)),
                ltmp >= 1,
                rtmp >= 1,
                lnum@ * ltmp * sparse_product(left_pairs(z@.take(k as int))) == l0 * sparse_product(
                    primes@,
                ),
                rnum@ * rtmp * sparse_product(right_pairs(z@.take(k as int))) == r0 * sparse_product(
                    primes@,
                ),
            decreases z.len() - k,
        {
            let (p, lcount, rcount) = z[k];
            let ghost ln = lnum@;
            let ghost lt = ltmp as int;
            let ghost rn = rnum@;
            let ghost rt = rtmp as int;
            let ghost lb = sparse_product(left_pairs(z@.take(k as int))) as int;
            let ghost hb = sparse_product(right_pairs(z@.take(k as int))) as int;
            let ghost pb = sparse_product(primes@) as int;
            let ghost prev = primes@;
            proof {
                assert(z[k as int].0 >= 2);
                lemma_pow_adds(p as int, lcount as nat, (rcount - lcount) as nat);
                lemma_pow_adds(p as int, rcount as nat, (lcount - rcount) as nat);
            }
            let c: u16;
            if lcount == rcount {
                c = lcount;
            } else if lcount < rcount {
                accum_pow(lnum, &mut ltmp, p as usize, rcount - lcount);
                c = rcount;
            } else {
                accum_pow(rnum, &mut rtmp, p as usize, lcount - rcount);
                c = lcount;
            }
            primes.push((p, c));
            proof {
                assert(c == max_u16(lcount, rcount));
                assert forall|m: int| 0 <= m < k + 1 implies #[trigger] primes[m] == (
                    z[m].0,
                    max_u16(z[m].1, z[m].2),
                ) by {
                    if m < k {
                        assert(primes[m] == prev[m]);
                    }
                }
                assert(z@.take(k + 1) =~= z@.take(k as int).push(z[k as int]));
                lemma_pairs_push(z@.take(k as int), z[k as int]);
                lemma_sparse_push(left_pairs(z@.take(k as int)), (p, lcount));
                lemma_sparse_push(right_pairs(z@.take(k as int)), (p, rcount));
                lemma_sparse_push(prev, (p, c));
                assert(prev.push((p, c)) =~= primes@);
                let xl = pow(p as int, lcount as nat);
                let xr = pow(p as int, rcount as nat);
                let xc = pow(p as int, c as nat);
                if lcount == rcount {
                    assert(lnum@ * ltmp * (lb * xl) == l0 * (pb * xc)) by (nonlinear_arith)
                        requires
                            ln * lt * lb == l0 * pb,
                            lnum@ == ln,
                            ltmp == lt,
                            xl == xc,
                    ;
                    assert(rnum@ * rtmp * (hb * xr) == r0 * (pb * xc)) by (nonlinear_arith)
                        requires
                            rn * rt * hb == r0 * pb,
                            rnum@ == rn,
                            rtmp == rt,
                            xr == xc,
                    ;
                } else if lcount < rcount {
                    let d = pow(p as int, (rcount - lcount) as nat);
                    assert(lnum@ * ltmp * (lb * xl) == l0 * (pb * xc)) by (nonlinear_arith)
                        requires
                            ln * lt * lb == l0 * pb,
                            lnum@ * ltmp == ln * lt * d,
                            xc == xl * d,
                    ;
                    assert(rnum@ * rtmp * (hb * xr) == r0 * (pb * xc)) by (nonlinear_arith)
                        requires
                            rn * rt * hb == r0 * pb,
                            rnum@ == rn,
                            rtmp == rt,
                            xr == xc,
                    ;
                } else {
                    let d = pow(p as int, (lcount - rcount) as nat);
                    assert(lnum@ * ltmp * (lb * xl) == l0 * (pb * xc)) by (nonlinear_arith)
                        requires
                            ln * lt * lb == l0 * pb,
                            lnum@ == ln,
                            ltmp == lt,
                            xl == xc,
                    ;
                    assert(rnum@ * rtmp * (hb * xr) == r0 * (pb * xc)) by (nonlinear_arith)
                        requires
                            rn * rt * hb == r0 * pb,
                            rnum@ * rtmp == rn * rt * d,
                            xc == xr * d,
                    ;
                }
            }
            k = k + 1;
        }
        proof {
            assert(z@.take(z.len() as int) =~= z@);
            assert forall|m: int| 0 <= m < primes.len() implies #[trigger] primes[m].0 >= 2 by {
                assert(primes[m].0 == z[m].0);
            }
            assert forall|m: int, n: int| 0 <= m < n < primes.len() implies primes[m].0
                < primes[n].0 by {
                assert(primes[m].0 == z[m].0 && primes[n].0 == z[n].0);
            }
        }
        let ghost lbig = ldenom.primes_value() as int;
        let ghost rbig = rdenom.primes_value() as int;
        let ghost pbig = sparse_product(primes@) as int;
        let ghost lbefore = lnum@ * ltmp;
        let ghost rbefore = rnum@ * rtmp;
        *lnum = lnum.mul_natural(&Natural::from_u128(ltmp as u128));
        *rnum = rnum.mul_natural(&Natural::from_u128(rtmp as u128));
        let ghost l1 = lnum@;
        let ghost r1 = rnum@;
        let ghost x = ldenom.remainder_value() as int;
        let ghost y = rdenom.remainder_value() as int;
        let remainder = match &ldenom.remainder {
            None => match &rdenom.remainder {
                None => None,
                Some(r) => {
                    *lnum = lnum.mul_natural(r);
                    let rem = Some(r.copy());
                    proof {
                        assert(x == 1 && y == r@ && y >= 2);
                        assert(opt_value(rem) == x * y && lnum@ * x == l1 * opt_value(rem)
                            && rnum@ * y == r1 * opt_value(rem)) by (nonlinear_arith)
                            requires
                                x == 1,
                                y == r@,
                                opt_value(rem) == r@,
                                lnum@ == l1 * r@,
                                rnum@ == r1,
                        ;
                    }
                    rem
                },
            },
            Some(l) => match &rdenom.remainder {
                None => {
                    *rnum = rnum.mul_natural(l);
                    let rem = Some(l.copy());
                    proof {
                        assert(x == l@ && y == 1 && x >= 2);
                        assert(opt_value(rem) == x * y && lnum@ * x == l1 * opt_value(rem)
                            && rnum@ * y == r1 * opt_value(rem)) by (nonlinear_arith)
                            requires
                                y == 1,
                                x == l@,
                                opt_value(rem) == l@,
                                rnum@ == r1 * l@,
                                lnum@ == l1,
                        ;
                    }
                    rem
                },
                Some(r) => {
                    if l.equals(r) {
                        let rem = Some(l.copy());
                        proof {
                            assert(x == l@ && y == r@ && x == y);
                        }
                        rem
                    } else {
                        let g = l.gcd(r);
                        proof {
                            lemma_lcm(l@, r@);
                        }
                        let lq = l.div(&g);
                        let rq = r.div(&g);
                        *lnum = lnum.mul_natural(&rq);
                        *rnum = rnum.mul_natural(&lq);
                        let rem = Some(l.mul(&rq));
                        proof {
                            assert(x == l@ && y == r@);
                            assert(lnum@ * x == l1 * opt_value(rem) && rnum@ * y == r1 * opt_value(
                                rem,
                            )) by (nonlinear_arith)
                                requires
                                    x == l@,
                                    y == r@,
                                    opt_value(rem) == l@ * rq@,
                                    lq@ * r@ == l@ * rq@,
                                    lnum@ == l1 * rq@,
                                    rnum@ == r1 * lq@,
                            ;
                        }
                        rem
                    }
                },
            },
        };
        let result = DenomSparseU16 { primes, remainder };
        proof {
            let z = result.remainder_value() as int;
            lemma_lcm(x as nat, y as nat);
            assert(z == lcm(x as nat, y as nat));
            assert(lnum@ * x == l1 * z);
            assert(rnum@ * y == r1 * z);
            assert(lnum@ * (lbig * x) == l0 * (pbig * z)) by (nonlinear_arith)
                requires
                    l1 == lbefore,
                    lbefore * lbig == l0 * pbig,
                    lnum@ * x == l1 * z,
            ;
            assert(rnum@ * (rbig * y) == r0 * (pbig * z)) by (nonlinear_arith)
                requires
                    r1 == rbefore,
                    rbefore * rbig == r0 * pbig,
                    rnum@ * y == r1 * z,
            ;
        }
        result
    }

    open spec fn coprime_with(&self, num: int) -> bool {
        &&& gcd(self.remainder_value(), abs(num)) == 1
        &&& forall|j: int|
            0 <= j < self.pairs().len() && #[trigger] self.pairs()[j].1 > 0 ==> num % (
            self.pairs()[j].0 as int) != 0
    }

    #[verifier::spinoff_prover]
    fn gcd_reduce(&mut self, num: &mut Integer)
        ensures
            gcd(final(self).remainder_value(), abs(final(num)@)) == 1,
            forall|j: int|
                0 <= j < final(self).pairs().len() ==> #[trigger] final(self).pairs()[j].1 > 0
                    && final(num)@ % (final(self).pairs()[j].0 as int) != 0,
            old(self).canonical() ==> final(self).canonical(),
    {
        let ghost n0 = num@;
        let ghost old_canon = self.canonical();
        let ghost v0 = self.denom_value();
        proof {
            lemma_sparse_product_pos(self.primes@);
        }
        let reduced: Option<(Natural, Natural)> = match &self.remainder {
            Some(remainder) => {
                let g = remainder.gcd(&num.magnitude());
                proof {
                    lemma_gcd_divides(remainder@, abs(num@));
                }
                if g.is_one() {
                    None
                } else {
                    Some((remainder.div(&g), g))
                }
            },
            None => None,
        };
        let ghost mut removed: int = 1;
        let ghost n_in = num@;
        let ghost r_in = self.remainder_value();
        if let Some((q, g)) = reduced {
            let ghost big_r = self.remainder_value();
            proof {
                lemma_gcd_divides(big_r, abs(n0));
                lemma_fundamental_div_mod(big_r as int, g@ as int);
                lemma_fundamental_div_mod(abs(n0) as int, g@ as int);
            }
            *num = num.div_natural(&g);
            self.remainder = if q.is_one() {
                None
            } else {
                Some(q)
            };
            proof {
                removed = g@ as int;
                let b = self.primes_value() as int;
                let qq = big_r / g@;
                assert(qq >= 1) by (nonlinear_arith)
                    requires
                        big_r == g@ * qq,
                        big_r >= 1,
                        g@ >= 1,
                ;
                assert(num@ * g@ == n0) by {
                    lemma_trunc_div_exact(n0, g@);
                }
                assert(num@ * (b * big_r) == n0 * (b * qq)) by (nonlinear_arith)
                    requires
                        num@ * g@ == n0,
                        big_r == g@ * qq,
                ;
                assert((b * qq) * g@ == b * big_r) by (nonlinear_arith)
                    requires
                        big_r == g@ * qq,
                ;
                assert(self.remainder_value() == qq);
                assert(r_in == qq * removed) by (nonlinear_arith)
                    requires
                        r_in == big_r,
                        big_r == g@ * qq,
                        removed == g@,
                ;
            }
        }
        proof {
            if reduced is None {
                if r_in == 1 {
                    lemma_gcd_one(abs(num@));
                }
                assert(gcd(self.remainder_value(), abs(num@)) == 1);
            } else {
                lemma_gcd_coprime_quotients(r_in, abs(n_in));
                let g = gcd(r_in, abs(n_in));
                lemma_gcd_divides(r_in, abs(n_in));
                lemma_abs_trunc_div(n_in, g as int);
                if self.remainder is None {
                    lemma_gcd_one(abs(num@));
                }
                assert(gcd(self.remainder_value(), abs(num@)) == 1);
            }
        }
        let ghost r_out = self.remainder_value();
        let ghost rm0 = removed;
        proof {
            assert(r_in == r_out * rm0);
        }
        let mut k: usize = 0;
        let mut done = false;
        let ghost primes0 = self.primes@;
        proof {
            assert(old_canon ==> basis_pairs(primes0, NUM_PRIMES as nat));
        }
        while k < self.primes.len()
            invariant
                self.wf(),
                k <= self.primes.len(),
                self.primes.len() == primes0.len(),
                forall|j: int| 0 <= j < self.primes.len() ==> #[trigger] self.primes[j].0 == primes0[j].0,
                num@ * v0 == n0 * self.denom_value(),
                self.denom_value() * removed == v0,
                removed >= 1,
                gcd(self.remainder_value(), abs(num@)) == 1,
                done ==> abs(num@) == 1,
                forall|j: int|
                    0 <= j < k && #[trigger] self.primes[j].1 > 0 ==> num@ % (self.primes[j].0 as int)
                        != 0,
                self.remainder_value() == r_out,
                forall|j: int|
                    0 <= j < k && #[trigger] self.primes[j].1 < primes0[j].1 ==> r_out % (primes0[j].0 as nat)
                        != 0,
                forall|j: int| k <= j < self.primes.len() ==> #[trigger] self.primes[j] == primes0[j],
                old_canon ==> basis_pairs(primes0, NUM_PRIMES as nat),
            decreases self.primes.len() - k,
        {
            let (p, count) = self.primes[k];
            proof {
                assert(self.primes[k as int].0 >= 2);
            }
            if !done && count != 0 {
                let bigp = Natural::from_u128(p as u128);
                while self.primes[k].1 != 0
                    invariant_except_break
                        !done,
                    invariant
                        self.wf(),
                        k < self.primes.len(),
                        self.primes.len() == primes0.len(),
                        forall|j: int| 0 <= j < self.primes.len() ==> #[trigger] self.primes[j].0 == primes0[j].0,
                        p == self.primes[k as int].0,
                        bigp@ == p,
                        p >= 2,
                        num@ * v0 == n0 * self.denom_value(),
                        self.denom_value() * removed == v0,
                        removed >= 1,
                        gcd(self.remainder_value(), abs(num@)) == 1,
                gcd(self.remainder_value(), abs(num@)) == 1,
                        done ==> abs(num@) == 1,
                        forall|j: int|
                            0 <= j < k && #[trigger] self.primes[j].1 > 0 ==> num@ % (self.primes[j].0 as int)
                                != 0,
                        self.remainder_value() == r_out,
                        forall|j: int|
                            0 <= j < k && #[trigger] self.primes[j].1 < primes0[j].1 ==> r_out % (
                            primes0[j].0 as nat) != 0,
                        forall|j: int| k < j < self.primes.len() ==> #[trigger] self.primes[j] == primes0[j],
                        self.primes[k as int].1 < primes0[k as int].1 ==> r_out % (p as nat) != 0,
                        old_canon ==> basis_pairs(primes0, NUM_PRIMES as nat),
                    ensures
                        self.wf(),
                        self.primes.len() == primes0.len(),
                        forall|j: int| 0 <= j < self.primes.len() ==> #[trigger] self.primes[j].0 == primes0[j].0,
                        num@ * v0 == n0 * self.denom_value(),
                        self.denom_value() * removed == v0,
                        removed >= 1,
                        gcd(self.remainder_value(), abs(num@)) == 1,
                gcd(self.remainder_value(), abs(num@)) == 1,
                        done ==> abs(num@) == 1,
                        forall|j: int|
                            0 <= j < k && #[trigger] self.primes[j].1 > 0 ==> num@ % (self.primes[j].0 as int)
                                != 0,
                        self.primes[k as int].1 > 0 && !done ==> num@ % (p as int) != 0,
                        self.remainder_value() == r_out,
                        forall|j: int|
                            0 <= j < k && #[trigger] self.primes[j].1 < primes0[j].1 ==> r_out % (
                            primes0[j].0 as nat) != 0,
                        forall|j: int| k < j < self.primes.len() ==> #[trigger] self.primes[j] == primes0[j],
                        self.primes[k as int].1 < primes0[k as int].1 ==> r_out % (p as nat) != 0,
                        old_canon ==> basis_pairs(primes0, NUM_PRIMES as nat),
                    decreases self.primes[k as int].1,
                {
                    let (quo, rem) = num.div_rem_natural(&bigp);
                    if !rem.is_zero() {
                        proof {
                            lemma_trunc_div_rem(num@, p as int);
                        }
                        break;
                    }
                    let ghost nb = num@;
                    let ghost vb = self.denom_value();
                    let ghost sb = self.primes@;
                    *num = quo;
                    let c = self.primes[k].1;
                    self.primes.set(k, (p, c - 1));
                    proof {
                        let low = sb.update(k as int, (p, (c - 1) as u16));
                        assert(self.primes@ == low);
                        lemma_sparse_dec(sb, k as int);
                        let vn = self.denom_value() as int;
                        let rv = self.remainder_value() as int;
                        let bn = self.primes_value() as int;
                        assert(vb == vn * p) by (nonlinear_arith)
                            requires
                                vb == sparse_product(sb) * rv,
                                sparse_product(sb) == bn * p,
                                vn == bn * rv,
                        ;
                        assert(nb == num@ * p);
                        lemma_abs_mul(num@, p as int);
                        lemma_coprime_factor(self.remainder_value(), abs(num@), p as nat);
                        if r_out % (p as nat) == 0 {
                            lemma_mod_multiples_basic(abs(num@) as int, p as int);
                            lemma_common_divisor(r_out, abs(nb), p as nat);
                            lemma_small_mod(1, p as nat);
                        }
                        assert forall|j: int|
                            0 <= j < k && #[trigger] self.primes[j].1 < primes0[j].1 implies r_out % (
                            primes0[j].0 as nat) != 0 by {
                            assert(self.primes[j] == sb[j]);
                        }
                        assert(num@ * v0 == n0 * vn) by (nonlinear_arith)
                            requires
                                nb * v0 == n0 * vb,
                                vb == vn * p,
                                nb == num@ * p,
                                p >= 2,
                        ;
                        let rb = removed;
                        removed = rb * p;
                        assert(vn * removed == v0) by (nonlinear_arith)
                            requires
                                vb * rb == v0,
                                vb == vn * p,
                                removed == rb * p,
                        ;
                        assert(removed >= 1) by (nonlinear_arith)
                            requires
                                rb >= 1,
                                p >= 2,
                                removed == rb * p,
                        ;
                        assert forall|j: int|
                            0 <= j < k && #[trigger] self.primes[j].1 > 0 implies num@ % (self.primes[j].0 as int) != 0 by {
                            assert(self.primes[j] == sb[j]);
                            lemma_not_divides_factor(nb, num@, p as int, self.primes[j].0 as int);
                        }
                    }
                    if num.is_unit() {
                        done = true;
                        break;
                    }
                }
            }
            proof {
                if done {
                    lemma_unit_not_divisible(num@, p as int);
                }
            }
            k = k + 1;
        }
        let ghost before = self.primes@;
        let mut kept: Vec<(u16, u16)> = Vec::new();
        let mut k: usize = 0;
        proof {
            assert(before.take(0) =~= Seq::<(u16, u16)>::empty());
            assert(before.len() == primes0.len());
        }
        while k < self.primes.len()
            invariant
                self.primes@ == before,
                sorted_primes(before),
                k <= before.len(),
                sorted_primes(kept@),
                kept.len() > 0 && k < before.len() ==> kept[kept.len() - 1].0 < before[k as int].0,
                sparse_product(kept@) == sparse_product(before.take(k as int)),
                forall|j: int| 0 <= j < kept.len() ==> #[trigger] kept[j].1 > 0 && num@ % (kept[j].0 as int) != 0,
                forall|j: int|
                    0 <= j < before.len() && #[trigger] before[j].1 > 0 ==> num@ % (before[j].0 as int) != 0,
                forall|q: nat| #[trigger] listed_exponent(kept@, q) == listed_exponent(before.take(k as int), q),
                before.len() == primes0.len(),
                forall|j: int| 0 <= j < before.len() ==> #[trigger] before[j].0 == primes0[j].0,
                old_canon ==> basis_pairs(primes0, NUM_PRIMES as nat),
                old_canon ==> forall|j: int| 0 <= j < kept.len() ==> is_basis_prime(
                    #[trigger] kept[j].0 as nat,
                    NUM_PRIMES as nat,
                ),
                self.remainder_value() == r_out,
            decreases before.len() - k,
        {
            let e = self.primes[k];
            proof {
                assert(before.take(k + 1) =~= before.take(k as int).push(e));
                lemma_sparse_push(before.take(k as int), e);
            }
            if e.1 != 0 {
                let ghost kb = kept@;
                kept.push(e);
                proof {
                    assert forall|q: nat| #[trigger] listed_exponent(kept@, q) == listed_exponent(
                        before.take(k + 1),
                        q,
                    ) by {
                        assert(kept@.drop_last() =~= kb);
                        assert(before.take(k + 1).drop_last() =~= before.take(k as int));
                        assert(kept@.last() == e);
                        assert(before.take(k + 1).last() == e);
                        assert(listed_exponent(kb, q) == listed_exponent(before.take(k as int), q));
                    }
                    if old_canon {
                        assert(before[k as int].0 == primes0[k as int].0);
                        assert forall|j: int| 0 <= j < kept.len() implies is_basis_prime(
                            #[trigger] kept[j].0 as nat,
                            NUM_PRIMES as nat,
                        ) by {
                            if j < kb.len() {
                                assert(kept[j] == kb[j]);
                            } else {
                                assert(kept[j] == e);
                                lemma_basis_pairs_at(primes0, NUM_PRIMES as nat, k as int);
                            }
                        }
                    }
                    lemma_sparse_push(kb, e);
                    assert(kb.push(e) =~= kept@);
                    assert(e.0 >= 2);
                    assert(before[k as int] == e && before[k as int].1 > 0);
                    assert forall|j: int| 0 <= j < kept.len() implies #[trigger] kept[j].1 > 0 && num@ % (kept[j].0 as int) != 0 by {
                        if j < kb.len() {
                            assert(kept[j] == kb[j]);
                        } else {
                            assert(kept[j] == before[k as int]);
                        }
                    }
                    assert forall|j: int| 0 <= j < kept.len() implies #[trigger] kept[j].0 >= 2 by {
                        if j < kb.len() {
                            assert(kept[j] == kb[j]);
                        }
                    }
                    assert forall|m: int, n: int| 0 <= m < n < kept.len() implies kept[m].0 < kept[n].0 by {
                        if n < kb.len() {
                            assert(kept[m] == kb[m] && kept[n] == kb[n]);
                        } else {
                            assert(kept[m] == kb[m]);
                            if m < kb.len() - 1 {
                                assert(kb[m].0 < kb[kb.len() - 1].0);
                            }
                        }
                    }
                    if k + 1 < before.len() {
                        assert(before[k as int].0 < before[k + 1].0);
                    }
                }
            } else {
                proof {
                    assert forall|m: int| 0 <= m < kept@.len() implies (#[trigger] kept@[m]).0 < e.0 by {
                        if m < kept.len() - 1 {
                            assert(kept[m].0 < kept[kept.len() - 1].0);
                        }
                    }
                    lemma_listed_absent(kept@, e.0 as nat);
                    assert forall|q: nat| #[trigger] listed_exponent(kept@, q) == listed_exponent(
                        before.take(k + 1),
                        q,
                    ) by {
                        assert(before.take(k + 1).drop_last() =~= before.take(k as int));
                        assert(before.take(k + 1).last() == e);
                        assert(listed_exponent(kept@, q) == listed_exponent(before.take(k as int), q));
                    }
                    lemma_pow0(e.0 as int);
                    if kept.len() > 0 && k + 1 < before.len() {
                        assert(before[k as int].0 < before[k + 1].0);
                    }
                }
            }
            k = k + 1;
        }
        proof {
            assert(before.take(before.len() as int) =~= before);
        }
        let ghost kv = kept@;
        self.primes = kept;
        proof {
            assert(self.pairs() == kv);
            assert forall|j: int| 0 <= j < self.pairs().len() implies #[trigger] self.pairs()[j].1 > 0
                && num@ % (self.pairs()[j].0 as int) != 0 by {
                assert(self.pairs()[j] == kv[j]);
            }
            self.lemma_positive();
            lemma_mod_multiples_basic(removed, self.denom_value() as int);
            lemma_mul_is_commutative(removed, self.denom_value() as int);
            if old_canon {
                assert forall|jj: nat|
                    jj < NUM_PRIMES && #[trigger] basis_prime(jj) <= 0xFFFF && listed_exponent(
                        self.pairs(),
                        basis_prime(jj),
                    ) < 0xFFFF implies self.remainder_value() % basis_prime(jj) != 0 by {
                    let q = basis_prime(jj);
                    lemma_basis_prime(jj, jj);
                    assert(listed_exponent(self.pairs(), q) == listed_exponent(before, q));
                    if listed_exponent(primes0, q) < 0xFFFF {
                        lemma_not_divides_factor(r_in as int, r_out as int, rm0, q as int);
                    } else {
                        lemma_listed_witness(primes0, q);
                        let m = choose|m: int|
                            0 <= m < primes0.len() && primes0[m].0 == q && primes0[m].1
                                == listed_exponent(primes0, q);
                        assert(before[m].0 == q);
                        lemma_listed_at(before, m);
                        assert(before[m].1 < primes0[m].1);
                    }
                }
            }
        }
    }
}

impl<const NUM_PRIMES: usize> DenomSparseU16<NUM_PRIMES> {
    /// Completes a decomposition from the listed exponents of the odd prime
    /// factors of what's left (as indices: 1 for 3, 2 for 5, etc.), merging
    /// the pending power `p^pcount` in: the factors beyond the first
    /// `NUM_PRIMES` primes go to the remainder.
    fn decompose_known_factors(
        primes: Vec<(u16, u16)>,
        p: u16,
        pcount: u16,
        factor_indices: Vec<(u16, u16)>,
        Ghost(li): Ghost<nat>,
    ) -> (r: Self)
        requires
            1 <= NUM_PRIMES <= MAX_BASIS_PRIMES,
            sorted_primes(primes@),
            primes.len() > 0 ==> primes[primes.len() - 1].0 < odd_prime(li),
            pcount > 0 ==> li + 1 < NUM_PRIMES && p == odd_prime(li) && factor_indices.len() > 0,
            pcount <= 0x100,
            factors_product(factor_indices@) < 0x2000,
            forall|k: int|
                0 <= k < factor_indices.len() ==> #[trigger] factor_indices[k].0 >= 1
                    && factor_indices[k].0 <= NUM_ODD_PRIMES && factor_indices[k].1 >= 1
                    && factor_indices[k].0 - 1 >= li,
            forall|k: int, l: int|
                0 <= k < l < factor_indices.len() ==> factor_indices[k].0 < factor_indices[l].0,
            basis_pairs(primes@, NUM_PRIMES as nat),
            forall|k: int, j: nat|
                #![trigger factors_product(factor_indices@.skip(k)), basis_prime(j)]
                0 <= k < factor_indices.len() && j < factor_indices[k].0 ==> factors_product(
                    factor_indices@.skip(k),
                ) % basis_prime(j) != 0,
        ensures
            r.wf(),
            r.canonical(),
            r.denom_value() == sparse_product(primes@) * pow(p as int, pcount as nat)
                * factors_product(factor_indices@),
    {
        let ghost f = factor_indices@;
        let ghost primes0 = primes@;
        let ghost pc0 = pcount;
        let mut primes = primes;
        let mut pcount = pcount;
        let mut remainder: usize = 1;
        let mut k: usize = 0;
        let ghost mut ks: int = 0;
        proof {
            lemma_pow0(p as int);
            assert(f.take(0) =~= Seq::<(u16, u16)>::empty());
            lemma_odd_prime_bounds(li);
            if factor_indices.len() > 0 {
                lemma_odd_prime_increasing_or_equal(li, (f[0].0 - 1) as nat);
            }
        }
        while k < factor_indices.len()
            invariant
                1 <= NUM_PRIMES <= MAX_BASIS_PRIMES,
                f == factor_indices@,
                k <= f.len(),
                factors_product(f) < 0x2000,
                forall|j: int|
                    0 <= j < f.len() ==> #[trigger] f[j].0 >= 1 && f[j].0 <= NUM_ODD_PRIMES && f[j].1
                        >= 1 && f[j].0 - 1 >= li,
                forall|j: int, l: int| 0 <= j < l < f.len() ==> f[j].0 < f[l].0,
                sorted_primes(primes@),
                pcount > 0 ==> k == 0 && li + 1 < NUM_PRIMES && p == odd_prime(li) && f.len() > 0,
                k == 0 ==> pcount == pc0,
                k > 0 ==> pcount == 0,
                pcount > 0 && primes.len() > 0 ==> primes[primes.len() - 1].0 < p,
                pcount <= 0x100,
                primes.len() > 0 && k < f.len() ==> primes[primes.len() - 1].0 < odd_prime(
                    (f[k as int].0 - 1) as nat,
                ),
                pcount > 0 ==> p <= odd_prime((f[0].0 - 1) as nat),
                remainder >= 1,
                remainder <= factors_product(f.take(k as int)),
                sparse_product(primes@) * pow(p as int, pcount as nat) * remainder == sparse_product(
                    primes0,
                ) * pow(p as int, pc0 as nat) * factors_product(f.take(k as int)),
                basis_pairs(primes@, NUM_PRIMES as nat),
                forall|k: int, j: nat|
                    #![trigger factors_product(f.skip(k)), basis_prime(j)]
                    0 <= k < f.len() && j < f[k].0 ==> factors_product(f.skip(k)) % basis_prime(j)
                        != 0,
                remainder == 1 || (0 <= ks < k && f[ks].0 >= NUM_PRIMES && remainder
                    * factors_product(f.skip(k as int)) == factors_product(f.skip(ks))),
            decreases f.len() - k,
        {
            let (index, qcount0) = factor_indices[k];
            proof {
                lemma_factor_divides(f, k as int);
                lemma_factors_prefix(f, k as int + 1);
                lemma_odd_prime_bounds((index - 1) as nat);
                assert(f.take(k + 1) =~= f.take(k as int).push(f[k as int]));
                lemma_factors_push(f.take(k as int), f[k as int]);
                lemma_exp_below_pow(odd_prime((index - 1) as nat) as int, qcount0 as nat);
            }
            let q32 = odd_prime_at((index - 1) as usize);
            let ghost qq = q32 as int;
            let ghost y = pow(qq, qcount0 as nat);
            let ghost fb = factors_product(f.take(k as int)) as int;
            proof {
                // q^qcount is at most the product, below 2^13
                lemma_pow1(qq);
                if qcount0 > 1 {
                    lemma_pow_increases(qq as nat, 1, qcount0 as nat);
                }
                lemma_factors_pos(f.take(k as int));
                assert(fb * y <= factors_product(f));
                assert(y <= fb * y) by (nonlinear_arith)
                    requires
                        fb >= 1,
                        y >= 1,
                ;
            }
            let q = q32 as u16;
            let mut qcount = qcount0;
            let ghost pb = sparse_product(primes@) as int;
            let ghost pp = pow(p as int, pcount as nat);
            let ghost prev = primes@;
            if pcount != 0 {
                if p == q {
                    qcount = qcount + pcount;
                } else {
                    primes.push((p, pcount));
                    proof {
                        lemma_sparse_push(prev, (p, pcount));
                        lemma_odd_prime_bounds(li);
                        assert(basis_prime(li + 1) == odd_prime(li));
                        lemma_basis_pairs_push(prev, (p, pcount), NUM_PRIMES as nat, li + 1);
                    }
                }
                pcount = 0;
            }
            let ghost mid = primes@;
            let ghost pm = sparse_product(mid) as int;
            proof {
                lemma_pow0(p as int);
                if pc0 > 0 && p == q {
                    lemma_pow_adds(qq, qcount0 as nat, pc0 as nat);
                }
                // what is owed for this factor and the pending power
                assert(pm * pow(qq, qcount as nat) == pb * pp * y) by {
                    if pc0 > 0 && k == 0 {
                        if p == q {
                            assert(pm == pb);
                            assert(q as int == qq);
                            assert(p as int == qq);
                            assert(qcount as nat == qcount0 as nat + pc0 as nat);
                            assert(pow(qq, qcount as nat) == y * pp);
                            assert(pb * (y * pp) == pb * pp * y) by (nonlinear_arith);
                        } else {
                            assert(pm == pb * pp);
                        }
                    } else {
                        assert(pp == 1);
                        assert(pm == pb);
                        assert(qcount == qcount0);
                        assert(pb * y == pb * 1 * y) by (nonlinear_arith);
                    }
                }
            }
            let ghost rb = remainder as int;
            if (index as usize) < NUM_PRIMES {
                primes.push((q, qcount));
                proof {
                    assert(basis_prime(index as nat) == odd_prime((index - 1) as nat));
                    lemma_basis_pairs_push(mid, (q, qcount), NUM_PRIMES as nat, index as nat);
                    lemma_sparse_push(mid, (q, qcount));
                    assert(sparse_product(primes@) * 1 * rb == (pm * pow(qq, qcount as nat)) * rb)
                        by (nonlinear_arith)
                        requires
                            sparse_product(primes@) == pm * pow(qq, qcount as nat),
                    ;
                }
            } else {
                let mut j: u16 = 0;
                proof {
                    if pc0 > 0 && k == 0 && p == q {
                        lemma_odd_prime_increasing_or_equal(li, (index - 1) as nat);
                        assert(q as int == qq);
                        assert(li == index - 1);
                    }
                    assert(qcount == qcount0);
                    lemma_pow0(qq);
                    assert(rb * y <= fb * y) by (nonlinear_arith)
                        requires
                            rb <= fb,
                            y >= 1,
                    ;
                    assert(factors_product(f.take(k + 1)) == fb * y);
                }
                while j < qcount
                    invariant
                        j <= qcount,
                        qcount == qcount0,
                        qq == q32,
                        qq >= 3,
                        remainder == rb * pow(qq, j as nat),
                        rb * y <= factors_product(f.take(k + 1)),
                        factors_product(f.take(k + 1)) < 0x2000,
                        y == pow(qq, qcount0 as nat),
                        rb >= 1,
                    decreases qcount - j,
                {
                    proof {
                        lemma_pow_adds(qq, j as nat, 1);
                        lemma_pow1(qq);
                        lemma_pow_increases(qq as nat, (j + 1) as nat, qcount0 as nat);
                        lemma_pow_positive(qq, (j + 1) as nat);
                        assert(rb * pow(qq, (j + 1) as nat) <= rb * y) by (nonlinear_arith)
                            requires
                                pow(qq, (j + 1) as nat) <= y,
                                rb >= 1,
                        ;
                        assert(remainder * qq == rb * pow(qq, (j + 1) as nat)) by (nonlinear_arith)
                            requires
                                remainder == rb * pow(qq, j as nat),
                                pow(qq, (j + 1) as nat) == pow(qq, j as nat) * qq,
                        ;
                    }
                    remainder = remainder * (q32 as usize);
                    j = j + 1;
                }
                proof {
                    assert(pcount == 0);
                    assert(qcount == qcount0);
                    assert(mid == primes@);
                    lemma_factors_skip(f, k as int);
                    if rb == 1 {
                        ks = k as int;
                    }
                    assert(remainder * factors_product(f.skip(k + 1)) == factors_product(f.skip(ks)))
                        by (nonlinear_arith)
                        requires
                            remainder == rb * y,
                            rb == 1 ==> ks == k,
                            rb != 1 ==> rb * factors_product(f.skip(k as int)) == factors_product(
                                f.skip(ks),
                            ),
                            factors_product(f.skip(k as int)) == y * factors_product(f.skip(k + 1)),
                    ;
                    assert(remainder >= 1) by (nonlinear_arith)
                        requires
                            remainder == rb * y,
                            rb >= 1,
                            y >= 1,
                    ;
                }
            }
            proof {
                let fk = factors_product(f.take(k + 1)) as int;
                assert(fk == fb * y);
                assert(sparse_product(primes@) * pow(p as int, pcount as nat) * remainder
                    == sparse_product(primes0) * pow(p as int, pc0 as nat) * fk) by {
                    assert(pow(p as int, pcount as nat) == 1);
                    let lhs0 = pb * pp * rb;
                    assert(lhs0 == sparse_product(primes0) * pow(p as int, pc0 as nat) * fb);
                    if (index as usize) < NUM_PRIMES {
                        assert(sparse_product(primes@) == pm * pow(qq, qcount as nat));
                        assert(remainder == rb);
                        assert(sparse_product(primes@) * 1 * remainder == (pb * pp * rb) * y)
                            by (nonlinear_arith)
                            requires
                                sparse_product(primes@) == pm * pow(qq, qcount as nat),
                                pm * pow(qq, qcount as nat) == pb * pp * y,
                                remainder == rb,
                        ;
                    } else {
                        assert(remainder == rb * y);
                        assert(pm == pb * pp) by (nonlinear_arith)
                            requires
                                pm * pow(qq, qcount as nat) == pb * pp * y,
                                pow(qq, qcount as nat) == y,
                                y >= 1,
                        ;
                        assert(sparse_product(primes@) * 1 * remainder == (pb * pp * rb) * y)
                            by (nonlinear_arith)
                            requires
                                sparse_product(primes@) == pm,
                                pm == pb * pp,
                                remainder == rb * y,
                        ;
                    }
                    assert((pb * pp * rb) * y == sparse_product(primes0) * pow(p as int, pc0 as nat)
                        * (fb * y)) by (nonlinear_arith)
                        requires
                            pb * pp * rb == sparse_product(primes0) * pow(p as int, pc0 as nat) * fb,
                    ;
                }
                if (index as usize) < NUM_PRIMES {
                    assert(remainder <= fk) by (nonlinear_arith)
                        requires
                            remainder == rb,
                            rb <= fb,
                            y >= 1,
                            fk == fb * y,
                    ;
                } else {
                    assert(remainder <= fk) by (nonlinear_arith)
                        requires
                            remainder == rb * y,
                            rb <= fb,
                            y >= 1,
                            fk == fb * y,
                    ;
                }
                // ordering of what follows
                if k + 1 < f.len() {
                    lemma_odd_prime_increasing((index - 1) as nat, (f[k + 1].0 - 1) as nat);
                }
                if pc0 > 0 && k == 0 && p != q {
                    lemma_odd_prime_increasing_or_equal(li, (index - 1) as nat);
                }
                assert forall|m: int| 0 <= m < primes.len() implies #[trigger] primes[m].0 >= 2 by {
                    if m < prev.len() {
                        assert(primes[m] == prev[m]);
                    }
                }
                assert forall|m: int, n: int| 0 <= m < n < primes.len() implies primes[m].0
                    < primes[n].0 by {
                    if n < prev.len() {
                        assert(primes[m] == prev[m] && primes[n] == prev[n]);
                    } else if m < prev.len() {
                        assert(primes[m] == prev[m]);
                        if m < prev.len() - 1 {
                            assert(prev[m].0 < prev[prev.len() - 1].0);
                        }
                    }
                }
            }
            k = k + 1;
        }
        proof {
            assert(f.take(f.len() as int) =~= f);
        }
        let rem = if remainder == 1 {
            None
        } else {
            Some(Natural::from_u128(remainder as u128))
        };
        let r = DenomSparseU16 { primes, remainder: rem };
        proof {
            assert(f.skip(f.len() as int) =~= Seq::<(u16, u16)>::empty());
            assert(factors_product(Seq::<(u16, u16)>::empty()) == 1);
            assert forall|j: nat| j < NUM_PRIMES && #[trigger] basis_prime(j) <= 0xFFFF implies (
            remainder as nat) % basis_prime(j) != 0 by {
                lemma_basis_prime(j, j);
                if remainder == 1 {
                    lemma_small_mod(1, basis_prime(j));
                } else {
                    assert(k == f.len());
                    assert(factors_product(f.skip(k as int)) == 1);
                    assert(remainder * factors_product(f.skip(k as int)) == factors_product(f.skip(ks)));
                    assert(remainder as nat == factors_product(f.skip(ks))) by (nonlinear_arith)
                        requires
                            factors_product(f.skip(k as int)) == 1,
                            remainder * factors_product(f.skip(k as int)) == factors_product(
                                f.skip(ks),
                            ),
                    ;
                    assert(j < f[ks].0);
                }
            }
            assert(pcount == 0 ==> pow(p as int, pcount as nat) == 1);
            assert(pcount == 0);
            assert(r.remainder_value() == remainder);
            assert(r.denom_value() == sparse_product(primes@) * remainder);
            assert(sparse_product(primes@) * remainder == sparse_product(primes@) * 1 * remainder)
                by (nonlinear_arith);
        }
        r
    }
}

impl<const NUM_PRIMES: usize> DenomSparseU16<NUM_PRIMES> {
    /// The zeroth power of any denominator is the empty one: it lists no
    /// prime, has no remainder, and is worth one.
    pub proof fn law_power_zero(a: &Self, r: &Self)
        requires
            a.wf(),
            r.is_power_of(a, 0),
        ensures
            r.pairs() == Seq::<(u16, u16)>::empty(),
            r.remainder_opt() is None,
            r.denom_value() == 1,
    {
        assert(r.pairs() =~= Seq::<(u16, u16)>::empty());
        assert(sparse_product(Seq::<(u16, u16)>::empty()) == 1);
        assert(r.primes_value() == 1);
        assert(r.remainder_value() == 1);
        assert(r.denom_value() == 1 * 1);
    }

    /// A power lists no prime with a zero exponent when its base doesn't,
    /// whatever the exponent.
    pub proof fn law_power_exponents_positive(a: &Self, r: &Self, e: u32)
        requires
            a.wf(),
            forall|k: int| 0 <= k < a.pairs().len() ==> (#[trigger] a.pairs()[k]).1 >= 1,
            r.is_power_of(a, e),
        ensures
            forall|k: int| 0 <= k < r.pairs().len() ==> (#[trigger] r.pairs()[k]).1 >= 1,
    {
        if e > 0 {
            assert forall|k: int| 0 <= k < r.pairs().len() implies (#[trigger] r.pairs()[k]).1 >= 1 by {
                assert(a.pairs()[k].1 >= 1);
                assert(a.pairs()[k].1 * e >= 1) by (nonlinear_arith)
                    requires
                        a.pairs()[k].1 >= 1,
                        e >= 1,
                ;
            }
        }
    }
}

impl<const NUM_PRIMES: usize> DenomSparseU16<NUM_PRIMES> {
    /// Completes a decomposition whose odd part `v` is a prime that no odd
    /// prime before the `i`-th one, `p`, divides: `v` is listed when it is
    /// one of the basis primes, and is the remainder otherwise.
    fn finish_with_prime(primes: Vec<(u16, u16)>, v: u64, p: u32, i: usize) -> (r: Self)
        requires
            1 <= NUM_PRIMES <= MAX_BASIS_PRIMES,
            i + 1 < NUM_PRIMES,
            p == odd_prime(i as nat),
            is_prime(v as nat),
            v % 2 == 1,
            sorted_primes(primes@),
            primes.len() > 0 ==> primes[primes.len() - 1].0 < p,
            basis_pairs(primes@, NUM_PRIMES as nat),
            forall|j: nat| j < i ==> (v as nat) % #[trigger] odd_prime(j) != 0,
        ensures
            r.wf(),
            r.canonical(),
            r.denom_value() == sparse_product(primes@) * v,
    {
        let mut primes = primes;
        proof {
            lemma_odd_prime_bounds(i as nat);
        }
        if v > 0xFFFF {
            let r = DenomSparseU16 { primes, remainder: Some(Natural::from_u64(v)) };
            proof {
                assert forall|j: nat| j < NUM_PRIMES && #[trigger] basis_prime(j) <= 0xFFFF implies (
                v as nat) % basis_prime(j) != 0 by {
                    lemma_basis_prime(j, j);
                }
            }
            return r;
        }
        let mut q = p;
        let mut k = i;
        proof {
            assert forall|j: nat| j < k implies #[trigger] odd_prime(j) != v by {
                if odd_prime(j) == v {
                    lemma_mod_self_0(v as int);
                }
            }
        }
        while k + 2 < NUM_PRIMES && (q as u64) < v
            invariant
                k + 1 < NUM_PRIMES <= MAX_BASIS_PRIMES,
                q == odd_prime(k as nat),
                p <= q,
                v <= 0xFFFF,
                forall|j: nat| j < k ==> #[trigger] odd_prime(j) != v,
            decreases NUM_PRIMES - k,
        {
            proof {
                lemma_odd_prime_increasing(k as nat, k as nat + 1);
                lemma_odd_prime_bounds(k as nat);
            }
            q = next_odd_prime(k, q);
            k = k + 1;
        }
        if (q as u64) == v {
            let ghost before = primes@;
            primes.push((q as u16, 1));
            let r = DenomSparseU16 { primes, remainder: None };
            proof {
                lemma_sparse_push(before, (q as u16, 1u16));
                lemma_pow1(q as int);
                assert(basis_prime(k as nat + 1) == (q as u16) as nat);
                lemma_basis_pairs_push(before, (q as u16, 1u16), NUM_PRIMES as nat, k as nat + 1);
                assert forall|m: int| 0 <= m < primes.len() implies #[trigger] primes[m].0 >= 2 by {
                    if m < before.len() {
                        assert(primes[m] == before[m]);
                    }
                }
                assert forall|m: int, l: int| 0 <= m < l < primes.len() implies primes[m].0
                    < primes[l].0 by {
                    if l < before.len() {
                        assert(primes[m] == before[m] && primes[l] == before[l]);
                    } else {
                        assert(primes[m] == before[m]);
                        if m < before.len() - 1 {
                            assert(before[m].0 < before[before.len() - 1].0);
                        }
                    }
                }
                assert forall|j: nat| j < NUM_PRIMES && #[trigger] basis_prime(j) <= 0xFFFF implies 1nat
                    % basis_prime(j) != 0 by {
                    lemma_basis_prime(j, j);
                    lemma_small_mod(1, basis_prime(j));
                }
                assert(r.denom_value() == sparse_product(primes@) * 1);
            }
            r
        } else {
            let r = DenomSparseU16 { primes, remainder: Some(Natural::from_u64(v)) };
            proof {
                assert forall|j: nat| j < NUM_PRIMES && #[trigger] basis_prime(j) <= 0xFFFF implies (
                v as nat) % basis_prime(j) != 0 by {
                    lemma_basis_prime(j, j);
                    if j > 0 {
                        let o = (j - 1) as nat;
                        assert(basis_prime(j) == odd_prime(o));
                        lemma_odd_prime_bounds(o);
                        if o > k {
                            lemma_odd_prime_increasing(k as nat, o);
                        }
                        assert(odd_prime(o) != v);
                        if odd_prime(o) > v {
                            lemma_small_mod(v as nat, odd_prime(o));
                        }
                    }
                }
            }
            r
        }
    }
}

impl<const NUM_PRIMES: usize> DenomSparseU16<NUM_PRIMES> {
    /// Decomposes a positive 64-bit integer: the power of two first, then
    /// the odd basis primes while they divide it, with the divider of the
    /// table of multipliers for each (checked before use); what's left is
    /// looked up in the table of known factors as soon as it is small enough,
    /// and is known prime once the primes pass its square root.
    #[verifier::spinoff_prover]
    fn decompose_u64(x: u64) -> (r: Self)
        requires
            1 <= NUM_PRIMES <= MAX_BASIS_PRIMES,
            x > 0,
        ensures
            r.wf(),
            r.denom_value() == x,
            r.canonical(),
    {
        let ghost x0 = x as nat;
        let (count2, odd) = strip_twos(x as u128);
        let mut v: u64 = odd as u64;
        let mut primes: Vec<(u16, u16)> = Vec::new();
        if count2 != 0 {
            primes.push((2, count2));
        }
        proof {
            if count2 != 0 {
                assert(primes@ =~= Seq::<(u16, u16)>::empty().push((2u16, count2)));
            } else {
                assert(primes@ =~= Seq::<(u16, u16)>::empty());
            }
            lemma_power_of_two_pairs(primes@, count2);
            if count2 != 0 {
                lemma_basis_pairs_push(Seq::empty(), (2u16, count2), NUM_PRIMES as nat, 0);
            }
        }
        let mut done = v == 1;
        let mut p: u32 = 3;
        let mut i: usize = 0;
        let mut shift: u32 = 1;
        let mut pw: u32 = 2;
        proof {
            vstd::arithmetic::power2::lemma2_to64();
        }
        while i + 1 < NUM_PRIMES && !done
            invariant
                pw == vstd::arithmetic::power2::pow2(shift as nat),
                i + 1 < NUM_PRIMES ==> pw < p,
                1 <= NUM_PRIMES <= MAX_BASIS_PRIMES,
                i + 1 <= NUM_PRIMES,
                i + 1 < NUM_PRIMES ==> p == odd_prime(i as nat),
                sorted_primes(primes@),
                i + 1 < NUM_PRIMES && primes.len() > 0 ==> primes[primes.len() - 1].0 < p,
                v >= 1,
                v % 2 == 1,
                x0 == sparse_product(primes@) * v,
                x0 <= u64::MAX,
                x0 == x,
                done == (v == 1),
                forall|j: nat| j < i ==> (v as nat) % #[trigger] odd_prime(j) != 0,
                basis_pairs(primes@, NUM_PRIMES as nat),
            ensures
                v == 1 || i + 1 >= NUM_PRIMES || odd_prime(i as nat) > 0xFFFF,
            decreases NUM_PRIMES - i,
        {
            proof {
                lemma_odd_prime_bounds(i as nat);
            }
            if p > 0xFFFF {
                break;
            }
            proof {
                assert((p as u64) * (p as u64) <= 0xFFFF * 0xFFFF) by (nonlinear_arith)
                    requires
                        p <= 0xFFFF,
                ;
            }
            // Past the square root of what's left, that is prime.
            if v >= 0x2000 && (v as u64) < 0x4000_0000_0000_0000 && (p as u64) * (p as u64) > v as u64
                && is_odd_prime(v as u64) {
                let r = Self::finish_with_prime(primes, v as u64, p, i);
                proof {
                    assert(r.denom_value() == x0);
                }
                return r;
            }
            let (s2, w2) = power_of_two_below(p, shift, pw);
            shift = s2;
            pw = w2;
            let divider = OddDivider::<u64>::with_multiplier(p as u64, shift, pw, magic_u64_at(i));
            let mut count: u16 = 0;
            let ghost xs = v as nat;
            let ghost pb = sparse_product(primes@);
            proof {
                lemma_pow0(p as int);
            }
            while v != 1
                invariant
                    1 <= NUM_PRIMES <= MAX_BASIS_PRIMES,
                    i + 1 < NUM_PRIMES,
                    p == odd_prime(i as nat),
                    p >= 3,
                    p <= 0xFFFF,
                    divider.is_valid(),
                    divider.divisor == p,
                    sorted_primes(primes@),
                    primes.len() > 0 ==> primes[primes.len() - 1].0 < p,
                    pb == sparse_product(primes@),
                    basis_pairs(primes@, NUM_PRIMES as nat),
                    x0 == pb * xs,
                    x0 <= u64::MAX,
                    x0 == x,
                    v >= 1,
                    v % 2 == 1,
                    xs == v * pow(p as int, count as nat),
                    count < 64,
                    forall|j: nat| j < i ==> (v as nat) % #[trigger] odd_prime(j) != 0,
                ensures
                    v >= 1,
                    v % 2 == 1,
                    xs == v * pow(p as int, count as nat),
                    count < 64,
                    forall|j: nat| j < i ==> (v as nat) % #[trigger] odd_prime(j) != 0,
                    v == 1 || (v as nat) % (p as nat) != 0,
                decreases v,
            {
                if v < 0x2000 {
                    match known_odd_prime_factor_indices(v as usize) {
                        Some(f) => {
                            proof {
                                assert((v as usize) as int == v);
                                assert(2 * (v / 2) + 1 == v);
                                lemma_factors_from(f@, v as nat, i as nat);
                                if f.len() == 0 {
                                    assert(factors_product(f@) == 1);
                                }
                                if count > 0 {
                                    assert(f.len() > 0);
                                }
                            }
                            let r = Self::decompose_known_factors(primes, p as u16, count, f, Ghost(i as nat));
                            proof {
                                assert(r.denom_value() == pb * pow(p as int, count as nat) * v) by {
                                    assert(p as u16 == p);
                                }
                                assert(r.denom_value() == x0) by (nonlinear_arith)
                                    requires
                                        r.denom_value() == pb * pow(p as int, count as nat) * v,
                                        xs == v * pow(p as int, count as nat),
                                        x0 == pb * xs,
                                ;
                            }
                            assert(r.denom_value() == x0);
                            return r;
                        },
                        None => {},
                    }
                }
                let (quo, rem) = divider.div_rem(v);
                if rem != 0 {
                    proof {
                        assert((v as nat) % (p as nat) == rem);
                    }
                    break;
                }
                proof {
                    vstd::arithmetic::power2::lemma2_to64();
                    lemma_sparse_product_pos(primes@);
                    lemma_divide_out(x0, pb, xs, v as nat, quo as nat, p as nat, count as nat, i as nat, 64);
                }
                v = quo;
                count = count + 1;
            }
            let ghost before = primes@;
            if count != 0 {
                primes.push((p as u16, count));
                proof {
                    lemma_push_prime_power(before, p as nat, count, pb, xs, v as nat, x0, i as nat, NUM_PRIMES as nat);
                }
            } else {
                proof {
                    lemma_pow0(p as int);
                    assert(xs == v) by (nonlinear_arith)
                        requires
                            xs == v * pow(p as int, count as nat),
                            pow(p as int, count as nat) == 1,
                    ;
                }
            }
            done = v == 1;
            proof {
                if done {
                    assert forall|j: nat| j < i + 1 implies (v as nat) % #[trigger] odd_prime(j) != 0 by {
                        lemma_odd_prime_bounds(j);
                        lemma_small_mod(1, odd_prime(j));
                    }
                } else {
                    assert((v as nat) % (p as nat) != 0);
                    assert forall|j: nat| j < i + 1 implies (v as nat) % #[trigger] odd_prime(j) != 0 by {
                        if j == i {
                            assert(odd_prime(j) == p);
                        }
                    }
                }
            }
            if i + 2 < NUM_PRIMES {
                proof {
                    lemma_odd_prime_increasing(i as nat, i as nat + 1);
                }
                p = next_odd_prime(i, p);
            }
            i = i + 1;
        }
        let remainder = if v == 1 {
            None
        } else {
            Some(Natural::from_u64(v))
        };
        proof {
            let b = sparse_product(primes@) as int;
            assert(x0 == b * v);
            if v != 1 {
                assert(v >= 2);
            }
            lemma_clear_of_basis(v as nat, i as nat, NUM_PRIMES as nat);
        }
        DenomSparseU16 { primes, remainder }
    }

    /// Decomposes a positive 16-bit integer: the power of two first, then
    /// the odd basis primes while they divide it, with the divider of the
    /// table of multipliers for each (checked before use); what's left is
    /// looked up in the table of known factors as soon as it is small enough,
    /// and is known prime once the primes pass its square root.
    #[verifier::spinoff_prover]
    fn decompose_u16(x: u16) -> (r: Self)
        requires
            1 <= NUM_PRIMES <= MAX_BASIS_PRIMES,
            x > 0,
        ensures
            r.wf(),
            r.denom_value() == x,
            r.canonical(),
    {
        let ghost x0 = x as nat;
        let (count2, odd) = strip_twos(x as u128);
        let mut v: u16 = odd as u16;
        let mut primes: Vec<(u16, u16)> = Vec::new();
        if count2 != 0 {
            primes.push((2, count2));
        }
        proof {
            if count2 != 0 {
                assert(primes@ =~= Seq::<(u16, u16)>::empty().push((2u16, count2)));
            } else {
                assert(primes@ =~= Seq::<(u16, u16)>::empty());
            }
            lemma_power_of_two_pairs(primes@, count2);
            if count2 != 0 {
                lemma_basis_pairs_push(Seq::empty(), (2u16, count2), NUM_PRIMES as nat, 0);
            }
        }
        let mut done = v == 1;
        let mut p: u32 = 3;
        let mut i: usize = 0;
        let mut shift: u32 = 1;
        let mut pw: u32 = 2;
        proof {
            vstd::arithmetic::power2::lemma2_to64();
        }
        while i + 1 < NUM_PRIMES && !done
            invariant
                pw == vstd::arithmetic::power2::pow2(shift as nat),
                i + 1 < NUM_PRIMES ==> pw < p,
                1 <= NUM_PRIMES <= MAX_BASIS_PRIMES,
                i + 1 <= NUM_PRIMES,
                i + 1 < NUM_PRIMES ==> p == odd_prime(i as nat),
                sorted_primes(primes@),
                i + 1 < NUM_PRIMES && primes.len() > 0 ==> primes[primes.len() - 1].0 < p,
                v >= 1,
                v % 2 == 1,
                x0 == sparse_product(primes@) * v,
                x0 <= u64::MAX,
                x0 == x,
                done == (v == 1),
                forall|j: nat| j < i ==> (v as nat) % #[trigger] odd_prime(j) != 0,
                basis_pairs(primes@, NUM_PRIMES as nat),
            ensures
                v == 1 || i + 1 >= NUM_PRIMES || odd_prime(i as nat) > 0xFFFF,
            decreases NUM_PRIMES - i,
        {
            proof {
                lemma_odd_prime_bounds(i as nat);
            }
            if p > 0xFFFF {
                break;
            }
            proof {
                assert((p as u64) * (p as u64) <= 0xFFFF * 0xFFFF) by (nonlinear_arith)
                    requires
                        p <= 0xFFFF,
                ;
            }
            // Past the square root of what's left, that is prime.
            if v >= 0x2000 && (v as u64) < 0x4000_0000_0000_0000 && (p as u64) * (p as u64) > v as u64
                && is_odd_prime(v as u64) {
                let r = Self::finish_with_prime(primes, v as u64, p, i);
                proof {
                    assert(r.denom_value() == x0);
                }
                return r;
            }
            let (s2, w2) = power_of_two_below(p, shift, pw);
            shift = s2;
            pw = w2;
            let divider = OddDivider::<u16>::with_multiplier(p as u16, shift, pw, magic_u16_at(i));
            let mut count: u16 = 0;
            let ghost xs = v as nat;
            let ghost pb = sparse_product(primes@);
            proof {
                lemma_pow0(p as int);
            }
            while v != 1
                invariant
                    1 <= NUM_PRIMES <= MAX_BASIS_PRIMES,
                    i + 1 < NUM_PRIMES,
                    p == odd_prime(i as nat),
                    p >= 3,
                    p <= 0xFFFF,
                    divider.is_valid(),
                    divider.divisor == p,
                    sorted_primes(primes@),
                    primes.len() > 0 ==> primes[primes.len() - 1].0 < p,
                    pb == sparse_product(primes@),
                    basis_pairs(primes@, NUM_PRIMES as nat),
                    x0 == pb * xs,
                    x0 <= u64::MAX,
                    x0 == x,
                    v >= 1,
                    v % 2 == 1,
                    xs == v * pow(p as int, count as nat),
                    count < 64,
                    forall|j: nat| j < i ==> (v as nat) % #[trigger] odd_prime(j) != 0,
                ensures
                    v >= 1,
                    v % 2 == 1,
                    xs == v * pow(p as int, count as nat),
                    count < 64,
                    forall|j: nat| j < i ==> (v as nat) % #[trigger] odd_prime(j) != 0,
                    v == 1 || (v as nat) % (p as nat) != 0,
                decreases v,
            {
                if v < 0x2000 {
                    match known_odd_prime_factor_indices(v as usize) {
                        Some(f) => {
                            proof {
                                assert((v as usize) as int == v);
                                assert(2 * (v / 2) + 1 == v);
                                lemma_factors_from(f@, v as nat, i as nat);
                                if f.len() == 0 {
                                    assert(factors_product(f@) == 1);
                                }
                                if count > 0 {
                                    assert(f.len() > 0);
                                }
                            }
                            let r = Self::decompose_known_factors(primes, p as u16, count, f, Ghost(i as nat));
                            proof {
                                assert(r.denom_value() == pb * pow(p as int, count as nat) * v) by {
                                    assert(p as u16 == p);
                                }
                                assert(r.denom_value() == x0) by (nonlinear_arith)
                                    requires
                                        r.denom_value() == pb * pow(p as int, count as nat) * v,
                                        xs == v * pow(p as int, count as nat),
                                        x0 == pb * xs,
                                ;
                            }
                            assert(r.denom_value() == x0);
                            return r;
                        },
                        None => {},
                    }
                }
                let (quo, rem) = divider.div_rem(v);
                if rem != 0 {
                    proof {
                        assert((v as nat) % (p as nat) == rem);
                    }
                    break;
                }
                proof {
                    vstd::arithmetic::power2::lemma2_to64();
                    lemma_sparse_product_pos(primes@);
                    lemma_divide_out(x0, pb, xs, v as nat, quo as nat, p as nat, count as nat, i as nat, 64);
                }
                v = quo;
                count = count + 1;
            }
            let ghost before = primes@;
            if count != 0 {
                primes.push((p as u16, count));
                proof {
                    lemma_push_prime_power(before, p as nat, count, pb, xs, v as nat, x0, i as nat, NUM_PRIMES as nat);
                }
            } else {
                proof {
                    lemma_pow0(p as int);
                    assert(xs == v) by (nonlinear_arith)
                        requires
                            xs == v * pow(p as int, count as nat),
                            pow(p as int, count as nat) == 1,
                    ;
                }
            }
            done = v == 1;
            proof {
                if done {
                    assert forall|j: nat| j < i + 1 implies (v as nat) % #[trigger] odd_prime(j) != 0 by {
                        lemma_odd_prime_bounds(j);
                        lemma_small_mod(1, odd_prime(j));
                    }
                } else {
                    assert((v as nat) % (p as nat) != 0);
                    assert forall|j: nat| j < i + 1 implies (v as nat) % #[trigger] odd_prime(j) != 0 by {
                        if j == i {
                            assert(odd_prime(j) == p);
                        }
                    }
                }
            }
            if i + 2 < NUM_PRIMES {
                proof {
                    lemma_odd_prime_increasing(i as nat, i as nat + 1);
                }
                p = next_odd_prime(i, p);
            }
            i = i + 1;
        }
        let remainder = if v == 1 {
            None
        } else {
            Some(Natural::from_u64(v as u64))
        };
        proof {
            let b = sparse_product(primes@) as int;
            assert(x0 == b * v);
            if v != 1 {
                assert(v >= 2);
            }
            lemma_clear_of_basis(v as nat, i as nat, NUM_PRIMES as nat);
        }
        DenomSparseU16 { primes, remainder }
    }

    /// Decomposes a positive 32-bit integer: the power of two first, then
    /// the odd basis primes while they divide it, with the divider of the
    /// table of multipliers for each (checked before use); what's left is
    /// looked up in the table of known factors as soon as it is small enough,
    /// and is known prime once the primes pass its square root.
    #[verifier::spinoff_prover]
    fn decompose_u32(x: u32) -> (r: Self)
        requires
            1 <= NUM_PRIMES <= MAX_BASIS_PRIMES,
            x > 0,
        ensures
            r.wf(),
            r.denom_value() == x,
            r.canonical(),
    {
        let ghost x0 = x as nat;
        let (count2, odd) = strip_twos(x as u128);
        let mut v: u32 = odd as u32;
        let mut primes: Vec<(u16, u16)> = Vec::new();
        if count2 != 0 {
            primes.push((2, count2));
        }
        proof {
            if count2 != 0 {
                assert(primes@ =~= Seq::<(u16, u16)>::empty().push((2u16, count2)));
            } else {
                assert(primes@ =~= Seq::<(u16, u16)>::empty());
            }
            lemma_power_of_two_pairs(primes@, count2);
            if count2 != 0 {
                lemma_basis_pairs_push(Seq::empty(), (2u16, count2), NUM_PRIMES as nat, 0);
            }
        }
        let mut done = v == 1;
        let mut p: u32 = 3;
        let mut i: usize = 0;
        let mut shift: u32 = 1;
        let mut pw: u32 = 2;
        proof {
            vstd::arithmetic::power2::lemma2_to64();
        }
        while i + 1 < NUM_PRIMES && !done
            invariant
                pw == vstd::arithmetic::power2::pow2(shift as nat),
                i + 1 < NUM_PRIMES ==> pw < p,
                1 <= NUM_PRIMES <= MAX_BASIS_PRIMES,
                i + 1 <= NUM_PRIMES,
                i + 1 < NUM_PRIMES ==> p == odd_prime(i as nat),
                sorted_primes(primes@),
                i + 1 < NUM_PRIMES && primes.len() > 0 ==> primes[primes.len() - 1].0 < p,
                v >= 1,
                v % 2 == 1,
                x0 == sparse_product(primes@) * v,
                x0 <= u64::MAX,
                x0 == x,
                done == (v == 1),
                forall|j: nat| j < i ==> (v as nat) % #[trigger] odd_prime(j) != 0,
                basis_pairs(primes@, NUM_PRIMES as nat),
            ensures
                v == 1 || i + 1 >= NUM_PRIMES || odd_prime(i as nat) > 0xFFFF,
            decreases NUM_PRIMES - i,
        {
            proof {
                lemma_odd_prime_bounds(i as nat);
            }
            if p > 0xFFFF {
                break;
            }
            proof {
                assert((p as u64) * (p as u64) <= 0xFFFF * 0xFFFF) by (nonlinear_arith)
                    requires
                        p <= 0xFFFF,
                ;
            }
            // Past the square root of what's left, that is prime.
            if v >= 0x2000 && (v as u64) < 0x4000_0000_0000_0000 && (p as u64) * (p as u64) > v as u64
                && is_odd_prime(v as u64) {
                let r = Self::finish_with_prime(primes, v as u64, p, i);
                proof {
                    assert(r.denom_value() == x0);
                }
                return r;
            }
            let (s2, w2) = power_of_two_below(p, shift, pw);
            shift = s2;
            pw = w2;
            let divider = OddDivider::<u32>::with_multiplier(p as u32, shift, pw, magic_u32_at(i));
            let mut count: u16 = 0;
            let ghost xs = v as nat;
            let ghost pb = sparse_product(primes@);
            proof {
                lemma_pow0(p as int);
            }
            while v != 1
                invariant
                    1 <= NUM_PRIMES <= MAX_BASIS_PRIMES,
                    i + 1 < NUM_PRIMES,
                    p == odd_prime(i as nat),
                    p >= 3,
                    p <= 0xFFFF,
                    divider.is_valid(),
                    divider.divisor == p,
                    sorted_primes(primes@),
                    primes.len() > 0 ==> primes[primes.len() - 1].0 < p,
                    pb == sparse_product(primes@),
                    basis_pairs(primes@, NUM_PRIMES as nat),
                    x0 == pb * xs,
                    x0 <= u64::MAX,
                    x0 == x,
                    v >= 1,
                    v % 2 == 1,
                    xs == v * pow(p as int, count as nat),
                    count < 64,
                    forall|j: nat| j < i ==> (v as nat) % #[trigger] odd_prime(j) != 0,
                ensures
                    v >= 1,
                    v % 2 == 1,
                    xs == v * pow(p as int, count as nat),
                    count < 64,
                    forall|j: nat| j < i ==> (v as nat) % #[trigger] odd_prime(j) != 0,
                    v == 1 || (v as nat) % (p as nat) != 0,
                decreases v,
            {
                if v < 0x2000 {
                    match known_odd_prime_factor_indices(v as usize) {
                        Some(f) => {
                            proof {
                                assert((v as usize) as int == v);
                                assert(2 * (v / 2) + 1 == v);
                                lemma_factors_from(f@, v as nat, i as nat);
                                if f.len() == 0 {
                                    assert(factors_product(f@) == 1);
                                }
                                if count > 0 {
                                    assert(f.len() > 0);
                                }
                            }
                            let r = Self::decompose_known_factors(primes, p as u16, count, f, Ghost(i as nat));
                            proof {
                                assert(r.denom_value() == pb * pow(p as int, count as nat) * v) by {
                                    assert(p as u16 == p);
                                }
                                assert(r.denom_value() == x0) by (nonlinear_arith)
                                    requires
                                        r.denom_value() == pb * pow(p as int, count as nat) * v,
                                        xs == v * pow(p as int, count as nat),
                                        x0 == pb * xs,
                                ;
                            }
                            assert(r.denom_value() == x0);
                            return r;
                        },
                        None => {},
                    }
                }
                let (quo, rem) = divider.div_rem(v);
                if rem != 0 {
                    proof {
                        assert((v as nat) % (p as nat) == rem);
                    }
                    break;
                }
                proof {
                    vstd::arithmetic::power2::lemma2_to64();
                    lemma_sparse_product_pos(primes@);
                    lemma_divide_out(x0, pb, xs, v as nat, quo as nat, p as nat, count as nat, i as nat, 64);
                }
                v = quo;
                count = count + 1;
            }
            let ghost before = primes@;
            if count != 0 {
                primes.push((p as u16, count));
                proof {
                    lemma_push_prime_power(before, p as nat, count, pb, xs, v as nat, x0, i as nat, NUM_PRIMES as nat);
                }
            } else {
                proof {
                    lemma_pow0(p as int);
                    assert(xs == v) by (nonlinear_arith)
                        requires
                            xs == v * pow(p as int, count as nat),
                            pow(p as int, count as nat) == 1,
                    ;
                }
            }
            done = v == 1;
            proof {
                if done {
                    assert forall|j: nat| j < i + 1 implies (v as nat) % #[trigger] odd_prime(j) != 0 by {
                        lemma_odd_prime_bounds(j);
                        lemma_small_mod(1, odd_prime(j));
                    }
                } else {
                    assert((v as nat) % (p as nat) != 0);
                    assert forall|j: nat| j < i + 1 implies (v as nat) % #[trigger] odd_prime(j) != 0 by {
                        if j == i {
                            assert(odd_prime(j) == p);
                        }
                    }
                }
            }
            if i + 2 < NUM_PRIMES {
                proof {
                    lemma_odd_prime_increasing(i as nat, i as nat + 1);
                }
                p = next_odd_prime(i, p);
            }
            i = i + 1;
        }
        let remainder = if v == 1 {
            None
        } else {
            Some(Natural::from_u64(v as u64))
        };
        proof {
            let b = sparse_product(primes@) as int;
            assert(x0 == b * v);
            if v != 1 {
                assert(v >= 2);
            }
            lemma_clear_of_basis(v as nat, i as nat, NUM_PRIMES as nat);
        }
        DenomSparseU16 { primes, remainder }
    }

    /// Decomposes a positive 128-bit integer: the power of two first, then
    /// the odd basis primes while they divide it; what's left is looked up in
    /// the table of known factors as soon as it is small enough.
    #[verifier::spinoff_prover]
    fn decompose_u128(x: u128) -> (r: Self)
        requires
            1 <= NUM_PRIMES <= MAX_BASIS_PRIMES,
            x > 0,
        ensures
            r.wf(),
            r.denom_value() == x,
            r.canonical(),
    {
        let ghost x0 = x as nat;
        let (count2, odd) = strip_twos(x as u128);
        let mut v: u128 = odd as u128;
        let mut primes: Vec<(u16, u16)> = Vec::new();
        if count2 != 0 {
            primes.push((2, count2));
        }
        proof {
            if count2 != 0 {
                assert(primes@ =~= Seq::<(u16, u16)>::empty().push((2u16, count2)));
            } else {
                assert(primes@ =~= Seq::<(u16, u16)>::empty());
            }
            lemma_power_of_two_pairs(primes@, count2);
            if count2 != 0 {
                lemma_basis_pairs_push(Seq::empty(), (2u16, count2), NUM_PRIMES as nat, 0);
            }
        }
        let mut done = v == 1;
        let mut p: u32 = 3;
        let mut i: usize = 0;
        while i + 1 < NUM_PRIMES && !done
            invariant
                1 <= NUM_PRIMES <= MAX_BASIS_PRIMES,
                i + 1 <= NUM_PRIMES,
                i + 1 < NUM_PRIMES ==> p == odd_prime(i as nat),
                sorted_primes(primes@),
                i + 1 < NUM_PRIMES && primes.len() > 0 ==> primes[primes.len() - 1].0 < p,
                v >= 1,
                v % 2 == 1,
                x0 == sparse_product(primes@) * v,
                x0 <= u128::MAX,
                x0 == x,
                done == (v == 1),
                forall|j: nat| j < i ==> (v as nat) % #[trigger] odd_prime(j) != 0,
                basis_pairs(primes@, NUM_PRIMES as nat),
            ensures
                v == 1 || i + 1 >= NUM_PRIMES || odd_prime(i as nat) > 0xFFFF,
            decreases NUM_PRIMES - i,
        {
            proof {
                lemma_odd_prime_bounds(i as nat);
            }
            if p > 0xFFFF {
                break;
            }
            let bigp = p as u128;
            let mut count: u16 = 0;
            let ghost xs = v as nat;
            let ghost pb = sparse_product(primes@);
            proof {
                lemma_pow0(p as int);
            }
            while v != 1
                invariant
                    1 <= NUM_PRIMES <= MAX_BASIS_PRIMES,
                    i + 1 < NUM_PRIMES,
                    p == odd_prime(i as nat),
                    p >= 3,
                    p <= 0xFFFF,
                    bigp == p,
                    sorted_primes(primes@),
                    primes.len() > 0 ==> primes[primes.len() - 1].0 < p,
                    pb == sparse_product(primes@),
                    basis_pairs(primes@, NUM_PRIMES as nat),
                    x0 == pb * xs,
                    x0 <= u128::MAX,
                    x0 == x,
                    v >= 1,
                    v % 2 == 1,
                    xs == v * pow(p as int, count as nat),
                    count < 128,
                    forall|j: nat| j < i ==> (v as nat) % #[trigger] odd_prime(j) != 0,
                ensures
                    v >= 1,
                    v % 2 == 1,
                    xs == v * pow(p as int, count as nat),
                    count < 128,
                    forall|j: nat| j < i ==> (v as nat) % #[trigger] odd_prime(j) != 0,
                    v == 1 || (v as nat) % (p as nat) != 0,
                decreases v,
            {
                if v < 0x2000 {
                    match known_odd_prime_factor_indices(v as usize) {
                        Some(f) => {
                            proof {
                                assert((v as usize) as int == v);
                                assert(2 * (v / 2) + 1 == v);
                                lemma_factors_from(f@, v as nat, i as nat);
                                if f.len() == 0 {
                                    assert(factors_product(f@) == 1);
                                }
                                if count > 0 {
                                    assert(f.len() > 0);
                                }
                            }
                            let r = Self::decompose_known_factors(primes, p as u16, count, f, Ghost(i as nat));
                            proof {
                                assert(r.denom_value() == pb * pow(p as int, count as nat) * v) by {
                                    assert(p as u16 == p);
                                }
                                assert(r.denom_value() == x0) by (nonlinear_arith)
                                    requires
                                        r.denom_value() == pb * pow(p as int, count as nat) * v,
                                        xs == v * pow(p as int, count as nat),
                                        x0 == pb * xs,
                                ;
                            }
                            assert(r.denom_value() == x0);
                            return r;
                        },
                        None => {},
                    }
                }
                let rem = v % bigp;
                if rem != 0 {
                    proof {
                        assert((v as nat) % (p as nat) == rem);
                    }
                    break;
                }
                let quo = v / bigp;
                proof {
                    vstd::arithmetic::power2::lemma2_to64();
                    vstd::arithmetic::power2::lemma_pow2_adds(64, 64);
                    lemma_sparse_product_pos(primes@);
                    lemma_divide_out(x0, pb, xs, v as nat, quo as nat, p as nat, count as nat, i as nat, 128);
                }
                v = quo;
                count = count + 1;
            }
            let ghost before = primes@;
            if count != 0 {
                primes.push((p as u16, count));
                proof {
                    lemma_push_prime_power(before, p as nat, count, pb, xs, v as nat, x0, i as nat, NUM_PRIMES as nat);
                }
            } else {
                proof {
                    lemma_pow0(p as int);
                    assert(xs == v) by (nonlinear_arith)
                        requires
                            xs == v * pow(p as int, count as nat),
                            pow(p as int, count as nat) == 1,
                    ;
                }
            }
            done = v == 1;
            proof {
                if done {
                    assert forall|j: nat| j < i + 1 implies (v as nat) % #[trigger] odd_prime(j) != 0 by {
                        lemma_odd_prime_bounds(j);
                        lemma_small_mod(1, odd_prime(j));
                    }
                } else {
                    assert((v as nat) % (p as nat) != 0);
                    assert forall|j: nat| j < i + 1 implies (v as nat) % #[trigger] odd_prime(j) != 0 by {
                        if j == i {
                            assert(odd_prime(j) == p);
                        }
                    }
                }
            }
            if i + 2 < NUM_PRIMES {
                proof {
                    lemma_odd_prime_increasing(i as nat, i as nat + 1);
                }
                p = next_odd_prime(i, p);
            }
            i = i + 1;
        }
        let remainder = if v == 1 {
            None
        } else {
            Some(Natural::from_u128(v))
        };
        proof {
            let b = sparse_product(primes@) as int;
            assert(x0 == b * v);
            if v != 1 {
                assert(v >= 2);
            }
            lemma_clear_of_basis(v as nat, i as nat, NUM_PRIMES as nat);
        }
        DenomSparseU16 { primes, remainder }
    }

    /// Decomposes a positive machine-size integer: the power of two first, then
    /// the odd basis primes while they divide it; what's left is looked up in
    /// the table of known factors as soon as it is small enough.
    #[verifier::spinoff_prover]
    fn decompose_usize(x: usize) -> (r: Self)
        requires
            1 <= NUM_PRIMES <= MAX_BASIS_PRIMES,
            x > 0,
        ensures
            r.wf(),
            r.denom_value() == x,
            r.canonical(),
    {
        let ghost x0 = x as nat;
        let (count2, odd) = strip_twos(x as u128);
        let mut v: usize = odd as usize;
        let mut primes: Vec<(u16, u16)> = Vec::new();
        if count2 != 0 {
            primes.push((2, count2));
        }
        proof {
            if count2 != 0 {
                assert(primes@ =~= Seq::<(u16, u16)>::empty().push((2u16, count2)));
            } else {
                assert(primes@ =~= Seq::<(u16, u16)>::empty());
            }
            lemma_power_of_two_pairs(primes@, count2);
            if count2 != 0 {
                lemma_basis_pairs_push(Seq::empty(), (2u16, count2), NUM_PRIMES as nat, 0);
            }
        }
        let mut done = v == 1;
        let mut p: u32 = 3;
        let mut i: usize = 0;
        while i + 1 < NUM_PRIMES && !done
            invariant
                1 <= NUM_PRIMES <= MAX_BASIS_PRIMES,
                i + 1 <= NUM_PRIMES,
                i + 1 < NUM_PRIMES ==> p == odd_prime(i as nat),
                sorted_primes(primes@),
                i + 1 < NUM_PRIMES && primes.len() > 0 ==> primes[primes.len() - 1].0 < p,
                v >= 1,
                v % 2 == 1,
                x0 == sparse_product(primes@) * v,
                x0 <= u64::MAX,
                x0 == x,
                done == (v == 1),
                forall|j: nat| j < i ==> (v as nat) % #[trigger] odd_prime(j) != 0,
                basis_pairs(primes@, NUM_PRIMES as nat),
            ensures
                v == 1 || i + 1 >= NUM_PRIMES || odd_prime(i as nat) > 0xFFFF,
            decreases NUM_PRIMES - i,
        {
            proof {
                lemma_odd_prime_bounds(i as nat);
            }
            if p > 0xFFFF {
                break;
            }
            let bigp = p as usize;
            let mut count: u16 = 0;
            let ghost xs = v as nat;
            let ghost pb = sparse_product(primes@);
            proof {
                lemma_pow0(p as int);
            }
            while v != 1
                invariant
                    1 <= NUM_PRIMES <= MAX_BASIS_PRIMES,
                    i + 1 < NUM_PRIMES,
                    p == odd_prime(i as nat),
                    p >= 3,
                    p <= 0xFFFF,
                    bigp == p,
                    sorted_primes(primes@),
                    primes.len() > 0 ==> primes[primes.len() - 1].0 < p,
                    pb == sparse_product(primes@),
                    basis_pairs(primes@, NUM_PRIMES as nat),
                    x0 == pb * xs,
                    x0 <= u64::MAX,
                    x0 == x,
                    v >= 1,
                    v % 2 == 1,
                    xs == v * pow(p as int, count as nat),
                    count < 64,
                    forall|j: nat| j < i ==> (v as nat) % #[trigger] odd_prime(j) != 0,
                ensures
                    v >= 1,
                    v % 2 == 1,
                    xs == v * pow(p as int, count as nat),
                    count < 64,
                    forall|j: nat| j < i ==> (v as nat) % #[trigger] odd_prime(j) != 0,
                    v == 1 || (v as nat) % (p as nat) != 0,
                decreases v,
            {
                if v < 0x2000 {
                    match known_odd_prime_factor_indices(v) {
                        Some(f) => {
                            proof {
                                assert((v as usize) as int == v);
                                assert(2 * (v / 2) + 1 == v);
                                lemma_factors_from(f@, v as nat, i as nat);
                                if f.len() == 0 {
                                    assert(factors_product(f@) == 1);
                                }
                                if count > 0 {
                                    assert(f.len() > 0);
                                }
                            }
                            let r = Self::decompose_known_factors(primes, p as u16, count, f, Ghost(i as nat));
                            proof {
                                assert(r.denom_value() == pb * pow(p as int, count as nat) * v) by {
                                    assert(p as u16 == p);
                                }
                                assert(r.denom_value() == x0) by (nonlinear_arith)
                                    requires
                                        r.denom_value() == pb * pow(p as int, count as nat) * v,
                                        xs == v * pow(p as int, count as nat),
                                        x0 == pb * xs,
                                ;
                            }
                            assert(r.denom_value() == x0);
                            return r;
                        },
                        None => {},
                    }
                }
                let rem = v % bigp;
                if rem != 0 {
                    proof {
                        assert((v as nat) % (p as nat) == rem);
                    }
                    break;
                }
                let quo = v / bigp;
                proof {
                    vstd::arithmetic::power2::lemma2_to64();
                    lemma_sparse_product_pos(primes@);
                    lemma_divide_out(x0, pb, xs, v as nat, quo as nat, p as nat, count as nat, i as nat, 64);
                }
                v = quo;
                count = count + 1;
            }
            let ghost before = primes@;
            if count != 0 {
                primes.push((p as u16, count));
                proof {
                    lemma_push_prime_power(before, p as nat, count, pb, xs, v as nat, x0, i as nat, NUM_PRIMES as nat);
                }
            } else {
                proof {
                    lemma_pow0(p as int);
                    assert(xs == v) by (nonlinear_arith)
                        requires
                            xs == v * pow(p as int, count as nat),
                            pow(p as int, count as nat) == 1,
                    ;
                }
            }
            done = v == 1;
            proof {
                if done {
                    assert forall|j: nat| j < i + 1 implies (v as nat) % #[trigger] odd_prime(j) != 0 by {
                        lemma_odd_prime_bounds(j);
                        lemma_small_mod(1, odd_prime(j));
                    }
                } else {
                    assert((v as nat) % (p as nat) != 0);
                    assert forall|j: nat| j < i + 1 implies (v as nat) % #[trigger] odd_prime(j) != 0 by {
                        if j == i {
                            assert(odd_prime(j) == p);
                        }
                    }
                }
            }
            if i + 2 < NUM_PRIMES {
                proof {
                    lemma_odd_prime_increasing(i as nat, i as nat + 1);
                }
                p = next_odd_prime(i, p);
            }
            i = i + 1;
        }
        let remainder = if v == 1 {
            None
        } else {
            Some(Natural::from_u64(v as u64))
        };
        proof {
            let b = sparse_product(primes@) as int;
            assert(x0 == b * v);
            if v != 1 {
                assert(v >= 2);
            }
            lemma_clear_of_basis(v as nat, i as nat, NUM_PRIMES as nat);
        }
        DenomSparseU16 { primes, remainder }
    }
}

impl<const NUM_PRIMES: usize> DenomSparseU16<NUM_PRIMES> {
    /// Decomposes a positive 8-bit integer: the power of two first, then
    /// the odd factors from the table of known factors, or by trial division
    /// where the table has no entry.
    fn decompose_u8(x: u8) -> (r: Self)
        requires
            1 <= NUM_PRIMES <= MAX_BASIS_PRIMES,
            x > 0,
        ensures
            r.wf(),
            r.denom_value() == x,
            r.canonical(),
    {
        let ghost x0 = x as nat;
        let (count2, odd) = strip_twos(x as u128);
        let v: u8 = odd as u8;
        let mut primes: Vec<(u16, u16)> = Vec::new();
        if count2 != 0 {
            primes.push((2, count2));
        }
        proof {
            if count2 != 0 {
                assert(primes@ =~= Seq::<(u16, u16)>::empty().push((2u16, count2)));
            } else {
                assert(primes@ =~= Seq::<(u16, u16)>::empty());
            }
            lemma_power_of_two_pairs(primes@, count2);
            if count2 != 0 {
                lemma_basis_pairs_push(Seq::empty(), (2u16, count2), NUM_PRIMES as nat, 0);
            }
            lemma_odd_prime_bounds(0);
            lemma_pow0(0);
        }
        // 8-bit integers always fit in the look-up table.
        match known_odd_prime_factor_indices(v as usize) {
            Some(f) => {
                proof {
                    assert((v as usize) as int == v);
                    assert(2 * (v / 2) + 1 == v);
                }
                let r = Self::decompose_known_factors(primes, 0, 0, f, Ghost(0));
                proof {
                    assert(r.denom_value() == sparse_product(primes@) * 1 * v);
                    assert(x0 == pow(2, count2 as nat) * v);
                    assert(sparse_product(primes@) * 1 * v == x0) by (nonlinear_arith)
                        requires
                            sparse_product(primes@) == pow(2, count2 as nat),
                            x0 == pow(2, count2 as nat) * v,
                    ;
                }
                r
            },
            None => Self::decompose_u64(x as u64),
        }
    }

    /// Decomposes a positive natural, with the functions for machine
    /// integers when it fits in one.
    fn decompose(x: &Natural) -> (r: Self)
        requires
            1 <= NUM_PRIMES <= MAX_BASIS_PRIMES,
            x@ > 0,
        ensures
            r.wf(),
            r.denom_value() == x@,
            r.canonical(),
    {
        let bits = x.bits();
        if bits <= 128 {
            proof {
                vstd::arithmetic::power2::lemma2_to64();
                vstd::arithmetic::power2::lemma_pow2_adds(64, 64);
                if bits < 128 {
                    vstd::arithmetic::power2::lemma_pow2_strictly_increases(bits as nat, 128);
                }
                if bits < 64 {
                    vstd::arithmetic::power2::lemma_pow2_strictly_increases(bits as nat, 64);
                }
                if bits < 32 {
                    vstd::arithmetic::power2::lemma_pow2_strictly_increases(bits as nat, 32);
                }
                if bits < 16 {
                    vstd::arithmetic::power2::lemma_pow2_strictly_increases(bits as nat, 16);
                }
                if bits < 8 {
                    vstd::arithmetic::power2::lemma_pow2_strictly_increases(bits as nat, 8);
                }
            }
            let v = x.to_u128();
            if bits <= 8 {
                return Self::decompose_u8(v as u8);
            } else if bits <= 16 {
                return Self::decompose_u16(v as u16);
            } else if bits <= 32 {
                return Self::decompose_u32(v as u32);
            } else if bits <= 64 {
                return Self::decompose_u64(v as u64);
            } else {
                return Self::decompose_u128(v);
            }
        }
        Self::decompose_natural(x)
    }

    /// The denominator of a positive 8-bit integer.
    pub fn from_u8(value: u8) -> (r: Self)
        requires
            1 <= NUM_PRIMES <= MAX_BASIS_PRIMES,
            value > 0,
        ensures
            r.wf(),
            r.denom_value() == value,
            r.canonical(),
    {
        Self::decompose_u8(value)
    }

    /// The denominator of a positive 16-bit integer.
    pub fn from_u16(value: u16) -> (r: Self)
        requires
            1 <= NUM_PRIMES <= MAX_BASIS_PRIMES,
            value > 0,
        ensures
            r.wf(),
            r.denom_value() == value,
            r.canonical(),
    {
        Self::decompose_u16(value)
    }

    /// The denominator of a positive 32-bit integer.
    pub fn from_u32(value: u32) -> (r: Self)
        requires
            1 <= NUM_PRIMES <= MAX_BASIS_PRIMES,
            value > 0,
        ensures
            r.wf(),
            r.denom_value() == value,
            r.canonical(),
    {
        Self::decompose_u32(value)
    }

    /// The denominator of a positive 64-bit integer.
    pub fn from_u64(value: u64) -> (r: Self)
        requires
            1 <= NUM_PRIMES <= MAX_BASIS_PRIMES,
            value > 0,
        ensures
            r.wf(),
            r.denom_value() == value,
            r.canonical(),
    {
        Self::decompose_u64(value)
    }

    /// The denominator of a positive 128-bit integer.
    pub fn from_u128(value: u128) -> (r: Self)
        requires
            1 <= NUM_PRIMES <= MAX_BASIS_PRIMES,
            value > 0,
        ensures
            r.wf(),
            r.denom_value() == value,
            r.canonical(),
    {
        Self::decompose_u128(value)
    }

    /// The denominator of a positive machine-size integer.
    pub fn from_usize(value: usize) -> (r: Self)
        requires
            1 <= NUM_PRIMES <= MAX_BASIS_PRIMES,
            value > 0,
        ensures
            r.wf(),
            r.denom_value() == value,
            r.canonical(),
    {
        Self::decompose_usize(value)
    }

    /// The denominator of a positive big natural.
    pub fn from_biguint(value: &Natural) -> (r: Self)
        requires
            1 <= NUM_PRIMES <= MAX_BASIS_PRIMES,
            value@ > 0,
        ensures
            r.wf(),
            r.denom_value() == value@,
            r.canonical(),
    {
        Self::decompose(value)
    }

    /// A copy of the `(prime, exponent)` pairs.
    pub fn primes(&self) -> (r: Vec<(u16, u16)>)
        ensures
            r@ == self.pairs(),
    {
        let mut v: Vec<(u16, u16)> = Vec::new();
        let mut i: usize = 0;
        while i < self.primes.len()
            invariant
                i <= self.primes.len(),
                v@ == self.primes@.take(i as int),
            decreases self.primes.len() - i,
        {
            v.push(self.primes[i]);
            i = i + 1;
            assert(v@ =~= self.primes@.take(i as int));
        }
        assert(v@ =~= self.primes@);
        v
    }

    /// A copy of the remainder, if any.
    pub fn remainder(&self) -> (r: Option<Natural>)
        ensures
            opt_value(r) == self.remainder_value(),
            r is Some == self.remainder_opt() is Some,
    {
        match &self.remainder {
            Some(x) => Some(x.copy()),
            None => None,
        }
    }
}

/// Computes `prime.pow(exponent)` and multiplies it into the accumulated
/// `(remainder, tmp)`, the remainder taking `tmp` whenever it would overflow.
fn accum_pow_option(remainder: &mut Option<Natural>, tmp: &mut usize, prime: u16, exponent: u16)
    requires
        prime >= 2,
        *old(tmp) >= 1,
        *old(remainder) matches Some(r) ==> r@ >= 2,
    ensures
        *final(tmp) >= 1,
        *final(remainder) matches Some(r) ==> r@ >= 2,
        opt_value(*final(remainder)) * *final(tmp) == opt_value(*old(remainder)) * *old(tmp) * pow(
            prime as int,
            exponent as nat,
        ),
{
    let ghost n0 = opt_value(*remainder) as int;
    let ghost t0 = *tmp as int;
    let prime = prime as usize;
    proof {
        lemma_pow0(prime as int);
    }
    let mut k: u16 = 0;
    while k < exponent
        invariant
            0 <= k <= exponent,
            prime >= 2,
            prime <= 0xFFFF,
            *tmp >= 1,
            *remainder matches Some(r) ==> r@ >= 2,
            opt_value(*remainder) * *tmp == n0 * t0 * pow(prime as int, k as nat),
        decreases exponent - k,
    {
        proof {
            lemma_pow_adds(prime as int, k as nat, 1);
            lemma_pow1(prime as int);
        }
        let ghost nb = opt_value(*remainder) as int;
        let ghost tb = *tmp as int;
        match tmp.checked_mul(prime) {
            Some(prod) => {
                *tmp = prod;
                proof {
                    assert(nb * (tb * prime) == nb * tb * prime) by (nonlinear_arith);
                    assert(tb * prime >= 1) by (nonlinear_arith)
                        requires
                            tb >= 1,
                            prime >= 2,
                    ;
                }
            },
            None => {
                proof {
                    assert(tb >= 2) by (nonlinear_arith)
                        requires
                            tb * prime > usize::MAX,
                            prime <= 0xFFFF,
                            tb >= 1,
                            usize::MAX >= 0xFFFF_FFFF,
                    ;
                }
                let t = Natural::from_u128(*tmp as u128);
                *remainder = match remainder {
                    None => Some(t),
                    Some(r) => Some(r.mul(&t)),
                };
                proof {
                    if nb >= 2 {
                        lemma_mul_at_least_two(t@ as int, nb);
                    }
                    assert(opt_value(*remainder) == nb * tb);
                }
                *tmp = prime;
            },
        }
        proof {
            assert(opt_value(*remainder) * *tmp == nb * tb * prime);
            assert(n0 * t0 * pow(prime as int, (k + 1) as nat) == nb * tb * prime) by (nonlinear_arith)
                requires
                    nb * tb == n0 * t0 * pow(prime as int, k as nat),
                    pow(prime as int, (k + 1) as nat) == pow(prime as int, k as nat) * prime,
            ;
        }
        k = k + 1;
    }
}

impl<const NUM_PRIMES: usize> DenomSparseU16<NUM_PRIMES> {
    /// The divisor's remainder times the powers of primes that this
    /// denominator's exponents lack: what this denominator's remainder must
    /// be a multiple of for [`div`](DenomSparseU16::div) to succeed.
    pub open spec fn division_remainder(&self, rhs: &Self) -> nat {
        rhs.remainder_value() * deficit_product(zip_spec(self.pairs(), rhs.pairs()))
    }

    /// Divides exponents: where the dividend's exponent is below the
    /// divisor's, the prime is dropped and its missing power multiplies the
    /// remainder. The mask lists the primes whose dividend exponent is
    /// saturated.
    fn div_primes(num: &Vec<(u16, u16)>, den: &Vec<(u16, u16)>, remainder: &mut Option<Natural>) -> (r: (
        Vec<(u16, u16)>,
        Vec<u16>,
    ))
        requires
            sorted_primes(num@),
            sorted_primes(den@),
            *old(remainder) matches Some(x) ==> x@ >= 2,
        ensures
            sorted_primes(r.0@),
            forall|k: int| 0 <= k < r.1.len() ==> #[trigger] r.1[k] >= 2,
            forall|k: int, l: int| 0 <= k < l < r.1.len() ==> r.1[k] < r.1[l],
            *final(remainder) matches Some(x) ==> x@ >= 2,
            opt_value(*final(remainder)) == opt_value(*old(remainder)) * deficit_product(
                zip_spec(num@, den@),
            ),
            sparse_product(r.0@) * sparse_product(den@) == sparse_product(num@) * deficit_product(
                zip_spec(num@, den@),
            ),
            deficit_product(zip_spec(num@, den@)) >= 1,
            r.0@ == quotient_pairs(zip_spec(num@, den@)),
            r.1@ == saturated_primes(zip_spec(num@, den@)),
            forall|k: int| 0 <= k < r.0.len() ==> (#[trigger] r.0[k]).1 >= 1,
            forall|q: nat|
                #[trigger] listed_exponent(r.0@, q) == exp_diff(
                    listed_exponent(num@, q),
                    listed_exponent(den@, q),
                ),
            forall|q: nat|
                #[trigger] listed_exponent(mask_flags(r.1@), q) == if listed_exponent(num@, q)
                    == 0xFFFF {
                    1nat
                } else {
                    0nat
                },
    {
        let z = zip_counts(num, den);
        let mut primes: Vec<(u16, u16)> = Vec::new();
        let mut mask: Vec<u16> = Vec::new();
        let mut tmp: usize = 1;
        let ghost rem0 = opt_value(*remainder) as int;
        let mut k: usize = 0;
        proof {
            assert(z@.take(0) =~= Seq::<(u16, u16, u16)>::empty());
            assert(left_pairs(z@.take(0)) =~= Seq::<(u16, u16)>::empty());
            assert(right_pairs(z@.take(0)) =~= Seq::<(u16, u16)>::empty());
        }
        while k < z.len()
            invariant
                sorted_triples(z@),
                k <= z.len(),
                sorted_primes(primes@),
                primes.len() > 0 && k < z.len() ==> primes[primes.len() - 1].0 < z[k as int].0,
                forall|m: int| 0 <= m < mask.len() ==> #[trigger] mask[m] >= 2,
                forall|m: int, n: int| 0 <= m < n < mask.len() ==> mask[m] < mask[n],
                mask.len() > 0 && k < z.len() ==> mask[mask.len() - 1] < z[k as int].0,
                tmp >= 1,
                *remainder matches Some(x) ==> x@ >= 2,
                opt_value(*remainder) * tmp == rem0 * deficit_product(z@.take(k as int)),
                sparse_product(primes@) * sparse_product(right_pairs(z@.take(k as int)))
                    == sparse_product(left_pairs(z@.take(k as int))) * deficit_product(
                    z@.take(k as int),
                ),
                primes@ == quotient_pairs(z@.take(k as int)),
                forall|m: int| 0 <= m < primes.len() ==> (#[trigger] primes[m]).1 >= 1,
                mask@ == saturated_primes(z@.take(k as int)),
                forall|q: nat|
                    #[trigger] listed_exponent(primes@, q) == exp_diff(
                        listed_exponent(left_pairs(z@.take(k as int)), q),
                        listed_exponent(right_pairs(z@.take(k as int)), q),
                    ),
                forall|q: nat|
                    #[trigger] listed_exponent(mask_flags(mask@), q) == if listed_exponent(
                        left_pairs(z@.take(k as int)),
                        q,
                    ) == 0xFFFF {
                        1nat
                    } else {
                        0nat
                    },
            decreases z.len() - k,
        {
            let (p, n, d) = z[k];
            let ghost pb = sparse_product(primes@) as int;
            let ghost hb = sparse_product(right_pairs(z@.take(k as int))) as int;
            let ghost lb = sparse_product(left_pairs(z@.take(k as int))) as int;
            let ghost db = deficit_product(z@.take(k as int)) as int;
            let ghost prev = primes@;
            let ghost mprev = mask@;
            proof {
                assert(z[k as int].0 >= 2);
                assert(z@.take(k + 1) =~= z@.take(k as int).push(z[k as int]));
                assert(z@.take(k + 1).drop_last() =~= z@.take(k as int));
                lemma_pairs_push(z@.take(k as int), z[k as int]);
                lemma_sparse_push(left_pairs(z@.take(k as int)), (p, n));
                lemma_sparse_push(right_pairs(z@.take(k as int)), (p, d));
                lemma_pow_adds(p as int, (n - d) as nat, d as nat);
                lemma_pow_adds(p as int, n as nat, (d - n) as nat);
                lemma_prime_pow_pos(p, n);
                lemma_prime_pow_pos(p, d);
                if k + 1 < z.len() {
                    assert(z[k as int].0 < z[k + 1].0);
                }
                assert(z@.take(k + 1).last() == z[k as int]);
            }
            if n == 0xFFFF {
                mask.push(p);
            }
            let ghost rb = opt_value(*remainder) as int;
            let ghost tb = tmp as int;
            let ghost xn = pow(p as int, n as nat);
            let ghost xd = pow(p as int, d as nat);
            if n > d {
                primes.push((p, n - d));
                proof {
                    lemma_sparse_push(prev, (p, (n - d) as u16));
                    let y = pow(p as int, (n - d) as nat);
                    assert(deficit_product(z@.take(k + 1)) == db * 1);
                    assert((pb * y) * (hb * xd) == (lb * xn) * (db * 1)) by (nonlinear_arith)
                        requires
                            pb * hb == lb * db,
                            y * xd == xn,
                    ;
                }
            } else if n < d {
                accum_pow_option(remainder, &mut tmp, p, d - n);
                proof {
                    let y = pow(p as int, (d - n) as nat);
                    lemma_prime_pow_pos(p, (d - n) as u16);
                    assert(deficit_product(z@.take(k + 1)) == db * y);
                    assert(pb * (hb * xd) == (lb * xn) * (db * y)) by (nonlinear_arith)
                        requires
                            pb * hb == lb * db,
                            xn * y == xd,
                    ;
                    assert(opt_value(*remainder) * tmp == rem0 * (db * y)) by (nonlinear_arith)
                        requires
                            opt_value(*remainder) * tmp == rb * tb * y,
                            rb * tb == rem0 * db,
                    ;
                }
            } else {
                proof {
                    assert(deficit_product(z@.take(k + 1)) == db * 1);
                    assert(pb * (hb * xd) == (lb * xn) * (db * 1)) by (nonlinear_arith)
                        requires
                            pb * hb == lb * db,
                            xn == xd,
                    ;
                }
            }
            proof {
                assert forall|m: int| 0 <= m < primes.len() implies #[trigger] primes[m].0 >= 2 by {
                    if m < prev.len() {
                        assert(primes[m] == prev[m]);
                    }
                }
                assert forall|m: int, l: int| 0 <= m < l < primes.len() implies primes[m].0
                    < primes[l].0 by {
                    if l < prev.len() {
                        assert(primes[m] == prev[m] && primes[l] == prev[l]);
                    } else {
                        assert(primes[m] == prev[m]);
                        if m < prev.len() - 1 {
                            assert(prev[m].0 < prev[prev.len() - 1].0);
                        }
                    }
                }
                assert forall|m: int| 0 <= m < mask.len() implies #[trigger] mask[m] >= 2 by {
                    if m < mprev.len() {
                        assert(mask[m] == mprev[m]);
                    }
                }
                assert forall|m: int, l: int| 0 <= m < l < mask.len() implies mask[m] < mask[l] by {
                    if l < mprev.len() {
                        assert(mask[m] == mprev[m] && mask[l] == mprev[l]);
                    } else {
                        assert(mask[m] == mprev[m]);
                        if m < mprev.len() - 1 {
                            assert(mprev[m] < mprev[mprev.len() - 1]);
                        }
                    }
                }
            }
            proof {
                assert(primes@ =~= quotient_pairs(z@.take(k + 1)));
                assert(mask@ =~= saturated_primes(z@.take(k + 1)));
                assert(left_pairs(z@.take(k + 1)) =~= left_pairs(z@.take(k as int)).push((p, n)));
                assert(right_pairs(z@.take(k + 1)) =~= right_pairs(z@.take(k as int)).push((p, d)));
                assert forall|m: int| 0 <= m < prev.len() implies (#[trigger] prev[m]).0 < p by {
                    if m < prev.len() - 1 {
                        assert(prev[m].0 < prev[prev.len() - 1].0);
                    }
                }
                lemma_listed_absent(prev, p as nat);
                assert forall|m: int| 0 <= m < mask_flags(mprev).len() implies (
                #[trigger] mask_flags(mprev)[m]).0 < p by {
                    if m < mprev.len() - 1 {
                        assert(mprev[m] < mprev[mprev.len() - 1]);
                    }
                }
                lemma_listed_absent(mask_flags(mprev), p as nat);
                if n == 0xFFFF {
                    assert(mask_flags(mask@) =~= mask_flags(mprev).push((p, 1u16)));
                } else {
                    assert(mask_flags(mask@) =~= mask_flags(mprev));
                }
                if n > d {
                    assert(primes@ =~= prev.push((p, (n - d) as u16)));
                } else {
                    assert(primes@ =~= prev);
                }
                assert forall|m: int| 0 <= m < primes.len() implies (#[trigger] primes[m]).1 >= 1 by {
                    if m < prev.len() {
                        assert(primes[m] == prev[m]);
                    }
                }
                assert forall|q: nat| #[trigger] listed_exponent(primes@, q) == exp_diff(
                    listed_exponent(left_pairs(z@.take(k + 1)), q),
                    listed_exponent(right_pairs(z@.take(k + 1)), q),
                ) by {
                    lemma_listed_push(left_pairs(z@.take(k as int)), (p, n), q);
                    lemma_listed_push(right_pairs(z@.take(k as int)), (p, d), q);
                    if n > d {
                        lemma_listed_push(prev, (p, (n - d) as u16), q);
                    }
                }
                assert forall|q: nat| #[trigger] listed_exponent(mask_flags(mask@), q) == if listed_exponent(
                    left_pairs(z@.take(k + 1)),
                    q,
                ) == 0xFFFF {
                    1nat
                } else {
                    0nat
                } by {
                    lemma_listed_push(left_pairs(z@.take(k as int)), (p, n), q);
                    if n == 0xFFFF {
                        lemma_listed_push(mask_flags(mprev), (p, 1u16), q);
                    }
                }
            }
            k = k + 1;
        }
        proof {
            assert(z@.take(z.len() as int) =~= z@);
            lemma_deficit_pos(z@);
        }
        proof {
            assert forall|q: nat| #[trigger] listed_exponent(primes@, q) == exp_diff(
                listed_exponent(num@, q),
                listed_exponent(den@, q),
            ) by {
                assert(listed_exponent(left_pairs(z@), q) == listed_exponent(num@, q));
                assert(listed_exponent(right_pairs(z@), q) == listed_exponent(den@, q));
            }
            assert forall|q: nat| #[trigger] listed_exponent(mask_flags(mask@), q) == if listed_exponent(
                num@,
                q,
            ) == 0xFFFF {
                1nat
            } else {
                0nat
            } by {
                assert(listed_exponent(left_pairs(z@), q) == listed_exponent(num@, q));
            }
        }
        if tmp != 1 {
            let t = Natural::from_u128(tmp as u128);
            let ghost rb = opt_value(*remainder) as int;
            *remainder = match remainder {
                None => Some(t),
                Some(x) => Some(x.mul(&t)),
            };
            proof {
                if rb >= 2 {
                    lemma_mul_at_least_two(t@ as int, rb);
                }
                assert(opt_value(*remainder) == rb * tmp);
            }
        }
        (primes, mask)
    }

    /// Moves the factors of the masked primes out of the remainder and into
    /// their exponents, while these don't saturate; a prime left with no
    /// exponent is not listed.
    fn decompose_mask(remainder: &mut Option<Natural>, primes: &mut Vec<(u16, u16)>, mask: &Vec<u16>)
        requires
            sorted_primes(old(primes)@),
            forall|k: int| 0 <= k < mask.len() ==> #[trigger] mask[k] >= 2,
            forall|k: int, l: int| 0 <= k < l < mask.len() ==> mask[k] < mask[l],
            *old(remainder) matches Some(x) ==> x@ >= 2,
        ensures
            sorted_primes(final(primes)@),
            *final(remainder) matches Some(x) ==> x@ >= 2,
            sparse_product(final(primes)@) * opt_value(*final(remainder)) == sparse_product(
                old(primes)@,
            ) * opt_value(*old(remainder)),
            *old(remainder) is None ==> *final(remainder) is None && final(primes)@ == old(primes)@,
            opt_value(*old(remainder)) % opt_value(*final(remainder)) == 0,
            *old(remainder) is Some ==> forall|k: int|
                0 <= k < final(primes).len() ==> (#[trigger] final(primes)[k]).1 >= 1 && (
                listed_exponent(old(primes)@, final(primes)[k].0 as nat) != 0 || listed_exponent(
                    mask_flags(mask@),
                    final(primes)[k].0 as nat,
                ) != 0),
            *old(remainder) is Some ==> forall|q: nat|
                #[trigger] listed_exponent(final(primes)@, q) >= listed_exponent(old(primes)@, q),
            *old(remainder) is Some ==> forall|q: nat|
                listed_exponent(mask_flags(mask@), q) == 0 ==> #[trigger] listed_exponent(
                    final(primes)@,
                    q,
                ) == listed_exponent(old(primes)@, q),
            *old(remainder) is Some ==> forall|q: nat|
                q >= 2 && listed_exponent(mask_flags(mask@), q) != 0 && #[trigger] listed_exponent(
                    final(primes)@,
                    q,
                ) != 0xFFFF ==> opt_value(*final(remainder)) % q != 0,
    {
        let mut x = match remainder {
            None => {
                proof {
                    lemma_mod_self_0(1);
                }
                return ;
            },
            Some(x) => x.copy(),
        };
        let mut flags: Vec<(u16, u16)> = Vec::new();
        let mut m: usize = 0;
        while m < mask.len()
            invariant
                m <= mask.len(),
                flags.len() == m,
                forall|k: int| 0 <= k < m ==> #[trigger] flags[k] == (mask[k], 1u16),
            decreases mask.len() - m,
        {
            flags.push((mask[m], 1));
            m = m + 1;
        }
        proof {
            assert forall|k: int| 0 <= k < flags.len() implies #[trigger] flags[k].0 >= 2 by {
                assert(flags[k] == (mask[k], 1u16));
            }
            assert forall|k: int, l: int| 0 <= k < l < flags.len() implies flags[k].0 < flags[l].0 by {
                assert(flags[k] == (mask[k], 1u16) && flags[l] == (mask[l], 1u16));
            }
        }
        proof {
            assert(flags@ =~= mask_flags(mask@));
        }
        let z = zip_counts(primes, &flags);
        let ghost v0 = sparse_product(primes@) * x@;
        let ghost x0v = x@;
        let ghost mut kk: nat = 1;
        let mut new_primes: Vec<(u16, u16)> = Vec::new();
        let mut done = false;
        let mut k: usize = 0;
        proof {
            assert(z@.skip(0) =~= z@);
            assert(new_primes@ =~= Seq::<(u16, u16)>::empty());
            assert(sparse_product(new_primes@) == 1);
            let pp = sparse_product(left_pairs(z@)) as int;
            assert(1 * x@ * pp == pp * x@) by (nonlinear_arith);
        }
        while k < z.len()
            invariant
                sorted_triples(z@),
                k <= z.len(),
                sorted_primes(new_primes@),
                new_primes.len() > 0 && k < z.len() ==> new_primes[new_primes.len() - 1].0 < z[k as int].0,
                x@ >= 1,
                done ==> x@ == 1,
                sparse_product(new_primes@) * x@ * sparse_product(left_pairs(z@.skip(k as int)))
                    == v0,
                forall|q: nat|
                    #[trigger] listed_exponent(new_primes@, q) >= listed_exponent(
                        left_pairs(z@.take(k as int)),
                        q,
                    ),
                forall|q: nat|
                    listed_exponent(right_pairs(z@.take(k as int)), q) == 0 ==> #[trigger] listed_exponent(
                        new_primes@,
                        q,
                    ) == listed_exponent(left_pairs(z@.take(k as int)), q),
                forall|m: int|
                    0 <= m < new_primes.len() ==> (#[trigger] new_primes[m]).1 >= 1 && (listed_exponent(
                        left_pairs(z@.take(k as int)),
                        new_primes[m].0 as nat,
                    ) != 0 || listed_exponent(right_pairs(z@.take(k as int)), new_primes[m].0 as nat)
                        != 0),
                forall|q: nat|
                    q >= 2 && listed_exponent(right_pairs(z@.take(k as int)), q) != 0
                        && #[trigger] listed_exponent(new_primes@, q) != 0xFFFF ==> x@ % q != 0,
                x0v == x@ * kk,
            decreases z.len() - k,
        {
            let (p, c, flag) = z[k];
            let mut count = c;
            let ghost xs = x@;
            proof {
                assert(z[k as int].0 >= 2);
                lemma_pow0(p as int);
            }
            if !done && flag != 0 && count != 0xFFFF {
                let bigp = Natural::from_u128(p as u128);
                while count != 0xFFFF
                    invariant
                        p >= 2,
                        bigp@ == p,
                        x@ >= 1,
                        count >= c,
                        xs * pow(p as int, c as nat) == x@ * pow(p as int, count as nat),
                        done ==> x@ == 1,
                        sorted_primes(new_primes@),
                        k < z.len(),
                        forall|q: nat|
                            q >= 2 && listed_exponent(right_pairs(z@.take(k as int)), q) != 0
                                && #[trigger] listed_exponent(new_primes@, q) != 0xFFFF ==> x@ % q != 0,
                        x0v == x@ * kk,
                    ensures
                        x@ >= 1,
                        count >= c,
                        xs * pow(p as int, c as nat) == x@ * pow(p as int, count as nat),
                        done ==> x@ == 1,
                        forall|q: nat|
                            q >= 2 && listed_exponent(right_pairs(z@.take(k as int)), q) != 0
                                && #[trigger] listed_exponent(new_primes@, q) != 0xFFFF ==> x@ % q != 0,
                        x0v == x@ * kk,
                        x@ == 1 || count == 0xFFFF || x@ % (p as nat) != 0,
                    decreases 0xFFFF - count,
                {
                    let (quo, rem) = x.div_rem(&bigp);
                    if !rem.is_zero() {
                        break;
                    }
                    proof {
                        lemma_fundamental_div_mod(x@ as int, p as int);
                        lemma_pow_adds(p as int, count as nat, 1);
                        lemma_pow1(p as int);
                        assert(x@ * pow(p as int, count as nat) == quo@ * pow(p as int, (count + 1) as nat))
                            by (nonlinear_arith)
                            requires
                                x@ == p * quo@,
                                pow(p as int, (count + 1) as nat) == pow(p as int, count as nat) * p,
                        ;
                        assert(quo@ >= 1) by (nonlinear_arith)
                            requires
                                x@ == p * quo@,
                                x@ >= 1,
                        ;
                        lemma_mul_is_commutative(p as int, quo@ as int);
                        assert forall|q: nat|
                            q >= 2 && listed_exponent(right_pairs(z@.take(k as int)), q) != 0
                                && #[trigger] listed_exponent(new_primes@, q) != 0xFFFF implies quo@ % q
                            != 0 by {
                            lemma_not_divides_factor(x@ as int, quo@ as int, p as int, q as int);
                        }
                        assert(x0v == quo@ * (kk * p)) by (nonlinear_arith)
                            requires
                                x0v == x@ * kk,
                                x@ == quo@ * p,
                        ;
                        kk = kk * p as nat;
                    }
                    x = quo;
                    count = count + 1;
                    if x.is_one() {
                        done = true;
                        break;
                    }
                }
            }
            let ghost prev = new_primes@;
            proof {
                if x@ == 1 {
                    vstd::arithmetic::div_mod::lemma_small_mod(1, p as nat);
                }
            }
            if count != 0 {
                new_primes.push((p, count));
            }
            proof {
                assert(z@.take(k + 1) =~= z@.take(k as int).push(z[k as int]));
                lemma_pairs_push(z@.take(k as int), z[k as int]);
                assert(left_pairs(z@.take(k + 1)) == left_pairs(z@.take(k as int)).push((p, c)));
                assert(right_pairs(z@.take(k + 1)) == right_pairs(z@.take(k as int)).push((p, flag)));
                assert forall|m: int| 0 <= m < prev.len() implies (#[trigger] prev[m]).0 < p by {
                    if m < prev.len() - 1 {
                        assert(prev[m].0 < prev[prev.len() - 1].0);
                    }
                }
                lemma_listed_absent(prev, p as nat);
                if count != 0 {
                    assert(new_primes@ == prev.push((p, count)));
                } else {
                    assert(new_primes@ == prev);
                }
                assert forall|q: nat| #[trigger] listed_exponent(new_primes@, q) == if q == p as nat {
                    count as nat
                } else {
                    listed_exponent(prev, q)
                } by {
                    if count != 0 {
                        lemma_listed_push(prev, (p, count), q);
                    }
                }
                assert forall|q: nat| #[trigger] listed_exponent(left_pairs(z@.take(k + 1)), q) == if q
                    == p as nat {
                    c as nat
                } else {
                    listed_exponent(left_pairs(z@.take(k as int)), q)
                } by {
                    lemma_listed_push(left_pairs(z@.take(k as int)), (p, c), q);
                }
                assert forall|q: nat| #[trigger] listed_exponent(right_pairs(z@.take(k + 1)), q) == if q
                    == p as nat {
                    flag as nat
                } else {
                    listed_exponent(right_pairs(z@.take(k as int)), q)
                } by {
                    lemma_listed_push(right_pairs(z@.take(k as int)), (p, flag), q);
                }
                assert forall|m: int| 0 <= m < new_primes.len() implies (#[trigger] new_primes[m]).1 >= 1
                    && (listed_exponent(left_pairs(z@.take(k + 1)), new_primes[m].0 as nat) != 0
                    || listed_exponent(right_pairs(z@.take(k + 1)), new_primes[m].0 as nat) != 0) by {
                    if m < prev.len() {
                        assert(new_primes[m] == prev[m]);
                        assert(prev[m].0 < p);
                    }
                }
                assert forall|q: nat|
                    q >= 2 && listed_exponent(right_pairs(z@.take(k + 1)), q) != 0
                        && #[trigger] listed_exponent(new_primes@, q) != 0xFFFF implies x@ % q != 0 by {
                    if q == p as nat && x@ == 1 {
                        vstd::arithmetic::div_mod::lemma_small_mod(1, q);
                    }
                }
                assert forall|q: nat| #[trigger] listed_exponent(new_primes@, q) >= listed_exponent(
                    left_pairs(z@.take(k + 1)),
                    q,
                ) by {
                }
                assert forall|q: nat|
                    listed_exponent(right_pairs(z@.take(k + 1)), q) == 0 implies #[trigger] listed_exponent(
                        new_primes@,
                        q,
                    ) == listed_exponent(left_pairs(z@.take(k + 1)), q) by {
                }
                lemma_sparse_push(prev, (p, count));
                if count == 0 {
                    lemma_pow0(p as int);
                    assert(sparse_product(new_primes@) == sparse_product(prev) * pow(p as int, count as nat));
                }
                let sk = z@.skip(k as int);
                assert(left_pairs(sk) =~= seq![(p, c)] + left_pairs(z@.skip(k + 1)));
                assert forall|m: int| 0 <= m < left_pairs(z@.skip(k + 1)).len() implies #[trigger] left_pairs(z@.skip(k + 1))[m].0 >= 2 by {
                    assert(left_pairs(z@.skip(k + 1))[m].0 == z[k + 1 + m].0);
                }
                lemma_sparse_prepend(left_pairs(z@.skip(k + 1)), (p, c));
                let rest = sparse_product(left_pairs(z@.skip(k + 1))) as int;
                let yc = pow(p as int, c as nat);
                let ycount = pow(p as int, count as nat);
                let pb = sparse_product(prev) as int;
                assert((pb * ycount) * x@ * rest == pb * xs * (yc * rest)) by (nonlinear_arith)
                    requires
                        xs * yc == x@ * ycount,
                ;
                assert forall|m: int| 0 <= m < new_primes.len() implies #[trigger] new_primes[m].0 >= 2 by {
                    if m < prev.len() {
                        assert(new_primes[m] == prev[m]);
                    }
                }
                assert forall|m: int, l: int| 0 <= m < l < new_primes.len() implies new_primes[m].0
                    < new_primes[l].0 by {
                    if l < prev.len() {
                        assert(new_primes[m] == prev[m] && new_primes[l] == prev[l]);
                    } else {
                        assert(new_primes[m] == prev[m]);
                    }
                }
                if k + 1 < z.len() {
                    assert(z[k as int].0 < z[k + 1].0);
                }
            }
            k = k + 1;
        }
        proof {
            assert(z@.skip(z.len() as int) =~= Seq::<(u16, u16, u16)>::empty());
            assert(left_pairs(Seq::<(u16, u16, u16)>::empty()) =~= Seq::<(u16, u16)>::empty());
            assert(sparse_product(Seq::<(u16, u16)>::empty()) == 1);
        }
        proof {
            assert(z@.take(z.len() as int) =~= z@);
            lemma_mod_multiples_basic(kk as int, x@ as int);
            lemma_mul_is_commutative(kk as int, x@ as int);
        }
        *primes = new_primes;
        if x.is_one() {
            *remainder = None;
        } else {
            *remainder = Some(x);
        }
        proof {
            assert(sparse_product(primes@) * x@ * 1 == sparse_product(primes@) * x@) by (nonlinear_arith);
        }
    }

    /// Divides this denominator by the other one, which must divide it as
    /// represented: this remainder must be a multiple of the divisor's
    /// remainder times the powers of primes that this denominator's
    /// exponents lack.
    pub fn div(&self, rhs: &Self) -> (r: Self)
        requires
            self.wf(),
            rhs.wf(),
            self.remainder_value() % self.division_remainder(rhs) == 0,
        ensures
            r.wf(),
            r.denom_value() * rhs.denom_value() == self.denom_value(),
            forall|q: nat|
                listed_exponent(self.pairs(), q) != 0xFFFF ==> #[trigger] listed_exponent(r.pairs(), q)
                    == exp_diff(listed_exponent(self.pairs(), q), listed_exponent(rhs.pairs(), q)),
            forall|q: nat|
                listed_exponent(self.pairs(), q) == 0xFFFF ==> #[trigger] listed_exponent(r.pairs(), q)
                    >= exp_diff(0xFFFF, listed_exponent(rhs.pairs(), q)),
            self.canonical() ==> r.canonical(),
    {
        let mut rem = match &rhs.remainder {
            None => None,
            Some(r) => Some(r.copy()),
        };
        let (mut primes, mask) = Self::div_primes(&self.primes, &rhs.primes, &mut rem);
        let ghost big_r = opt_value(rem) as int;
        let ghost lv = self.remainder_value() as int;
        let ghost dd = deficit_product(zip_spec(self.primes@, rhs.primes@)) as int;
        proof {
            assert(big_r >= 1) by (nonlinear_arith)
                requires
                    big_r == rhs.remainder_value() * dd,
                    rhs.remainder_value() >= 1,
                    dd >= 1,
            ;
            assert(big_r == self.division_remainder(rhs));
            lemma_fundamental_div_mod(lv, big_r);
        }
        let mut remainder = match &self.remainder {
            None => {
                proof {
                    if rem is Some {
                        lemma_small_mod(1, big_r as nat);
                    }
                }
                None
            },
            Some(l) => match &rem {
                None => Some(l.copy()),
                Some(r) => {
                    let (quo, _) = l.div_rem(r);
                    if quo.is_one() {
                        None
                    } else {
                        proof {
                            assert(quo@ >= 2) by (nonlinear_arith)
                                requires
                                    l@ == r@ * quo@,
                                    l@ >= 2,
                                    quo@ != 1,
                            ;
                        }
                        Some(quo)
                    }
                },
            },
        };
        let ghost q = opt_value(remainder) as int;
        let ghost p0 = sparse_product(primes@) as int;
        proof {
            assert(lv == q * big_r) by (nonlinear_arith)
                requires
                    lv == big_r * (lv / big_r),
                    q == lv / big_r,
            ;
        }
        let ghost primes1 = primes@;
        let ghost rem1 = remainder;
        Self::decompose_mask(&mut remainder, &mut primes, &mask);
        let result = DenomSparseU16 { primes, remainder };
        proof {
            assert forall|q: nat|
                listed_exponent(self.pairs(), q) != 0xFFFF implies #[trigger] listed_exponent(
                    result.pairs(),
                    q,
                ) == exp_diff(listed_exponent(self.pairs(), q), listed_exponent(rhs.pairs(), q)) by {
                assert(listed_exponent(primes1, q) == exp_diff(
                    listed_exponent(self.pairs(), q),
                    listed_exponent(rhs.pairs(), q),
                ));
            }
            assert forall|q: nat|
                listed_exponent(self.pairs(), q) == 0xFFFF implies #[trigger] listed_exponent(
                    result.pairs(),
                    q,
                ) >= exp_diff(0xFFFF, listed_exponent(rhs.pairs(), q)) by {
                assert(listed_exponent(primes1, q) == exp_diff(
                    listed_exponent(self.pairs(), q),
                    listed_exponent(rhs.pairs(), q),
                ));
            }
            if self.canonical() {
                let sp = self.pairs();
                let rf = result.remainder_value();
                assert forall|k: int| 0 <= k < result.pairs().len() implies (
                #[trigger] result.pairs()[k]).1 >= 1 && is_basis_prime(
                    result.pairs()[k].0 as nat,
                    NUM_PRIMES as nat,
                ) by {
                    let qk = result.pairs()[k].0 as nat;
                    if rem1 is None {
                        assert(result.pairs()[k] == primes1[k]);
                        lemma_listed_at(primes1, k);
                    }
                    assert(listed_exponent(sp, qk) != 0);
                    lemma_listed_witness(sp, qk);
                    let m = choose|m: int| 0 <= m < sp.len() && sp[m].0 == qk && sp[m].1 == listed_exponent(sp, qk);
                    lemma_basis_pairs_at(sp, NUM_PRIMES as nat, m);
                }
                if rem1 is Some {
                    lemma_fundamental_div_mod(q, rf as int);
                }
                assert forall|j: nat|
                    j < NUM_PRIMES && #[trigger] basis_prime(j) <= 0xFFFF && listed_exponent(
                        result.pairs(),
                        basis_prime(j),
                    ) < 0xFFFF implies rf % basis_prime(j) != 0 by {
                    let pj = basis_prime(j);
                    lemma_basis_prime(j, j);
                    if rf == 1 {
                        lemma_small_mod(1, pj);
                    } else if listed_exponent(mask_flags(mask@), pj) == 0 {
                        assert(listed_exponent(sp, pj) != 0xFFFF);
                        lemma_listed_bound(sp, pj);
                        assert((lv as nat) % pj != 0);
                        lemma_mul_is_commutative(q, big_r);
                        lemma_not_divides_factor(lv, q, big_r, pj as int);
                        lemma_mul_is_commutative(rf as int, q / (rf as int));
                        lemma_not_divides_factor(q, rf as int, q / (rf as int), pj as int);
                    }
                }
            }
            let ps = self.primes_value() as int;
            let pr = rhs.primes_value() as int;
            let rr = rhs.remainder_value() as int;
            assert(result.denom_value() * rhs.denom_value() == self.denom_value()) by (nonlinear_arith)
                requires
                    result.denom_value() == p0 * q,
                    rhs.denom_value() == pr * rr,
                    self.denom_value() == ps * lv,
                    p0 * pr == ps * dd,
                    big_r == rr * dd,
                    lv == q * big_r,
            ;
        }
        result
    }

    /// Divides this denominator by the other one in place, as
    /// [`div`](DenomSparseU16::div) does.
    pub fn div_assign(&mut self, rhs: &Self)
        requires
            old(self).wf(),
            rhs.wf(),
            old(self).remainder_value() % old(self).division_remainder(rhs) == 0,
        ensures
            final(self).wf(),
            final(self).denom_value() * rhs.denom_value() == old(self).denom_value(),
            forall|q: nat|
                listed_exponent(old(self).pairs(), q) != 0xFFFF ==> #[trigger] listed_exponent(
                    final(self).pairs(),
                    q,
                ) == exp_diff(listed_exponent(old(self).pairs(), q), listed_exponent(rhs.pairs(), q)),
            forall|q: nat|
                listed_exponent(old(self).pairs(), q) == 0xFFFF ==> #[trigger] listed_exponent(
                    final(self).pairs(),
                    q,
                ) >= exp_diff(0xFFFF, listed_exponent(rhs.pairs(), q)),
            old(self).canonical() ==> final(self).canonical(),
    {
        *self = self.div(rhs);
    }

    /// Multiplies this denominator by the other one in place.
    pub fn mul_assign(&mut self, rhs: &Self)
        requires
            old(self).wf(),
            rhs.wf(),
        ensures
            final(self).wf(),
            final(self).denom_value() == old(self).denom_value() * rhs.denom_value(),
            final(self).is_product_of(&*old(self), rhs),
    {
        *self = Denom::mul(&*self, rhs);
    }
}

} // verus!
