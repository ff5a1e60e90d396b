//! Denominators held as exponents of the first basis primes, times a big
//! natural remainder when that's not sufficient.
use crate::bignum::{
    abs, gcd, lemma_abs_mul, lemma_abs_trunc_div, lemma_coprime_factor, lemma_gcd_coprime_quotients,
    lemma_common_divisor, lemma_gcd_divides, lemma_gcd_one, lcm, lemma_lcm, lemma_trunc_div_exact, lemma_trunc_div_rem, trunc_div,
    Integer, Natural,
};
use crate::denom::{
    basis_product, exps, lemma_basis_pow_pos, lemma_basis_product_add, lemma_basis_product_dec,
    lemma_basis_product_inc, lemma_basis_product_pos, lemma_basis_product_push,
    lemma_basis_product_scale, lemma_exps_push, Denom, DenomRef,
};
use crate::prime_gaps::NUM_ODD_PRIMES;
use crate::primes::{basis_prime, lemma_basis_prime, lemma_odd_prime_bounds, next_basis_prime};
use vstd::arithmetic::div_mod::*;
use vstd::arithmetic::mul::*;
use vstd::arithmetic::power::*;
use vstd::prelude::*;

verus! {

/// The largest number of basis primes: 2 and the odd primes of the table.
pub const MAX_BASIS_PRIMES: usize = 6542;

/// Denominator representation that decomposes an integer as a product of the
/// first `NUM_PRIMES` primes, multiplied by a regular big integer when that's
/// not sufficient.
#[derive(Debug, PartialEq, Eq)]
pub struct DenomArray<const NUM_PRIMES: usize> {
    // The representation is canonical when powers of small primes saturate
    // the primes array before overflowing into the remainder.
    primes: Vec<u8>,
    remainder: Option<Natural>,
}

/// Denominator representation that decomposes an integer as a product of the
/// first 24 primes (up to 89), multiplied by a regular big integer when that's
/// not sufficient.
pub type Denom24 = DenomArray<24>;

/// Same as [`Denom24`].
pub type DenomArray24 = DenomArray<24>;

impl<'a, const NUM_PRIMES: usize> DenomRef<DenomArray<NUM_PRIMES>> for &'a DenomArray<NUM_PRIMES> {

}

/// The value of an optional remainder: one when there is none.
pub open spec fn opt_value(r: Option<Natural>) -> nat {
    match r {
        Some(x) => x@,
        None => 1,
    }
}

/// The largest of two counts.
pub open spec fn max_u8(a: u8, b: u8) -> u8 {
    if a < b {
        b
    } else {
        a
    }
}

/// Computes `prime.pow(exponent)` and multiplies it into the accumulated
/// `(numerator, tmp)`.
pub(crate) fn accum_pow(numerator: &mut Integer, tmp: &mut usize, prime: usize, exponent: u16)
    requires
        prime >= 2,
        *old(tmp) >= 1,
    ensures
        *final(tmp) >= 1,
        final(numerator)@ * *final(tmp) == old(numerator)@ * *old(tmp) * pow(
            prime as int,
            exponent as nat,
        ),
{
    let ghost n0 = numerator@;
    let ghost t0 = *tmp as int;
    proof {
        lemma_pow0(prime as int);
    }
    let mut k: u16 = 0;
    while k < exponent
        invariant
            0 <= k <= exponent,
            prime >= 2,
            *tmp >= 1,
            numerator@ * *tmp == n0 * t0 * pow(prime as int, k as nat),
        decreases exponent - k,
    {
        proof {
            lemma_pow_adds(prime as int, k as nat, 1);
            lemma_pow1(prime as int);
        }
        let ghost nb = numerator@;
        let ghost tb = *tmp as int;
        match tmp.checked_mul(prime) {
            Some(prod) => {
                *tmp = prod;
                proof {
                    assert(nb * (tb * prime) == nb * tb * prime) by (nonlinear_arith);
                    assert(tb * prime >= 1) by (nonlinear_arith)
                        requires
                            tb >= 1,
                            prime >= 2,
                    ;
                }
            },
            None => {
                *numerator = numerator.mul_natural(&Natural::from_u128(*tmp as u128));
                *tmp = prime;
            },
        }
        proof {
            assert(numerator@ * *tmp == nb * tb * prime);
            assert(n0 * t0 * pow(prime as int, (k + 1) as nat) == nb * tb * prime) by (nonlinear_arith)
                requires
                    nb * tb == n0 * t0 * pow(prime as int, k as nat),
                    pow(prime as int, (k + 1) as nat) == pow(prime as int, k as nat) * prime,
            ;
        }
        k = k + 1;
    }
}

/// Computes `prime.pow(exponent)` and multiplies it into the accumulated
/// natural `(result, tmp)`.
pub(crate) fn accum_pow_natural(result: &mut Natural, tmp: &mut usize, prime: usize, exponent: u16)
    requires
        prime >= 2,
        *old(tmp) >= 1,
    ensures
        *final(tmp) >= 1,
        final(result)@ * *final(tmp) == old(result)@ * *old(tmp) * pow(
            prime as int,
            exponent as nat,
        ),
{
    let ghost n0 = result@;
    let ghost t0 = *tmp as int;
    proof {
        lemma_pow0(prime as int);
    }
    let mut k: u16 = 0;
    while k < exponent
        invariant
            0 <= k <= exponent,
            prime >= 2,
            *tmp >= 1,
            result@ * *tmp == n0 * t0 * pow(prime as int, k as nat),
        decreases exponent - k,
    {
        proof {
            lemma_pow_adds(prime as int, k as nat, 1);
            lemma_pow1(prime as int);
        }
        let ghost nb = result@;
        let ghost tb = *tmp as int;
        match tmp.checked_mul(prime) {
            Some(prod) => {
                *tmp = prod;
                proof {
                    assert(nb * (tb * prime) == nb * tb * prime) by (nonlinear_arith);
                    assert(tb * prime >= 1) by (nonlinear_arith)
                        requires
                            tb >= 1,
                            prime >= 2,
                    ;
                }
            },
            None => {
                *result = result.mul(&Natural::from_u128(*tmp as u128));
                *tmp = prime;
            },
        }
        proof {
            assert(result@ * *tmp == nb * tb * prime);
            assert(n0 * t0 * pow(prime as int, (k + 1) as nat) == nb * tb * prime) by (nonlinear_arith)
                requires
                    nb * tb == n0 * t0 * pow(prime as int, k as nat),
                    pow(prime as int, (k + 1) as nat) == pow(prime as int, k as nat) * prime,
            ;
        }
        k = k + 1;
    }
}

/// The prefix of counts of length `i + 1` extends that of length `i`.
proof fn lemma_exps_take(s: Seq<u8>, i: int)
    requires
        0 <= i < s.len(),
    ensures
        exps(s.take(i + 1)) == exps(s.take(i)).push(s[i] as nat),
        exps(s.take(i + 1)).len() == i + 1,
{
    assert(s.take(i + 1) =~= s.take(i).push(s[i]));
    lemma_exps_push(s.take(i), s[i]);
}


/// A product of powers of basis primes with all exponents zero is one.
proof fn lemma_basis_product_zero(e: Seq<nat>)
    requires
        forall|i: int| 0 <= i < e.len() ==> #[trigger] e[i] == 0,
    ensures
        basis_product(e) == 1,
    decreases e.len(),
{
    if e.len() > 0 {
        lemma_basis_product_zero(e.drop_last());
        lemma_pow0(basis_prime((e.len() - 1) as nat) as int);
        assert(e.last() == e[e.len() - 1]);
        assert(e.last() == 0);
        assert(basis_product(e.drop_last()) == 1);
        assert(pow(basis_prime((e.len() - 1) as nat) as int, e.last()) == 1);
        assert(basis_product(e) == basis_product(e.drop_last()) * pow(
            basis_prime((e.len() - 1) as nat) as int,
            e.last(),
        ) as nat);
    }
}

/// The exponents of a sequence of counts, read pointwise.
proof fn lemma_exps_index(s: Seq<u8>)
    ensures
        exps(s).len() == s.len(),
        forall|i: int| 0 <= i < s.len() ==> #[trigger] exps(s)[i] == s[i] as nat,
{
}

/// `2^k` is a power of the first basis prime.
pub(crate) proof fn lemma_pow2_basis(k: nat)
    ensures
        vstd::arithmetic::power2::pow2(k) == pow(basis_prime(0) as int, k),
        vstd::arithmetic::power2::pow2(k) >= 1,
{
    vstd::arithmetic::power2::lemma_pow2(k);
    vstd::arithmetic::power2::lemma_pow2_pos(k);
}

/// A product of two positive numbers, one at least two, is at least two.
pub(crate) proof fn lemma_mul_at_least_two(a: int, b: int)
    requires
        a >= 1,
        b >= 2,
    ensures
        a * b >= 2,
        b * a >= 2,
{
    assert(a * b >= 2) by (nonlinear_arith)
        requires
            a >= 1,
            b >= 2,
    ;
}

/// A positive power of a basis prime is at least two.
proof fn lemma_basis_pow_at_least_two(i: nat, e: nat)
    requires
        e >= 1,
    ensures
        pow(basis_prime(i) as int, e) >= 2,
{
    lemma_basis_prime(i, i);
    lemma_pow_positive(basis_prime(i) as int, (e - 1) as nat);
    lemma_pow_adds(basis_prime(i) as int, (e - 1) as nat, 1);
    lemma_pow1(basis_prime(i) as int);
    lemma_mul_at_least_two(pow(basis_prime(i) as int, (e - 1) as nat), basis_prime(i) as int);
}


/// A number that `q` doesn't divide has no factor that `q` divides.
pub(crate) proof fn lemma_not_divides_factor(nb: int, n: int, p: int, q: int)
    requires
        nb == n * p,
        nb % q != 0,
        q > 0,
    ensures
        n % q != 0,
{
    if n % q == 0 {
        lemma_fundamental_div_mod(n, q);
        assert(nb == q * ((n / q) * p)) by (nonlinear_arith)
            requires
                nb == n * p,
                n == q * (n / q) + 0,
        ;
        lemma_mod_multiples_basic((n / q) * p, q);
        lemma_mul_is_commutative(q, (n / q) * p);
    }
}

/// An odd number that doesn't divide `y` doesn't divide `2 * y`.
pub(crate) proof fn lemma_odd_not_divides_double(y: nat, p: nat)
    requires
        p % 2 == 1,
        y % p != 0,
    ensures
        (2 * y) % p != 0,
{
    if (2 * y) % p == 0 {
        lemma_fundamental_div_mod((2 * y) as int, p as int);
        let m = (2 * y) / p;
        lemma_fundamental_div_mod(m as int, 2);
        lemma_fundamental_div_mod(p as int, 2);
        if m % 2 == 0 {
            assert(y == p * (m / 2)) by (nonlinear_arith)
                requires
                    2 * y == p * m,
                    m == 2 * (m / 2),
            ;
            lemma_mod_multiples_basic((m / 2) as int, p as int);
            lemma_mul_is_commutative(p as int, (m / 2) as int);
        } else {
            let a = p / 2;
            let b = m / 2;
            assert(p * m == 2 * (2 * a * b + a + b) + 1) by (nonlinear_arith)
                requires
                    m == 2 * b + 1,
                    p == 2 * a + 1,
            ;
            assert(2 * y == 2 * (2 * a * b + a + b) + 1);
        }
    }
}

/// An odd number that doesn't divide `y` doesn't divide `y * 2^k`.
pub(crate) proof fn lemma_odd_not_divides_shifted(y: nat, k: nat, p: nat)
    requires
        p % 2 == 1,
        y % p != 0,
    ensures
        (y * vstd::arithmetic::power2::pow2(k)) % p != 0,
    decreases k,
{
    vstd::arithmetic::power2::lemma_pow2(0);
    if k == 0 {
        lemma_pow0(2);
    } else {
        lemma_odd_not_divides_shifted(y, (k - 1) as nat, p);
        vstd::arithmetic::power2::lemma_pow2_unfold(k);
        let t = vstd::arithmetic::power2::pow2((k - 1) as nat);
        assert(y * (2 * t) == 2 * (y * t)) by (nonlinear_arith);
        lemma_odd_not_divides_double((y * t) as nat, p);
    }
}

/// No number above one divides one or minus one.
pub(crate) proof fn lemma_unit_not_divisible(n: int, q: int)
    requires
        abs(n) == 1,
        q >= 2,
    ensures
        n % q != 0,
{
    if n == 1 {
        lemma_small_mod(1, q as nat);
    } else {
        lemma_fundamental_div_mod_converse(-1, q, -1, q - 1);
    }
}


/// A positive power of a number above one is above one.
pub(crate) proof fn lemma_pow_at_least_two(x: nat, e: nat)
    requires
        x >= 2,
        e >= 1,
    ensures
        pow(x as int, e) >= 2,
{
    lemma_pow_positive(x as int, (e - 1) as nat);
    lemma_pow_adds(x as int, (e - 1) as nat, 1);
    lemma_pow1(x as int);
    lemma_mul_at_least_two(pow(x as int, (e - 1) as nat), x as int);
}


/// A power of two at most a 128-bit integer has an exponent below 128.
pub(crate) proof fn lemma_small_power_of_two(k: nat, x: nat)
    requires
        pow(2, k) <= x,
        x <= u128::MAX,
    ensures
        k < 128,
{
    vstd::arithmetic::power2::lemma2_to64();
    vstd::arithmetic::power2::lemma_pow2_adds(64, 64);
    vstd::arithmetic::power2::lemma_pow2(k);
    vstd::arithmetic::power2::lemma_pow2(128);
    if k >= 128 {
        if k > 128 {
            vstd::arithmetic::power2::lemma_pow2_strictly_increases(128, k);
        }
    }
}

impl<const NUM_PRIMES: usize> DenomArray<NUM_PRIMES> {
    /// The counts of each basis prime.
    pub closed spec fn counts(&self) -> Seq<u8> {
        self.primes@
    }

    /// The remainder, if any.
    pub closed spec fn remainder_opt(&self) -> Option<Natural> {
        self.remainder
    }

    /// The value of the remainder: one when there is none.
    pub open spec fn remainder_value(&self) -> nat {
        opt_value(self.remainder_opt())
    }

    /// The product of the powers of the basis primes.
    pub open spec fn primes_value(&self) -> nat {
        basis_product(exps(self.counts()))
    }

    /// One count per basis prime, a supported number of basis primes, and a
    /// remainder, when there is one, above one.
    pub open spec fn well_formed(&self) -> bool {
        &&& 1 <= NUM_PRIMES <= MAX_BASIS_PRIMES
        &&& self.counts().len() == NUM_PRIMES
        &&& self.remainder_opt() matches Some(r) ==> r@ >= 2
    }


    /// Each basis prime whose count has not saturated has been divided out of
    /// the remainder as often as it goes: with the value, this fixes every
    /// count at the prime's multiplicity, capped at 255.
    pub open spec fn canonical(&self) -> bool {
        forall|i: int|
            0 <= i < NUM_PRIMES && #[trigger] self.counts()[i] < 255 ==> self.remainder_value()
                % basis_prime(i as nat) != 0
    }

    /// The zeroth power of any denominator is the empty one: every count
    /// zero, no remainder, and a value of one.
    pub proof fn law_power_zero(a: &Self, r: &Self)
        requires
            a.wf(),
            r.wf(),
            r.is_power_of(a, 0),
        ensures
            forall|i: int| 0 <= i < NUM_PRIMES ==> #[trigger] r.counts()[i] == 0,
            r.remainder_opt() is None,
            r.denom_value() == 1,
    {
        lemma_exps_index(r.counts());
        lemma_basis_product_zero(exps(r.counts()));
    }

    /// Counts of zero for each basis prime.
    fn zero_counts() -> (v: Vec<u8>)
        requires
            NUM_PRIMES <= MAX_BASIS_PRIMES,
        ensures
            v.len() == NUM_PRIMES,
            forall|i: int| 0 <= i < v.len() ==> v[i] == 0,
            basis_product(exps(v@)) == 1,
    {
        let mut v: Vec<u8> = Vec::new();
        let mut i: usize = 0;
        while i < NUM_PRIMES
            invariant
                i <= NUM_PRIMES,
                v.len() == i,
                forall|j: int| 0 <= j < v.len() ==> v[j] == 0,
            decreases NUM_PRIMES - i,
        {
            v.push(0);
            i = i + 1;
        }
        proof {
            lemma_exps_index(v@);
            lemma_basis_product_zero(exps(v@));
        }
        v
    }

    /// Multiplies the counts of two denominators: each sum of counts that
    /// doesn't fit in a byte saturates it, and the excess power of the prime
    /// multiplies the remainder.
    fn mul_primes(lhs: &Vec<u8>, rhs: &Vec<u8>, remainder: &mut Option<Natural>) -> (primes: Vec<u8>)
        requires
            lhs.len() == NUM_PRIMES,
            rhs.len() == NUM_PRIMES,
            NUM_PRIMES <= MAX_BASIS_PRIMES,
            *old(remainder) matches Some(r) ==> r@ >= 2,
        ensures
            primes.len() == NUM_PRIMES,
            forall|i: int| 0 <= i < NUM_PRIMES ==> #[trigger] primes[i] as int == if lhs[i] + rhs[i] <= 255 {
                lhs[i] + rhs[i]
            } else {
                255
            },
            *final(remainder) matches Some(r) ==> r@ >= 2,
            *old(remainder) is Some ==> *final(remainder) is Some,
            basis_product(exps(primes@)) * opt_value(*final(remainder)) == basis_product(
                exps(lhs@),
            ) * basis_product(exps(rhs@)) * opt_value(*old(remainder)),
    {
        let mut primes: Vec<u8> = Vec::new();
        let ghost rem0 = opt_value(*remainder);
        let ghost was_some = *remainder is Some;
        let ghost mut excess: Seq<nat> = Seq::empty();
        let mut p: usize = 2;
        let mut i: usize = 0;
        proof {
            assert(exps(lhs@.take(0)) =~= Seq::<nat>::empty());
            assert(exps(rhs@.take(0)) =~= Seq::<nat>::empty());
        }
        while i < NUM_PRIMES
            invariant
                lhs.len() == NUM_PRIMES,
                rhs.len() == NUM_PRIMES,
                NUM_PRIMES <= MAX_BASIS_PRIMES,
                i <= NUM_PRIMES,
                i < NUM_PRIMES ==> p == basis_prime(i as nat),
                primes.len() == i,
                excess.len() == i,
                forall|j: int| 0 <= j < i ==> #[trigger] primes[j] as int == if lhs[j] + rhs[j] <= 255 {
                    lhs[j] + rhs[j]
                } else {
                    255
                },
                forall|j: int| 0 <= j < i ==> #[trigger] excess[j] == lhs[j] + rhs[j] - primes[j],
                *remainder matches Some(r) ==> r@ >= 2,
                was_some ==> *remainder is Some,
                opt_value(*remainder) == rem0 * basis_product(excess),
            decreases NUM_PRIMES - i,
        {
            proof {
                lemma_basis_prime(i as nat, i as nat);
                lemma_basis_product_push(excess, 0);
                lemma_basis_product_pos(excess);
            }
            let sum = lhs[i] as u32 + rhs[i] as u32;
            if sum <= 255 {
                primes.push(sum as u8);
                proof {
                    lemma_pow0(p as int);
                    excess = excess.push(0);
                }
            } else {
                primes.push(255);
                let factor = Natural::from_u128(p as u128).pow(sum - 255);
                let ghost old_excess = excess;
                proof {
                    lemma_basis_product_push(excess, (sum - 255) as nat);
                    lemma_basis_pow_at_least_two(i as nat, (sum - 255) as nat);
                    excess = excess.push((sum - 255) as nat);
                }
                let ghost before = opt_value(*remainder);
                *remainder = match remainder {
                    None => Some(factor),
                    Some(r) => Some(r.mul(&factor)),
                };
                proof {
                    let b = basis_product(old_excess) as int;
                    let f = factor@ as int;
                    assert(rem0 * (b * f) == rem0 * b * f) by (nonlinear_arith);
                    if before >= 2 {
                        lemma_mul_at_least_two(f, before as int);
                    }
                    assert(opt_value(*remainder) == before * f);
                    assert(basis_product(excess) == b * f);
                }
            }
            if i + 1 < NUM_PRIMES {
                p = next_basis_prime(i, p);
            }
            i = i + 1;
        }
        proof {
            let sums = Seq::new(NUM_PRIMES as nat, |j: int| lhs[j] as nat + rhs[j] as nat);
            lemma_exps_index(primes@);
            lemma_exps_index(lhs@);
            lemma_exps_index(rhs@);
            lemma_basis_product_add(exps(primes@), excess, sums);
            lemma_basis_product_add(exps(lhs@), exps(rhs@), sums);
            let a = basis_product(exps(primes@)) as int;
            let e = basis_product(excess) as int;
            assert(a * (rem0 * e) == a * e * rem0) by (nonlinear_arith);
        }
        primes
    }

    /// Raises the counts to the power `exponent`: each product that doesn't
    /// fit in a byte saturates it, and the excess power of the prime
    /// multiplies the remainder.
    fn pow_primes(this: &Vec<u8>, exponent: u32, remainder: &mut Option<Natural>) -> (primes: Vec<u8>)
        requires
            this.len() == NUM_PRIMES,
            NUM_PRIMES <= MAX_BASIS_PRIMES,
            forall|i: int| 0 <= i < NUM_PRIMES ==> this[i] * exponent <= u32::MAX,
            *old(remainder) matches Some(r) ==> r@ >= 2,
        ensures
            primes.len() == NUM_PRIMES,
            forall|i: int| 0 <= i < NUM_PRIMES ==> #[trigger] primes[i] as int == if this[i] * exponent <= 255 {
                this[i] * exponent
            } else {
                255
            },
            *final(remainder) matches Some(r) ==> r@ >= 2,
            *old(remainder) is Some ==> *final(remainder) is Some,
            basis_product(exps(primes@)) * opt_value(*final(remainder)) == pow(
                basis_product(exps(this@)) as int,
                exponent as nat,
            ) * opt_value(*old(remainder)),
    {
        let mut primes: Vec<u8> = Vec::new();
        let ghost rem0 = opt_value(*remainder);
        let ghost was_some = *remainder is Some;
        let ghost mut excess: Seq<nat> = Seq::empty();
        let mut p: usize = 2;
        let mut i: usize = 0;
        while i < NUM_PRIMES
            invariant
                this.len() == NUM_PRIMES,
                NUM_PRIMES <= MAX_BASIS_PRIMES,
                forall|j: int| 0 <= j < NUM_PRIMES ==> this[j] * exponent <= u32::MAX,
                i <= NUM_PRIMES,
                i < NUM_PRIMES ==> p == basis_prime(i as nat),
                primes.len() == i,
                excess.len() == i,
                forall|j: int| 0 <= j < i ==> #[trigger] primes[j] as int == if this[j] * exponent <= 255 {
                    this[j] * exponent
                } else {
                    255
                },
                forall|j: int| 0 <= j < i ==> #[trigger] excess[j] == this[j] * exponent - primes[j],
                *remainder matches Some(r) ==> r@ >= 2,
                was_some ==> *remainder is Some,
                opt_value(*remainder) == rem0 * basis_product(excess),
            decreases NUM_PRIMES - i,
        {
            proof {
                lemma_basis_prime(i as nat, i as nat);
                lemma_basis_product_push(excess, 0);
                lemma_basis_product_pos(excess);
            }
            let product = (this[i] as u32) * exponent;
            if product <= 255 {
                primes.push(product as u8);
                proof {
                    lemma_pow0(p as int);
                    excess = excess.push(0);
                }
            } else {
                primes.push(255);
                let factor = Natural::from_u128(p as u128).pow(product - 255);
                let ghost old_excess = excess;
                proof {
                    lemma_basis_product_push(excess, (product - 255) as nat);
                    lemma_basis_pow_at_least_two(i as nat, (product - 255) as nat);
                    excess = excess.push((product - 255) as nat);
                }
                let ghost before = opt_value(*remainder);
                *remainder = match remainder {
                    None => Some(factor),
                    Some(r) => Some(r.mul(&factor)),
                };
                proof {
                    let b = basis_product(old_excess) as int;
                    let f = factor@ as int;
                    assert(rem0 * (b * f) == rem0 * b * f) by (nonlinear_arith);
                    if before >= 2 {
                        lemma_mul_at_least_two(f, before as int);
                    }
                    assert(opt_value(*remainder) == before * f);
                    assert(basis_product(excess) == b * f);
                }
            }
            if i + 1 < NUM_PRIMES {
                p = next_basis_prime(i, p);
            }
            i = i + 1;
        }
        proof {
            let scaled = Seq::new(NUM_PRIMES as nat, |j: int| this[j] as nat * exponent as nat);
            lemma_exps_index(primes@);
            lemma_exps_index(this@);
            lemma_basis_product_add(exps(primes@), excess, scaled);
            lemma_basis_product_scale(exps(this@), exponent as nat, scaled);
            let a = basis_product(exps(primes@)) as int;
            let e = basis_product(excess) as int;
            assert(a * (rem0 * e) == a * e * rem0) by (nonlinear_arith);
        }
        primes
    }


    /// Decomposes a positive natural: the power of two first, then the odd
    /// basis primes while they divide it (up to a count of 255 each), the
    /// rest being the remainder.
    #[verifier::spinoff_prover]
    fn decompose_natural(x: &Natural) -> (r: Self)
        requires
            1 <= NUM_PRIMES <= MAX_BASIS_PRIMES,
            x@ > 0,
        ensures
            r.wf(),
            r.denom_value() == x@,
            r.canonical(),
    {
        let ghost x0 = x@;
        let mut x = x.copy();
        let mut count2 = x.trailing_zeros();
        let ghost tz = count2;
        let mut c0: u8 = 0;
        proof {
            lemma_pow2_basis(count2 as nat);
            lemma_fundamental_div_mod(x0 as int, vstd::arithmetic::power2::pow2(count2 as nat) as int);
        }
        if count2 != 0 {
            x = x.shr(count2);
            if count2 <= 255 {
                c0 = count2 as u8;
                count2 = 0;
            } else {
                c0 = 255;
                count2 = count2 - 255;
            }
        }
        proof {
            // x0 == 2^c0 * 2^count2 * x, with x odd
            lemma_pow2_basis(c0 as nat);
            lemma_pow2_basis(count2 as nat);
            lemma_pow_adds(2, c0 as nat, count2 as nat);
            vstd::arithmetic::power2::lemma_pow2(count2 as nat);
            vstd::arithmetic::power2::lemma_pow2((c0 + count2) as nat);
            vstd::arithmetic::power2::lemma_pow2(c0 as nat);
            lemma_mul_is_commutative(vstd::arithmetic::power2::pow2(count2 as nat + c0 as nat) as int, x@ as int);
            lemma_pow0(2);
            if tz == 0 {
                vstd::arithmetic::power2::lemma2_to64();
                vstd::arithmetic::div_mod::lemma_div_basics(x0 as int);
            }
            assert(x@ == x0 / vstd::arithmetic::power2::pow2(tz as nat));
            assert(x@ % 2 == 1);
        }
        let mut primes: Vec<u8> = Vec::new();
        primes.push(c0);
        let ghost t = vstd::arithmetic::power2::pow2(count2 as nat);
        proof {
            assert(exps(Seq::<u8>::empty()) =~= Seq::<nat>::empty());
            lemma_exps_push(Seq::empty(), c0);
            assert(Seq::<u8>::empty().push(c0) =~= primes@);
            lemma_basis_product_push(Seq::empty(), c0 as nat);
            assert(x0 == basis_product(exps(primes@)) * t * x@) by (nonlinear_arith)
                requires
                    x0 == pow(2, c0 as nat) * t * x@,
                    basis_product(exps(primes@)) == 1 * pow(2, c0 as nat),
            ;
            assert(x@ >= 1) by (nonlinear_arith)
                requires
                    x0 == basis_product(exps(primes@)) * t * x@,
                    x0 > 0,
            ;
        }
        let mut done = false;
        let mut p: usize = 3;
        let mut i: usize = 1;
        while i < NUM_PRIMES
            invariant
                1 <= i <= NUM_PRIMES <= MAX_BASIS_PRIMES,
                i < NUM_PRIMES ==> p == basis_prime(i as nat),
                primes.len() == i,
                x@ >= 1,
                t >= 1,
                x0 == basis_product(exps(primes@)) * t * x@,
                done ==> x@ == 1,
                t == vstd::arithmetic::power2::pow2(count2 as nat),
                primes[0] == c0,
                c0 < 255 ==> count2 == 0,
                x@ % 2 == 1,
                forall|j: int|
                    1 <= j < i && #[trigger] primes[j] < 255 ==> x@ % basis_prime(j as nat) != 0,
            decreases NUM_PRIMES - i,
        {
            proof {
                lemma_basis_prime(i as nat, i as nat);
            }
            let mut count: u8 = 0;
            let ghost xs = x@;
            proof {
                lemma_pow0(p as int);
            }
            if !done {
                let bigp = Natural::from_u128(p as u128);
                while count != 255
                    invariant
                        p >= 2,
                        bigp@ == p,
                        x@ >= 1,
                        xs == x@ * pow(p as int, count as nat),
                        done ==> x@ == 1,
                        primes.len() == i,
                        x@ % 2 == 1,
                        forall|j: int|
                            1 <= j < i && #[trigger] primes[j] < 255 ==> x@ % basis_prime(j as nat) != 0,
                    ensures
                        x@ >= 1,
                        xs == x@ * pow(p as int, count as nat),
                        done ==> x@ == 1,
                        x@ % 2 == 1,
                        forall|j: int|
                            1 <= j < i && #[trigger] primes[j] < 255 ==> x@ % basis_prime(j as nat) != 0,
                        x@ == 1 || count == 255 || x@ % (p as nat) != 0,
                    decreases 255 - count,
                {
                    let (quo, rem) = x.div_rem(&bigp);
                    if !rem.is_zero() {
                        break;
                    }
                    proof {
                        lemma_fundamental_div_mod(x@ as int, p as int);
                        lemma_pow_adds(p as int, count as nat, 1);
                        lemma_pow1(p as int);
                        assert(xs == quo@ * pow(p as int, (count + 1) as nat)) by (nonlinear_arith)
                            requires
                                xs == x@ * pow(p as int, count as nat),
                                x@ == p * quo@,
                                pow(p as int, (count + 1) as nat) == pow(p as int, count as nat) * p,
                        ;
                        assert(quo@ >= 1) by (nonlinear_arith)
                            requires
                                x@ == p * quo@,
                                x@ >= 1,
                        ;
                        lemma_mul_is_commutative(p as int, quo@ as int);
                        lemma_not_divides_factor(x@ as int, quo@ as int, p as int, 2);
                        assert forall|j: int|
                            1 <= j < i && #[trigger] primes[j] < 255 implies quo@ % basis_prime(
                                j as nat,
                            ) != 0 by {
                            lemma_basis_prime(j as nat, j as nat);
                            lemma_not_divides_factor(
                                x@ as int,
                                quo@ as int,
                                p as int,
                                basis_prime(j as nat) as int,
                            );
                        }
                    }
                    x = quo;
                    count = count + 1;
                    if x.is_one() {
                        done = true;
                        break;
                    }
                }
            }
            let ghost before = primes@;
            proof {
                if x@ == 1 {
                    vstd::arithmetic::div_mod::lemma_small_mod(1, p as nat);
                }
            }
            primes.push(count);
            proof {
                assert forall|j: int|
                    1 <= j < i + 1 && #[trigger] primes[j] < 255 implies x@ % basis_prime(
                        j as nat,
                    ) != 0 by {
                    if j < i {
                        assert(primes[j] == before[j]);
                    }
                }
                lemma_exps_push(before, count);
                lemma_basis_product_push(exps(before), count as nat);
                let b = basis_product(exps(before)) as int;
                let y = pow(p as int, count as nat);
                assert(x0 == (b * y) * t * x@) by (nonlinear_arith)
                    requires
                        x0 == b * t * xs,
                        xs == x@ * y,
                ;
            }
            if i + 1 < NUM_PRIMES {
                p = next_basis_prime(i, p);
            }
            i = i + 1;
        }
        let one = x.is_one();
        let remainder = if one && count2 == 0 {
            None
        } else {
            Some(x.shl(count2))
        };
        proof {
            lemma_pow2_basis(count2 as nat);
            if count2 > 0 {
                vstd::arithmetic::power2::lemma_pow2_strictly_increases(0, count2 as nat);
                vstd::arithmetic::power2::lemma2_to64();
            }
            if !(one && count2 == 0) {
                if x@ >= 2 {
                    lemma_mul_at_least_two(t as int, x@ as int);
                } else {
                    lemma_mul_at_least_two(x@ as int, t as int);
                }
            }
            let b = basis_product(exps(primes@)) as int;
            assert(x0 == b * (x@ * t)) by (nonlinear_arith)
                requires
                    x0 == b * t * x@,
            ;
        }
        let r = DenomArray { primes, remainder };
        proof {
            assert forall|i: int|
                0 <= i < NUM_PRIMES && #[trigger] r.counts()[i] < 255 implies r.remainder_value()
                    % basis_prime(i as nat) != 0 by {
                lemma_basis_prime(i as nat, i as nat);
                if r.remainder_value() == 1 {
                    vstd::arithmetic::div_mod::lemma_small_mod(1, basis_prime(i as nat));
                } else if i == 0 {
                    vstd::arithmetic::power2::lemma2_to64();
                    assert(r.remainder_value() == x@ * 1);
                } else {
                    lemma_odd_prime_bounds((i - 1) as nat);
                    lemma_odd_not_divides_shifted(x@, count2 as nat, basis_prime(i as nat));
                }
            }
        }
        r
    }

    /// Decomposes a positive 128-bit integer, as `decompose_natural` does.
    fn decompose_u128(x: u128) -> (r: Self)
        requires
            1 <= NUM_PRIMES <= MAX_BASIS_PRIMES,
            x > 0,
        ensures
            r.wf(),
            r.denom_value() == x,
            r.canonical(),
    {
        let ghost x0 = x as nat;
        let mut x = x;
        let mut count2: u8 = 0;
        proof {
            lemma_pow0(2);
        }
        while x % 2 == 0
            invariant
                x >= 1,
                x0 == pow(2, count2 as nat) * x,
                count2 < 128,
                pow(2, count2 as nat) >= 1,
                x0 <= u128::MAX,
            decreases x,
        {
            proof {
                lemma_pow_adds(2, count2 as nat, 1);
                lemma_pow1(2);
                lemma_fundamental_div_mod(x as int, 2);
                assert(pow(2, (count2 + 1) as nat) <= x0) by (nonlinear_arith)
                    requires
                        x0 == pow(2, count2 as nat) * x,
                        x >= 2,
                        pow(2, (count2 + 1) as nat) == pow(2, count2 as nat) * 2,
                        pow(2, count2 as nat) >= 1,
                ;
                lemma_small_power_of_two((count2 + 1) as nat, x0);
                assert(x0 == pow(2, (count2 + 1) as nat) * (x / 2)) by (nonlinear_arith)
                    requires
                        x0 == pow(2, count2 as nat) * x,
                        x == 2 * (x / 2),
                        pow(2, (count2 + 1) as nat) == pow(2, count2 as nat) * 2,
                ;
            }
            x = x / 2;
            count2 = count2 + 1;
        }
        let mut primes: Vec<u8> = Vec::new();
        primes.push(count2);
        proof {
            assert(exps(Seq::<u8>::empty()) =~= Seq::<nat>::empty());
            lemma_exps_push(Seq::empty(), count2);
            assert(Seq::<u8>::empty().push(count2) =~= primes@);
            lemma_basis_product_push(Seq::empty(), count2 as nat);
            assert(exps(primes@) == Seq::<nat>::empty().push(count2 as nat));
            lemma_pow_positive(2, count2 as nat);
            assert(basis_product(exps(primes@)) == 1 * pow(2, count2 as nat));
        }
        let mut done = false;
        let mut p: usize = 3;
        let mut i: usize = 1;
        while i < NUM_PRIMES
            invariant
                1 <= i <= NUM_PRIMES <= MAX_BASIS_PRIMES,
                i < NUM_PRIMES ==> p == basis_prime(i as nat),
                primes.len() == i,
                x >= 1,
                x0 == basis_product(exps(primes@)) * x,
                done ==> x == 1,
                primes[0] == count2,
                count2 < 128,
                x % 2 == 1,
                forall|j: int|
                    1 <= j < i && #[trigger] primes[j] < 255 ==> (x as nat) % basis_prime(j as nat)
                        != 0,
            decreases NUM_PRIMES - i,
        {
            proof {
                lemma_basis_prime(i as nat, i as nat);
            }
            let mut count: u8 = 0;
            let ghost xs = x;
            proof {
                lemma_pow0(p as int);
            }
            if !done {
                let bigp = p as u128;
                while count != 255
                    invariant
                        p >= 2,
                        bigp == p,
                        x >= 1,
                        xs == x * pow(p as int, count as nat),
                        done ==> x == 1,
                        primes.len() == i,
                        x % 2 == 1,
                        forall|j: int|
                            1 <= j < i && #[trigger] primes[j] < 255 ==> (x as nat) % basis_prime(
                                j as nat,
                            ) != 0,
                    ensures
                        x >= 1,
                        xs == x * pow(p as int, count as nat),
                        done ==> x == 1,
                        x % 2 == 1,
                        forall|j: int|
                            1 <= j < i && #[trigger] primes[j] < 255 ==> (x as nat) % basis_prime(
                                j as nat,
                            ) != 0,
                        x == 1 || count == 255 || (x as nat) % (p as nat) != 0,
                    decreases 255 - count,
                {
                    if x % bigp != 0 {
                        break;
                    }
                    proof {
                        lemma_fundamental_div_mod(x as int, p as int);
                        lemma_pow_adds(p as int, count as nat, 1);
                        lemma_pow1(p as int);
                        assert(xs == (x / bigp) * pow(p as int, (count + 1) as nat)) by (nonlinear_arith)
                            requires
                                xs == x * pow(p as int, count as nat),
                                x == p * (x / bigp),
                                pow(p as int, (count + 1) as nat) == pow(p as int, count as nat) * p,
                        ;
                        assert(x / bigp >= 1) by (nonlinear_arith)
                            requires
                                x == p * (x / bigp),
                                x >= 1,
                        ;
                        let q = (x / bigp) as int;
                        lemma_mul_is_commutative(p as int, q);
                        lemma_not_divides_factor(x as int, q, p as int, 2);
                        assert forall|j: int|
                            1 <= j < i && #[trigger] primes[j] < 255 implies (q as nat) % basis_prime(
                                j as nat,
                            ) != 0 by {
                            lemma_basis_prime(j as nat, j as nat);
                            lemma_not_divides_factor(x as int, q, p as int, basis_prime(j as nat) as int);
                        }
                    }
                    x = x / bigp;
                    count = count + 1;
                    if x == 1 {
                        done = true;
                        break;
                    }
                }
            }
            let ghost before = primes@;
            proof {
                if x == 1 {
                    vstd::arithmetic::div_mod::lemma_small_mod(1, p as nat);
                }
            }
            primes.push(count);
            proof {
                assert forall|j: int|
                    1 <= j < i + 1 && #[trigger] primes[j] < 255 implies (x as nat) % basis_prime(
                        j as nat,
                    ) != 0 by {
                    if j < i {
                        assert(primes[j] == before[j]);
                    }
                }
                lemma_exps_push(before, count);
                lemma_basis_product_push(exps(before), count as nat);
                let b = basis_product(exps(before)) as int;
                let y = pow(p as int, count as nat);
                assert(x0 == (b * y) * x) by (nonlinear_arith)
                    requires
                        x0 == b * xs,
                        xs == x * y,
                ;
            }
            if i + 1 < NUM_PRIMES {
                p = next_basis_prime(i, p);
            }
            i = i + 1;
        }
        let remainder = if x == 1 {
            None
        } else {
            Some(Natural::from_u128(x))
        };
        let r = DenomArray { primes, remainder };
        proof {
            assert(r.remainder_value() == x);
            assert forall|i: int|
                0 <= i < NUM_PRIMES && #[trigger] r.counts()[i] < 255 implies r.remainder_value()
                    % basis_prime(i as nat) != 0 by {
                lemma_basis_prime(i as nat, i as nat);
                if x == 1 {
                    vstd::arithmetic::div_mod::lemma_small_mod(1, basis_prime(i as nat));
                }
            }
        }
        r
    }

    /// The denominator of a positive 8-bit integer.
    pub fn from_u8(value: u8) -> (r: Self)
        requires
            1 <= NUM_PRIMES <= MAX_BASIS_PRIMES,
            value > 0,
        ensures
            r.wf(),
            r.denom_value() == value,
            r.canonical(),
    {
        Self::decompose_u128(value as u128)
    }

    /// The denominator of a positive 16-bit integer.
    pub fn from_u16(value: u16) -> (r: Self)
        requires
            1 <= NUM_PRIMES <= MAX_BASIS_PRIMES,
            value > 0,
        ensures
            r.wf(),
            r.denom_value() == value,
            r.canonical(),
    {
        Self::decompose_u128(value as u128)
    }

    /// The denominator of a positive 32-bit integer.
    pub fn from_u32(value: u32) -> (r: Self)
        requires
            1 <= NUM_PRIMES <= MAX_BASIS_PRIMES,
            value > 0,
        ensures
            r.wf(),
            r.denom_value() == value,
            r.canonical(),
    {
        Self::decompose_u128(value as u128)
    }

    /// The denominator of a positive 64-bit integer.
    pub fn from_u64(value: u64) -> (r: Self)
        requires
            1 <= NUM_PRIMES <= MAX_BASIS_PRIMES,
            value > 0,
        ensures
            r.wf(),
            r.denom_value() == value,
            r.canonical(),
    {
        Self::decompose_u128(value as u128)
    }

    /// The denominator of a positive 128-bit integer.
    pub fn from_u128(value: u128) -> (r: Self)
        requires
            1 <= NUM_PRIMES <= MAX_BASIS_PRIMES,
            value > 0,
        ensures
            r.wf(),
            r.denom_value() == value,
            r.canonical(),
    {
        Self::decompose_u128(value)
    }

    /// The denominator of a positive machine-sized integer.
    pub fn from_usize(value: usize) -> (r: Self)
        requires
            1 <= NUM_PRIMES <= MAX_BASIS_PRIMES,
            value > 0,
        ensures
            r.wf(),
            r.denom_value() == value,
            r.canonical(),
    {
        Self::decompose_u128(value as u128)
    }

    /// The denominator of a positive big natural.
    pub fn from_biguint(value: &Natural) -> (r: Self)
        requires
            1 <= NUM_PRIMES <= MAX_BASIS_PRIMES,
            value@ > 0,
        ensures
            r.wf(),
            r.denom_value() == value@,
            r.canonical(),
    {
        Self::decompose_natural(value)
    }

    /// The counts of each basis prime (2, 3, 5, ...).
    pub fn primes(&self) -> (r: Vec<u8>)
        ensures
            r@ == self.counts(),
    {
        let mut v: Vec<u8> = Vec::new();
        let mut i: usize = 0;
        while i < self.primes.len()
            invariant
                i <= self.primes.len(),
                v@ == self.primes@.take(i as int),
            decreases self.primes.len() - i,
        {
            v.push(self.primes[i]);
            i = i + 1;
            assert(v@ =~= self.primes@.take(i as int));
        }
        assert(v@ =~= self.primes@);
        v
    }

    /// A copy of the remainder, if any.
    pub fn remainder(&self) -> (r: Option<Natural>)
        ensures
            opt_value(r) == self.remainder_value(),
            r is Some == self.remainder_opt() is Some,
    {
        match &self.remainder {
            Some(x) => Some(x.copy()),
            None => None,
        }
    }
}


/// The powers of basis primes missing from counts `a` to cover counts `b`.
pub open spec fn deficit(a: Seq<u8>, b: Seq<u8>) -> Seq<nat> {
    Seq::new(a.len(), |i: int| if a[i] >= b[i] { 0 } else { (b[i] - a[i]) as nat })
}

impl<const NUM_PRIMES: usize> DenomArray<NUM_PRIMES> {
    /// The divisor's remainder times the powers of basis primes that this
    /// denominator's counts lack: what this denominator's remainder must be a
    /// multiple of for [`div`](DenomArray::div) to succeed.
    pub open spec fn division_remainder(&self, rhs: &Self) -> nat {
        rhs.remainder_value() * basis_product(deficit(self.counts(), rhs.counts()))
    }

    /// Divides counts: where the dividend's count is below the divisor's, the
    /// count is zero and the missing power of the prime multiplies the
    /// remainder. The mask tells which dividend counts are saturated.
    fn div_primes(num: &Vec<u8>, den: &Vec<u8>, remainder: &mut Option<Natural>) -> (r: (
        Vec<u8>,
        Vec<bool>,
    ))
        requires
            num.len() == NUM_PRIMES,
            den.len() == NUM_PRIMES,
            NUM_PRIMES <= MAX_BASIS_PRIMES,
            *old(remainder) matches Some(x) ==> x@ >= 2,
        ensures
            r.0.len() == NUM_PRIMES,
            r.1.len() == NUM_PRIMES,
            forall|i: int| 0 <= i < NUM_PRIMES ==> #[trigger] r.0[i] == if num[i] >= den[i] {
                (num[i] - den[i]) as u8
            } else {
                0u8
            },
            forall|i: int| 0 <= i < NUM_PRIMES ==> #[trigger] r.1[i] == (num[i] == 255),
            *final(remainder) matches Some(x) ==> x@ >= 2,
            opt_value(*final(remainder)) == opt_value(*old(remainder)) * basis_product(
                deficit(num@, den@),
            ),
            basis_product(exps(r.0@)) * basis_product(exps(den@)) == basis_product(exps(num@))
                * basis_product(deficit(num@, den@)),
    {
        let mut primes: Vec<u8> = Vec::new();
        let mut mask: Vec<bool> = Vec::new();
        let ghost rem0 = opt_value(*remainder);
        let ghost mut missing: Seq<nat> = Seq::empty();
        let mut p: usize = 2;
        let mut i: usize = 0;
        while i < NUM_PRIMES
            invariant
                num.len() == NUM_PRIMES,
                den.len() == NUM_PRIMES,
                NUM_PRIMES <= MAX_BASIS_PRIMES,
                i <= NUM_PRIMES,
                i < NUM_PRIMES ==> p == basis_prime(i as nat),
                primes.len() == i,
                mask.len() == i,
                missing.len() == i,
                forall|j: int| 0 <= j < i ==> #[trigger] primes[j] == if num[j] >= den[j] {
                    (num[j] - den[j]) as u8
                } else {
                    0u8
                },
                forall|j: int| 0 <= j < i ==> #[trigger] mask[j] == (num[j] == 255),
                forall|j: int| 0 <= j < i ==> #[trigger] missing[j] == if num[j] >= den[j] {
                    0
                } else {
                    (den[j] - num[j]) as nat
                },
                *remainder matches Some(x) ==> x@ >= 2,
                opt_value(*remainder) == rem0 * basis_product(missing),
            decreases NUM_PRIMES - i,
        {
            proof {
                lemma_basis_prime(i as nat, i as nat);
                lemma_basis_product_pos(missing);
            }
            mask.push(num[i] == 255);
            if num[i] >= den[i] {
                primes.push(num[i] - den[i]);
                proof {
                    lemma_basis_product_push(missing, 0);
                    lemma_pow0(p as int);
                    missing = missing.push(0);
                }
            } else {
                primes.push(0);
                let e = (den[i] - num[i]) as u32;
                let factor = Natural::from_u128(p as u128).pow(e);
                let ghost old_missing = missing;
                proof {
                    lemma_basis_product_push(missing, e as nat);
                    lemma_basis_pow_at_least_two(i as nat, e as nat);
                    missing = missing.push(e as nat);
                }
                let ghost before = opt_value(*remainder);
                *remainder = match remainder {
                    None => Some(factor),
                    Some(r) => Some(r.mul(&factor)),
                };
                proof {
                    let b = basis_product(old_missing) as int;
                    let f = factor@ as int;
                    assert(rem0 * (b * f) == rem0 * b * f) by (nonlinear_arith);
                    if before >= 2 {
                        lemma_mul_at_least_two(f, before as int);
                    }
                    assert(opt_value(*remainder) == before * f);
                    assert(basis_product(missing) == b * f);
                }
            }
            if i + 1 < NUM_PRIMES {
                p = next_basis_prime(i, p);
            }
            i = i + 1;
        }
        proof {
            assert(missing =~= deficit(num@, den@));
            let sums = Seq::new(NUM_PRIMES as nat, |j: int| num[j] as nat + missing[j]);
            lemma_exps_index(primes@);
            lemma_exps_index(num@);
            lemma_exps_index(den@);
            lemma_basis_product_add(exps(primes@), exps(den@), sums);
            lemma_basis_product_add(exps(num@), missing, sums);
        }
        (primes, mask)
    }
    /// Moves the factors of the masked basis primes out of the remainder and
    /// into their counts, while the counts don't saturate.
    fn decompose_mask(remainder: &mut Option<Natural>, primes: &mut Vec<u8>, mask: &Vec<bool>)
        requires
            old(primes).len() == NUM_PRIMES,
            mask.len() == NUM_PRIMES,
            NUM_PRIMES <= MAX_BASIS_PRIMES,
            *old(remainder) matches Some(x) ==> x@ >= 2,
        ensures
            final(primes).len() == NUM_PRIMES,
            forall|i: int| 0 <= i < NUM_PRIMES ==> #[trigger] final(primes)[i] >= old(primes)[i],
            forall|i: int|
                0 <= i < NUM_PRIMES && !mask[i] ==> #[trigger] final(primes)[i] == old(primes)[i],
            *final(remainder) matches Some(x) ==> x@ >= 2,
            basis_product(exps(final(primes)@)) * opt_value(*final(remainder)) == basis_product(
                exps(old(primes)@),
            ) * opt_value(*old(remainder)),
            forall|i: int|
                0 <= i < NUM_PRIMES && mask[i] && #[trigger] final(primes)[i] != 255 ==> opt_value(
                    *final(remainder),
                ) % basis_prime(i as nat) != 0,
            *old(remainder) is None ==> *final(remainder) is None && final(primes)@ == old(primes)@,
            opt_value(*old(remainder)) % opt_value(*final(remainder)) == 0,
    {
        let mut x = match remainder {
            None => {
                proof {
                    assert forall|i: int| 0 <= i < NUM_PRIMES implies 1nat % #[trigger] basis_prime(
                        i as nat,
                    ) != 0 by {
                        lemma_basis_prime(i as nat, i as nat);
                        vstd::arithmetic::div_mod::lemma_small_mod(1, basis_prime(i as nat));
                    }
                    lemma_mod_self_0(1);
                }
                return ;
            },
            Some(x) => x.copy(),
        };
        let ghost v0 = basis_product(exps(primes@)) * x@;
        let ghost c0 = primes@;
        let ghost x0v = x@;
        let ghost mut kk: nat = 1;
        let mut done = false;
        let mut p: usize = 2;
        let mut i: usize = 0;
        while i < NUM_PRIMES
            invariant
                primes.len() == NUM_PRIMES,
                c0.len() == NUM_PRIMES,
                mask.len() == NUM_PRIMES,
                NUM_PRIMES <= MAX_BASIS_PRIMES,
                i <= NUM_PRIMES,
                i < NUM_PRIMES ==> p == basis_prime(i as nat),
                x@ >= 1,
                done ==> x@ == 1,
                forall|j: int| 0 <= j < NUM_PRIMES ==> #[trigger] primes[j] >= c0[j],
                forall|j: int| 0 <= j < NUM_PRIMES && !mask[j] ==> #[trigger] primes[j] == c0[j],
                forall|j: int| i <= j < NUM_PRIMES ==> #[trigger] primes[j] == c0[j],
                basis_product(exps(primes@)) * x@ == v0,
                x0v == x@ * kk,
                forall|j: int|
                    0 <= j < i && mask[j] && #[trigger] primes[j] != 255 ==> x@ % basis_prime(j as nat) != 0,
            decreases NUM_PRIMES - i,
        {
            proof {
                lemma_basis_prime(i as nat, i as nat);
            }
            if !done && mask[i] && primes[i] != 255 {
                let bigp = Natural::from_u128(p as u128);
                while primes[i] != 255
                    invariant
                        primes.len() == NUM_PRIMES,
                        c0.len() == NUM_PRIMES,
                        mask.len() == NUM_PRIMES,
                        NUM_PRIMES <= MAX_BASIS_PRIMES,
                        i < NUM_PRIMES,
                        mask[i as int],
                        p == basis_prime(i as nat),
                        p >= 2,
                        bigp@ == p,
                        x@ >= 1,
                        done ==> x@ == 1,
                        forall|j: int| 0 <= j < NUM_PRIMES ==> #[trigger] primes[j] >= c0[j],
                        forall|j: int|
                            0 <= j < NUM_PRIMES && !mask[j] ==> #[trigger] primes[j] == c0[j],
                        forall|j: int| i < j < NUM_PRIMES ==> #[trigger] primes[j] == c0[j],
                        basis_product(exps(primes@)) * x@ == v0,
                x0v == x@ * kk,
                        forall|j: int|
                            0 <= j < i && mask[j] && #[trigger] primes[j] != 255 ==> x@ % basis_prime(j as nat) != 0,
                    ensures
                        primes.len() == NUM_PRIMES,
                        x@ >= 1,
                        done ==> x@ == 1,
                        forall|j: int| 0 <= j < NUM_PRIMES ==> #[trigger] primes[j] >= c0[j],
                        forall|j: int|
                            0 <= j < NUM_PRIMES && !mask[j] ==> #[trigger] primes[j] == c0[j],
                        forall|j: int| i < j < NUM_PRIMES ==> #[trigger] primes[j] == c0[j],
                        basis_product(exps(primes@)) * x@ == v0,
                x0v == x@ * kk,
                        forall|j: int|
                            0 <= j < i && mask[j] && #[trigger] primes[j] != 255 ==> x@ % basis_prime(j as nat) != 0,
                        x@ == 1 || primes[i as int] == 255 || x@ % (p as nat) != 0,
                    decreases 255 - primes[i as int],
                {
                    let (quo, rem) = x.div_rem(&bigp);
                    if !rem.is_zero() {
                        break;
                    }
                    let c = primes[i];
                    proof {
                        lemma_fundamental_div_mod(x@ as int, p as int);
                        lemma_mul_is_commutative(p as int, quo@ as int);
                        lemma_exps_index(primes@);
                        lemma_basis_product_inc(exps(primes@), i as int);
                        assert(exps(primes@.update(i as int, (c + 1) as u8)) =~= exps(primes@).update(
                            i as int,
                            exps(primes@)[i as int] + 1,
                        ));
                        let b = basis_product(exps(primes@)) as int;
                        assert((b * p) * quo@ == v0) by (nonlinear_arith)
                            requires
                                b * x@ == v0,
                                x@ == p * quo@,
                        ;
                        assert(quo@ >= 1) by (nonlinear_arith)
                            requires
                                x@ == p * quo@,
                                x@ >= 1,
                        ;
                        assert forall|j: int|
                            0 <= j < i && mask[j] && #[trigger] primes[j] != 255 implies quo@ % basis_prime(j as nat) != 0 by {
                            lemma_basis_prime(j as nat, j as nat);
                            lemma_not_divides_factor(
                                x@ as int,
                                quo@ as int,
                                p as int,
                                basis_prime(j as nat) as int,
                            );
                        }
                    }
                    proof {
                        assert(x0v == quo@ * (kk * p)) by (nonlinear_arith)
                            requires
                                x0v == x@ * kk,
                                x@ == quo@ * p,
                        ;
                        kk = kk * p as nat;
                    }
                    primes.set(i, c + 1);
                    x = quo;
                    if x.is_one() {
                        done = true;
                        break;
                    }
                }
            }
            proof {
                if x@ == 1 {
                    vstd::arithmetic::div_mod::lemma_small_mod(1, p as nat);
                }
            }
            if i + 1 < NUM_PRIMES {
                p = next_basis_prime(i, p);
            }
            i = i + 1;
        }
        proof {
            lemma_mod_multiples_basic(kk as int, x@ as int);
            lemma_mul_is_commutative(kk as int, x@ as int);
        }
        if x.is_one() {
            *remainder = None;
        } else {
            *remainder = Some(x);
        }
    }

    /// Divides this denominator by the other one, which must divide it as
    /// represented: this remainder must be a multiple of the divisor's
    /// remainder times the powers of primes that this denominator's counts
    /// lack.
    pub fn div(&self, rhs: &Self) -> (r: Self)
        requires
            self.wf(),
            rhs.wf(),
            self.remainder_value() % self.division_remainder(rhs) == 0,
        ensures
            r.wf(),
            r.denom_value() * rhs.denom_value() == self.denom_value(),
            forall|i: int|
                0 <= i < NUM_PRIMES && self.counts()[i] != 255 ==> #[trigger] r.counts()[i] == if self.counts()[i]
                    >= rhs.counts()[i] {
                    (self.counts()[i] - rhs.counts()[i]) as u8
                } else {
                    0u8
                },
            forall|i: int|
                0 <= i < NUM_PRIMES && self.counts()[i] == 255 ==> #[trigger] r.counts()[i] >= 255
                    - rhs.counts()[i],
            forall|i: int|
                0 <= i < NUM_PRIMES && self.counts()[i] == 255 && #[trigger] r.counts()[i] < 255
                    ==> r.remainder_value() % basis_prime(i as nat) != 0,
            self.canonical() ==> r.canonical(),
    {
        let mut rem = match &rhs.remainder {
            None => None,
            Some(r) => Some(r.copy()),
        };
        let (mut primes, mask) = Self::div_primes(&self.primes, &rhs.primes, &mut rem);
        let ghost big_r = opt_value(rem) as int;
        let ghost lv = self.remainder_value() as int;
        proof {
            lemma_basis_product_pos(deficit(self.primes@, rhs.primes@));
            assert(big_r >= 1) by (nonlinear_arith)
                requires
                    big_r == rhs.remainder_value() * basis_product(
                        deficit(self.primes@, rhs.primes@),
                    ),
                    rhs.remainder_value() >= 1,
                    basis_product(deficit(self.primes@, rhs.primes@)) >= 1,
            ;
            assert(big_r == self.division_remainder(rhs));
            lemma_fundamental_div_mod(lv, big_r);
        }
        let mut remainder = match &self.remainder {
            None => {
                proof {
                    if rem is Some {
                        lemma_small_mod(1, big_r as nat);
                    }
                }
                None
            },
            Some(l) => match &rem {
                None => Some(l.copy()),
                Some(r) => {
                    let (quo, _) = l.div_rem(r);
                    if quo.is_one() {
                        None
                    } else {
                        proof {
                            assert(quo@ >= 2) by (nonlinear_arith)
                                requires
                                    l@ == r@ * quo@,
                                    l@ >= 2,
                                    quo@ != 1,
                            ;
                        }
                        Some(quo)
                    }
                },
            },
        };
        let ghost q = opt_value(remainder) as int;
        let ghost p0 = basis_product(exps(primes@)) as int;
        proof {
            assert(lv == q * big_r) by (nonlinear_arith)
                requires
                    lv == big_r * (lv / big_r),
                    q == lv / big_r,
            ;
        }
        Self::decompose_mask(&mut remainder, &mut primes, &mask);
        let result = DenomArray { primes, remainder };
        proof {
            let rf = result.remainder_value() as int;
            lemma_fundamental_div_mod(q, rf);
            assert forall|i: int|
                0 <= i < NUM_PRIMES && #[trigger] result.counts()[i] < 255 && self.canonical()
                    implies result.remainder_value() % basis_prime(i as nat) != 0 by {
                if self.counts()[i] != 255 {
                    lemma_basis_prime(i as nat, i as nat);
                    let pi = basis_prime(i as nat) as int;
                    assert(lv % pi != 0);
                    lemma_mul_is_commutative(q, big_r);
                    lemma_not_divides_factor(lv, q, big_r, pi);
                    lemma_mul_is_commutative(rf, q / rf);
                    lemma_not_divides_factor(q, rf, q / rf, pi);
                }
            }
            let d = basis_product(deficit(self.primes@, rhs.primes@)) as int;
            let ps = self.primes_value() as int;
            let pr = rhs.primes_value() as int;
            let rr = rhs.remainder_value() as int;
            assert(result.denom_value() * rhs.denom_value() == self.denom_value()) by (nonlinear_arith)
                requires
                    result.denom_value() == p0 * q,
                    rhs.denom_value() == pr * rr,
                    self.denom_value() == ps * lv,
                    p0 * pr == ps * d,
                    big_r == rr * d,
                    lv == q * big_r,
            ;
        }
        result
    }

    /// Divides this denominator by the other one in place, as
    /// [`div`](DenomArray::div) does.
    pub fn div_assign(&mut self, rhs: &Self)
        requires
            old(self).wf(),
            rhs.wf(),
            old(self).remainder_value() % old(self).division_remainder(rhs) == 0,
        ensures
            final(self).wf(),
            final(self).denom_value() * rhs.denom_value() == old(self).denom_value(),
            forall|i: int|
                0 <= i < NUM_PRIMES && old(self).counts()[i] != 255 ==> #[trigger] final(self).counts()[i]
                    == if old(self).counts()[i] >= rhs.counts()[i] {
                    (old(self).counts()[i] - rhs.counts()[i]) as u8
                } else {
                    0u8
                },
            forall|i: int|
                0 <= i < NUM_PRIMES && old(self).counts()[i] == 255 ==> #[trigger] final(self).counts()[i]
                    >= 255 - rhs.counts()[i],
            forall|i: int|
                0 <= i < NUM_PRIMES && old(self).counts()[i] == 255 && #[trigger] final(self).counts()[i]
                    < 255 ==> final(self).remainder_value() % basis_prime(i as nat) != 0,
            old(self).canonical() ==> final(self).canonical(),
    {
        *self = self.div(rhs);
    }

    /// Multiplies this denominator by the other one in place.
    pub fn mul_assign(&mut self, rhs: &Self)
        requires
            old(self).wf(),
            rhs.wf(),
        ensures
            final(self).wf(),
            final(self).denom_value() == old(self).denom_value() * rhs.denom_value(),
            final(self).is_product_of(&*old(self), rhs),
    {
        *self = Denom::mul(&*self, rhs);
    }

}

impl<const NUM_PRIMES: usize> Denom for DenomArray<NUM_PRIMES> {
    open spec fn denom_value(&self) -> nat {
        self.primes_value() * self.remainder_value()
    }

    open spec fn wf(&self) -> bool {
        self.well_formed()
    }

    open spec fn is_canonical(&self) -> bool {
        self.canonical()
    }

    open spec fn same_repr(&self, other: &Self) -> bool {
        &&& self.counts() == other.counts()
        &&& self.remainder_value() == other.remainder_value()
    }

    open spec fn is_product_of(&self, a: &Self, b: &Self) -> bool {
        &&& forall|i: int|
            0 <= i < NUM_PRIMES ==> #[trigger] self.counts()[i] as int == if a.counts()[i]
                + b.counts()[i] <= 255 {
                a.counts()[i] + b.counts()[i]
            } else {
                255
            }
        &&& self.denom_value() == a.denom_value() * b.denom_value()
    }

    open spec fn is_power_of(&self, a: &Self, e: u32) -> bool {
        &&& e == 0 ==> (forall|i: int| 0 <= i < NUM_PRIMES ==> #[trigger] self.counts()[i] == 0)
            && self.remainder_opt() is None
        &&& e > 0 ==> forall|i: int|
            0 <= i < NUM_PRIMES ==> #[trigger] self.counts()[i] as int == if a.counts()[i] * e
                <= 255 {
                a.counts()[i] * e
            } else {
                255
            }
        &&& self.denom_value() == pow(a.denom_value() as int, e as nat)
    }

    open spec fn is_common_multiple_of(&self, a: &Self, b: &Self) -> bool {
        &&& forall|i: int|
            0 <= i < NUM_PRIMES ==> #[trigger] self.counts()[i] == max_u8(a.counts()[i], b.counts()[i])
        &&& self.remainder_value() == lcm(a.remainder_value(), b.remainder_value())
    }

    open spec fn supported() -> bool {
        1 <= NUM_PRIMES <= MAX_BASIS_PRIMES
    }

    proof fn lemma_positive(&self) {
        lemma_basis_product_pos(exps(self.counts()));
        lemma_mul_strictly_positive(self.primes_value() as int, self.remainder_value() as int);
    }

    fn one() -> (r: Self)
        ensures
            forall|i: int| 0 <= i < NUM_PRIMES ==> r.counts()[i] == 0,
            r.remainder_opt() is None,
    {
        let r = DenomArray { primes: Self::zero_counts(), remainder: None };
        proof {
            assert(r.primes_value() == 1 && r.remainder_value() == 1);
            assert(r.denom_value() == 1 * 1);
            assert forall|j: nat| #[trigger] basis_prime(j) >= 2 by {
                lemma_basis_prime(j, j);
            }
            assert forall|j: nat| #[trigger] basis_prime(j) >= 2 implies 1nat % basis_prime(j) != 0 by {
                vstd::arithmetic::div_mod::lemma_small_mod(1, basis_prime(j));
            }
        }
        r
    }

    fn copy(&self) -> (r: Self)
        ensures
            r.counts() == self.counts(),
            r.remainder_value() == self.remainder_value(),
            r.remainder_opt() is Some == self.remainder_opt() is Some,
    {
        DenomArray { primes: self.primes(), remainder: self.remainder() }
    }

    fn from_natural(x: &Natural) -> Self {
        Self::decompose_natural(x)
    }

    fn to_natural(&self) -> (r: Natural) {
        let mut result = match &self.remainder {
            Some(x) => x.copy(),
            None => Natural::one(),
        };
        let mut tmp: usize = 1;
        let mut p: usize = 2;
        let mut i: usize = 0;
        proof {
            assert(exps(self.primes@.take(0)) =~= Seq::<nat>::empty());
        }
        while i < NUM_PRIMES
            invariant
                self.wf(),
                i <= NUM_PRIMES,
                i < NUM_PRIMES ==> p == basis_prime(i as nat),
                tmp >= 1,
                result@ * tmp == self.remainder_value() * basis_product(
                    exps(self.primes@.take(i as int)),
                ),
            decreases NUM_PRIMES - i,
        {
            proof {
                lemma_basis_prime(i as nat, i as nat);
                lemma_exps_take(self.primes@, i as int);
                lemma_basis_product_push(exps(self.primes@.take(i as int)), self.primes[i as int] as nat);
                lemma_basis_pow_pos(i as nat, self.primes[i as int] as nat);
            }
            let ghost before = result@ * tmp;
            accum_pow_natural(&mut result, &mut tmp, p, self.primes[i] as u16);
            proof {
                let b = basis_product(exps(self.primes@.take(i as int))) as int;
                let x = pow(p as int, self.primes[i as int] as nat);
                assert(self.remainder_value() * b * x == self.remainder_value() * (b * x))
                    by (nonlinear_arith);
            }
            if i + 1 < NUM_PRIMES {
                p = next_basis_prime(i, p);
            }
            i = i + 1;
        }
        proof {
            assert(self.primes@.take(NUM_PRIMES as int) =~= self.primes@);
            assert(self.remainder_value() * self.primes_value() == self.primes_value() * self.remainder_value())
                by (nonlinear_arith);
        }
        result.mul(&Natural::from_u128(tmp as u128))
    }

    fn mul(&self, rhs: &Self) -> (r: Self)
        ensures
            forall|i: int| 0 <= i < NUM_PRIMES ==> #[trigger] r.counts()[i] as int == if self.counts()[i]
                + rhs.counts()[i] <= 255 {
                self.counts()[i] + rhs.counts()[i]
            } else {
                255
            },
    {
        let mut remainder = match (&self.remainder, &rhs.remainder) {
            (None, None) => None,
            (None, Some(r)) => Some(r.copy()),
            (Some(l), None) => Some(l.copy()),
            (Some(l), Some(r)) => Some(l.mul(r)),
        };
        proof {
            if self.remainder is Some && rhs.remainder is Some {
                lemma_mul_at_least_two(self.remainder_value() as int, rhs.remainder_value() as int);
            }
        }
        let primes = Self::mul_primes(&self.primes, &rhs.primes, &mut remainder);
        proof {
            let a = self.primes_value() as int;
            let b = rhs.primes_value() as int;
            let x = self.remainder_value() as int;
            let y = rhs.remainder_value() as int;
            assert(a * b * (x * y) == (a * x) * (b * y)) by (nonlinear_arith);
        }
        DenomArray { primes, remainder }
    }

    /// The product of each count by the exponent fits in 32 bits.
    open spec fn pow_supported(&self, e: u32) -> bool {
        forall|i: int| 0 <= i < self.counts().len() ==> #[trigger] self.counts()[i] * e <= u32::MAX
    }

    fn pow(&self, e: u32) -> (r: Self)
        ensures
            e > 0 ==> forall|i: int| 0 <= i < NUM_PRIMES ==> #[trigger] r.counts()[i] as int == if self.counts()[i]
                * e <= 255 {
                self.counts()[i] * e
            } else {
                255
            },
    {
        if e == 0 {
            proof {
                lemma_pow0(self.denom_value() as int);
            }
            return Self::one();
        }
        let mut remainder = match &self.remainder {
            None => None,
            Some(r) => Some(r.pow(e)),
        };
        proof {
            if self.remainder is Some {
                lemma_pow_at_least_two(self.remainder_value(), e as nat);
            } else {
                lemma1_pow(e as nat);
            }
        }
        let primes = Self::pow_primes(&self.primes, e, &mut remainder);
        proof {
            lemma_pow_distributes(self.primes_value() as int, self.remainder_value() as int, e as nat);
        }
        DenomArray { primes, remainder }
    }

    fn mul_integer(&self, x: &Integer) -> (r: Integer) {
        let mut x = x.copy();
        let ghost x0 = x@;
        let mut tmp: usize = 1;
        let mut p: usize = 2;
        let mut i: usize = 0;
        proof {
            assert(exps(self.primes@.take(0)) =~= Seq::<nat>::empty());
        }
        while i < NUM_PRIMES
            invariant
                self.wf(),
                i <= NUM_PRIMES,
                i < NUM_PRIMES ==> p == basis_prime(i as nat),
                tmp >= 1,
                x@ * tmp == x0 * basis_product(exps(self.primes@.take(i as int))),
            decreases NUM_PRIMES - i,
        {
            proof {
                lemma_basis_prime(i as nat, i as nat);
                lemma_exps_take(self.primes@, i as int);
                lemma_basis_product_push(exps(self.primes@.take(i as int)), self.primes[i as int] as nat);
                lemma_basis_pow_pos(i as nat, self.primes[i as int] as nat);
                lemma_pow0(p as int);
            }
            let count = self.primes[i];
            let ghost xb = x@;
            let ghost tb = tmp as int;
            if count != 0 {
                accum_pow(&mut x, &mut tmp, p, count as u16);
            }
            proof {
                let b = basis_product(exps(self.primes@.take(i as int))) as int;
                let y = pow(p as int, count as nat);
                assert(x0 * b * y == x0 * (b * y)) by (nonlinear_arith);
                if count == 0 {
                    assert(x@ * tmp == x0 * b * y) by (nonlinear_arith)
                        requires
                            x@ * tmp == x0 * b,
                            y == 1,
                    ;
                } else {
                    assert(x@ * tmp == x0 * b * y) by (nonlinear_arith)
                        requires
                            x@ * tmp == xb * tb * y,
                            xb * tb == x0 * b,
                    ;
                }
                assert(basis_product(exps(self.primes@.take(i + 1))) == b * y);
            }
            if i + 1 < NUM_PRIMES {
                p = next_basis_prime(i, p);
            }
            i = i + 1;
        }
        proof {
            assert(self.primes@.take(NUM_PRIMES as int) =~= self.primes@);
        }
        x = x.mul_natural(&Natural::from_u128(tmp as u128));
        let ghost x1 = x@;
        match &self.remainder {
            Some(remainder) => {
                let ghost xa = x@;
                x = x.mul_natural(remainder);
                assert(x@ == x1 * self.remainder_value()) by (nonlinear_arith)
                    requires
                        xa == x1,
                        x@ == xa * remainder@,
                        self.remainder_value() == remainder@,
                ;
            },
            None => {
                assert(x@ == x1 * self.remainder_value()) by (nonlinear_arith)
                    requires
                        self.remainder_value() == 1,
                        x@ == x1,
                ;
            },
        }
        proof {
            let pv = self.primes_value() as int;
            let rv = self.remainder_value() as int;
            assert(x1 == x0 * pv);
            assert(x@ == x0 * (pv * rv)) by (nonlinear_arith)
                requires
                    x@ == x1 * rv,
                    x1 == x0 * pv,
            ;
        }
        x
    }

    fn normalize(lnum: &mut Integer, rnum: &mut Integer, ldenom: &Self, rdenom: &Self) -> (r: Self)
        ensures
            forall|i: int| 0 <= i < NUM_PRIMES ==> #[trigger] r.counts()[i] == max_u8(
                ldenom.counts()[i],
                rdenom.counts()[i],
            ),
            r.remainder_value() == lcm(ldenom.remainder_value(), rdenom.remainder_value()),
    {
        let ghost l0 = lnum@;
        let ghost r0 = rnum@;
        let mut primes: Vec<u8> = Vec::new();
        let mut ltmp: usize = 1;
        let mut rtmp: usize = 1;
        let ghost mut ldiff: Seq<nat> = Seq::empty();
        let ghost mut rdiff: Seq<nat> = Seq::empty();
        let mut p: usize = 2;
        let mut i: usize = 0;
        while i < NUM_PRIMES
            invariant
                ldenom.wf(),
                rdenom.wf(),
                i <= NUM_PRIMES,
                i < NUM_PRIMES ==> p == basis_prime(i as nat),
                primes.len() == i,
                ldiff.len() == i,
                rdiff.len() == i,
                forall|j: int| 0 <= j < i ==> #[trigger] primes[j] == max_u8(
                    ldenom.primes[j],
                    rdenom.primes[j],
                ),
                forall|j: int| 0 <= j < i ==> #[trigger] ldiff[j] == primes[j] - ldenom.primes[j],
                forall|j: int| 0 <= j < i ==> #[trigger] rdiff[j] == primes[j] - rdenom.primes[j],
                ltmp >= 1,
                rtmp >= 1,
                lnum@ * ltmp == l0 * basis_product(ldiff),
                rnum@ * rtmp == r0 * basis_product(rdiff),
            decreases NUM_PRIMES - i,
        {
            proof {
                lemma_basis_prime(i as nat, i as nat);
                lemma_pow0(p as int);
            }
            let lcount = ldenom.primes[i];
            let rcount = rdenom.primes[i];
            let ghost lb = basis_product(ldiff);
            let ghost rb = basis_product(rdiff);
            if lcount == rcount {
                primes.push(lcount);
                proof {
                    lemma_basis_product_push(ldiff, 0);
                    lemma_basis_product_push(rdiff, 0);
                    ldiff = ldiff.push(0);
                    rdiff = rdiff.push(0);
                }
            } else if lcount < rcount {
                accum_pow(lnum, &mut ltmp, p, (rcount - lcount) as u16);
                primes.push(rcount);
                proof {
                    lemma_basis_product_push(ldiff, (rcount - lcount) as nat);
                    lemma_basis_product_push(rdiff, 0);
                    let x = pow(p as int, (rcount - lcount) as nat);
                    assert(l0 * lb * x == l0 * (lb * x)) by (nonlinear_arith);
                    ldiff = ldiff.push((rcount - lcount) as nat);
                    rdiff = rdiff.push(0);
                }
            } else {
                accum_pow(rnum, &mut rtmp, p, (lcount - rcount) as u16);
                primes.push(lcount);
                proof {
                    lemma_basis_product_push(ldiff, 0);
                    lemma_basis_product_push(rdiff, (lcount - rcount) as nat);
                    let x = pow(p as int, (lcount - rcount) as nat);
                    assert(r0 * rb * x == r0 * (rb * x)) by (nonlinear_arith);
                    ldiff = ldiff.push(0);
                    rdiff = rdiff.push((lcount - rcount) as nat);
                }
            }
            if i + 1 < NUM_PRIMES {
                p = next_basis_prime(i, p);
            }
            i = i + 1;
        }
        *lnum = lnum.mul_natural(&Natural::from_u128(ltmp as u128));
        *rnum = rnum.mul_natural(&Natural::from_u128(rtmp as u128));
        let ghost l1 = lnum@;
        let ghost r1 = rnum@;
        let ghost x = ldenom.remainder_value() as int;
        let ghost y = rdenom.remainder_value() as int;
        let remainder = match &ldenom.remainder {
            None => match &rdenom.remainder {
                None => None,
                Some(r) => {
                    *lnum = lnum.mul_natural(r);
                    let rem = Some(r.copy());
                    proof {
                        assert(x == 1 && y == r@ && y >= 2);
                        assert(opt_value(rem) == x * y && lnum@ * x == l1 * opt_value(rem)
                            && rnum@ * y == r1 * opt_value(rem)) by (nonlinear_arith)
                            requires
                                x == 1,
                                y == r@,
                                opt_value(rem) == r@,
                                lnum@ == l1 * r@,
                                rnum@ == r1,
                        ;
                    }
                    rem
                },
            },
            Some(l) => match &rdenom.remainder {
                None => {
                    *rnum = rnum.mul_natural(l);
                    let rem = Some(l.copy());
                    proof {
                        assert(x == l@ && y == 1 && x >= 2);
                        assert(opt_value(rem) == x * y && lnum@ * x == l1 * opt_value(rem)
                            && rnum@ * y == r1 * opt_value(rem)) by (nonlinear_arith)
                            requires
                                y == 1,
                                x == l@,
                                opt_value(rem) == l@,
                                rnum@ == r1 * l@,
                                lnum@ == l1,
                        ;
                    }
                    rem
                },
                Some(r) => {
                    if l.equals(r) {
                        let rem = Some(l.copy());
                        proof {
                            assert(x == l@ && y == r@ && x == y);
                        }
                        rem
                    } else {
                        let g = l.gcd(r);
                        proof {
                            lemma_lcm(l@, r@);
                        }
                        let lq = l.div(&g);
                        let rq = r.div(&g);
                        *lnum = lnum.mul_natural(&rq);
                        *rnum = rnum.mul_natural(&lq);
                        let rem = Some(l.mul(&rq));
                        proof {
                            assert(x == l@ && y == r@);
                            assert(lnum@ * x == l1 * opt_value(rem) && rnum@ * y == r1 * opt_value(
                                rem,
                            )) by (nonlinear_arith)
                                requires
                                    x == l@,
                                    y == r@,
                                    opt_value(rem) == l@ * rq@,
                                    lq@ * r@ == l@ * rq@,
                                    lnum@ == l1 * rq@,
                                    rnum@ == r1 * lq@,
                            ;
                        }
                        rem
                    }
                },
            },
        };
        proof {
            let z = opt_value(remainder);
            lemma_lcm(x as nat, y as nat);
            assert(z == lcm(x as nat, y as nat));
            assert(lnum@ * x == l1 * z);
            assert(rnum@ * y == r1 * z);
        }
        let result = DenomArray { primes, remainder };
        proof {
            lemma_exps_index(primes@);
            lemma_exps_index(ldenom.primes@);
            lemma_exps_index(rdenom.primes@);
            lemma_basis_product_add(exps(ldenom.primes@), ldiff, exps(primes@));
            lemma_basis_product_add(exps(rdenom.primes@), rdiff, exps(primes@));
            let bl = ldenom.primes_value() as int;
            let br = rdenom.primes_value() as int;
            let dl = basis_product(ldiff) as int;
            let dr = basis_product(rdiff) as int;
            let x = ldenom.remainder_value() as int;
            let y = rdenom.remainder_value() as int;
            let z = result.remainder_value() as int;
            assert(lnum@ * (bl * x) == l0 * ((bl * dl) * z)) by (nonlinear_arith)
                requires
                    l1 == l0 * dl,
                    lnum@ * x == l1 * z,
            ;
            assert(rnum@ * (br * y) == r0 * ((br * dr) * z)) by (nonlinear_arith)
                requires
                    r1 == r0 * dr,
                    rnum@ * y == r1 * z,
            ;
        }
        result
    }

    open spec fn coprime_with(&self, num: int) -> bool {
        &&& gcd(self.remainder_value(), abs(num)) == 1
        &&& forall|i: int|
            0 <= i < NUM_PRIMES && #[trigger] self.counts()[i] > 0 ==> num % (basis_prime(
                i as nat,
            ) as int) != 0
    }

    fn gcd_reduce(&mut self, num: &mut Integer)
        ensures
            gcd(final(self).remainder_value(), abs(final(num)@)) == 1,
            forall|i: int| 0 <= i < NUM_PRIMES ==> #[trigger] final(self).counts()[i] <= old(self).counts()[i],
            forall|i: int|
                0 <= i < NUM_PRIMES && #[trigger] final(self).counts()[i] > 0 ==> final(num)@ % (basis_prime(
                    i as nat,
                ) as int) != 0,
            old(self).canonical() ==> final(self).canonical(),
    {
        let ghost n0 = num@;
        let ghost v0 = self.denom_value();
        let ghost c0 = self.primes@;
        proof {
            lemma_basis_product_pos(exps(self.primes@));
        }
        let reduced: Option<(Natural, Natural)> = match &self.remainder {
            Some(remainder) => {
                let g = remainder.gcd(&num.magnitude());
                proof {
                    lemma_gcd_divides(remainder@, abs(num@));
                }
                if g.is_one() {
                    None
                } else {
                    Some((remainder.div(&g), g))
                }
            },
            None => None,
        };
        let ghost mut removed: int = 1;
        let ghost n_in = num@;
        let ghost r_in = self.remainder_value();
        if let Some((q, g)) = reduced {
            let ghost big_r = self.remainder_value();
            proof {
                lemma_gcd_divides(big_r, abs(n0));
                lemma_fundamental_div_mod(big_r as int, g@ as int);
                lemma_fundamental_div_mod(abs(n0) as int, g@ as int);
            }
            *num = num.div_natural(&g);
            self.remainder = if q.is_one() {
                None
            } else {
                Some(q)
            };
            proof {
                removed = g@ as int;
                let b = self.primes_value() as int;
                let qq = big_r / g@;
                assert(qq >= 1) by (nonlinear_arith)
                    requires
                        big_r == g@ * qq,
                        big_r >= 1,
                        g@ >= 1,
                ;
                assert(num@ * g@ == n0) by {
                    lemma_trunc_div_exact(n0, g@);
                }
                assert(num@ * (b * big_r) == n0 * (b * qq)) by (nonlinear_arith)
                    requires
                        num@ * g@ == n0,
                        big_r == g@ * qq,
                ;
                assert((b * qq) * g@ == b * big_r) by (nonlinear_arith)
                    requires
                        big_r == g@ * qq,
                ;
                assert(self.remainder_value() == qq);
                assert(r_in == qq * removed) by (nonlinear_arith)
                    requires
                        r_in == big_r,
                        big_r == g@ * qq,
                        removed == g@,
                ;
            }
        }
        proof {
            if reduced is None {
                if r_in == 1 {
                    lemma_gcd_one(abs(num@));
                }
                assert(gcd(self.remainder_value(), abs(num@)) == 1);
            } else {
                lemma_gcd_coprime_quotients(r_in, abs(n_in));
                let g = gcd(r_in, abs(n_in));
                lemma_gcd_divides(r_in, abs(n_in));
                lemma_abs_trunc_div(n_in, g as int);
                if self.remainder is None {
                    lemma_gcd_one(abs(num@));
                }
                assert(gcd(self.remainder_value(), abs(num@)) == 1);
            }
        }
        let ghost r_out = self.remainder_value();
        let ghost rm0 = removed;
        proof {
            assert(r_in == r_out * rm0);
        }
        let mut p: usize = 2;
        let mut i: usize = 0;
        let mut done = false;
        while i < NUM_PRIMES
            invariant
                self.wf(),
                i <= NUM_PRIMES,
                i < NUM_PRIMES ==> p == basis_prime(i as nat),
                c0.len() == NUM_PRIMES,
                forall|j: int| 0 <= j < NUM_PRIMES ==> #[trigger] self.primes[j] <= c0[j],
                num@ * v0 == n0 * self.denom_value(),
                self.denom_value() * removed == v0,
                removed >= 1,
                gcd(self.remainder_value(), abs(num@)) == 1,
                done ==> abs(num@) == 1,
                forall|j: int|
                    0 <= j < i && #[trigger] self.primes[j] > 0 ==> num@ % (basis_prime(j as nat) as int)
                        != 0,
                self.remainder_value() == r_out,
                forall|j: int|
                    0 <= j < i && #[trigger] self.primes[j] < c0[j] ==> r_out % basis_prime(j as nat)
                        != 0,
                forall|j: int| i <= j < NUM_PRIMES ==> #[trigger] self.primes[j] == c0[j],
            decreases NUM_PRIMES - i,
        {
            proof {
                lemma_basis_prime(i as nat, i as nat);
            }
            if !done && self.primes[i] != 0 {
                let bigp = Natural::from_u128(p as u128);
                while self.primes[i] != 0
                    invariant_except_break
                        !done,
                    invariant
                        self.wf(),
                        i < NUM_PRIMES,
                        p == basis_prime(i as nat),
                        bigp@ == p,
                        p >= 2,
                        c0.len() == NUM_PRIMES,
                        forall|j: int| 0 <= j < NUM_PRIMES ==> #[trigger] self.primes[j] <= c0[j],
                        num@ * v0 == n0 * self.denom_value(),
                        self.denom_value() * removed == v0,
                        removed >= 1,
                        gcd(self.remainder_value(), abs(num@)) == 1,
                gcd(self.remainder_value(), abs(num@)) == 1,
                        done ==> abs(num@) == 1,
                        forall|j: int|
                            0 <= j < i && #[trigger] self.primes[j] > 0 ==> num@ % (basis_prime(
                                j as nat,
                            ) as int) != 0,
                        self.remainder_value() == r_out,
                        forall|j: int|
                            0 <= j < i && #[trigger] self.primes[j] < c0[j] ==> r_out % basis_prime(
                                j as nat,
                            ) != 0,
                        self.primes[i as int] < c0[i as int] ==> r_out % (p as nat) != 0,
                        forall|j: int| i < j < NUM_PRIMES ==> #[trigger] self.primes[j] == c0[j],
                    ensures
                        self.wf(),
                        c0.len() == NUM_PRIMES,
                        forall|j: int| 0 <= j < NUM_PRIMES ==> #[trigger] self.primes[j] <= c0[j],
                        num@ * v0 == n0 * self.denom_value(),
                        self.denom_value() * removed == v0,
                        removed >= 1,
                        gcd(self.remainder_value(), abs(num@)) == 1,
                gcd(self.remainder_value(), abs(num@)) == 1,
                        done ==> abs(num@) == 1,
                        forall|j: int|
                            0 <= j < i && #[trigger] self.primes[j] > 0 ==> num@ % (basis_prime(
                                j as nat,
                            ) as int) != 0,
                        self.primes[i as int] > 0 && !done ==> num@ % (p as int) != 0,
                        self.remainder_value() == r_out,
                        forall|j: int|
                            0 <= j < i && #[trigger] self.primes[j] < c0[j] ==> r_out % basis_prime(
                                j as nat,
                            ) != 0,
                        self.primes[i as int] < c0[i as int] ==> r_out % (p as nat) != 0,
                        forall|j: int| i < j < NUM_PRIMES ==> #[trigger] self.primes[j] == c0[j],
                    decreases self.primes[i as int],
                {
                    let (quo, rem) = num.div_rem_natural(&bigp);
                    if !rem.is_zero() {
                        proof {
                            lemma_trunc_div_rem(num@, p as int);
                        }
                        break;
                    }
                    let ghost nb = num@;
                    let ghost vb = self.denom_value();
                    let ghost eb = exps(self.primes@);
                    *num = quo;
                    let c = self.primes[i];
                    self.primes.set(i, c - 1);
                    proof {
                        lemma_exps_index(self.primes@);
                        assert(exps(self.primes@) =~= eb.update(i as int, (eb[i as int] - 1) as nat));
                        lemma_basis_product_dec(eb, i as int);
                        let vn = self.denom_value() as int;
                        let rv = self.remainder_value() as int;
                        let bn = self.primes_value() as int;
                        assert(vb == vn * p) by (nonlinear_arith)
                            requires
                                vb == basis_product(eb) * rv,
                                basis_product(eb) == bn * p,
                                vn == bn * rv,
                        ;
                        assert(nb == num@ * p);
                        lemma_abs_mul(num@, p as int);
                        lemma_coprime_factor(self.remainder_value(), abs(num@), p as nat);
                        if r_out % (p as nat) == 0 {
                            lemma_mod_multiples_basic(abs(num@) as int, p as int);
                            lemma_common_divisor(r_out, abs(nb), p as nat);
                            vstd::arithmetic::div_mod::lemma_small_mod(1, p as nat);
                        }
                        assert(num@ * v0 == n0 * vn) by (nonlinear_arith)
                            requires
                                nb * v0 == n0 * vb,
                                vb == vn * p,
                                nb == num@ * p,
                                p >= 2,
                        ;
                        let rb = removed;
                        removed = rb * p;
                        assert(vn * removed == v0) by (nonlinear_arith)
                            requires
                                vb * rb == v0,
                                vb == vn * p,
                                removed == rb * p,
                        ;
                        assert(removed >= 1) by (nonlinear_arith)
                            requires
                                rb >= 1,
                                p >= 2,
                                removed == rb * p,
                        ;
                        assert forall|j: int|
                            0 <= j < i && #[trigger] self.primes[j] > 0 implies num@ % (basis_prime(
                                j as nat,
                            ) as int) != 0 by {
                            lemma_basis_prime(j as nat, j as nat);
                            lemma_not_divides_factor(nb, num@, p as int, basis_prime(j as nat) as int);
                        }
                    }
                    if num.is_unit() {
                        done = true;
                        break;
                    }
                }
            }
            proof {
                if done {
                    lemma_unit_not_divisible(num@, p as int);
                }
            }
            if i + 1 < NUM_PRIMES {
                p = next_basis_prime(i, p);
            }
            i = i + 1;
        }
        proof {
            self.lemma_positive();
            lemma_mod_multiples_basic(removed, self.denom_value() as int);
            lemma_mul_is_commutative(removed, self.denom_value() as int);
            assert forall|i: int|
                0 <= i < NUM_PRIMES && #[trigger] self.counts()[i] < 255 && old(self).canonical()
                    implies self.remainder_value() % basis_prime(i as nat) != 0 by {
                if self.primes[i] == c0[i] {
                    lemma_basis_prime(i as nat, i as nat);
                    assert(old(self).counts()[i] == c0[i]);
                    lemma_not_divides_factor(
                        r_in as int,
                        r_out as int,
                        rm0,
                        basis_prime(i as nat) as int,
                    );
                }
            }
        }
    }
}

} // verus!
