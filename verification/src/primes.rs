//! The odd primes below 2^16 and the factorization of small odd numbers.
use crate::prime_gaps::{get_half_gap, half_gap, lemma_half_gap_bound, NUM_ODD_PRIMES};
use crate::util::{floor_log2, magic_multiplier, Arithmetic, OddDivider};
use vstd::arithmetic::power::*;
use vstd::prelude::*;

verus! {

/// The `i`-th odd prime of the table (3 is the 0-th).
pub open spec fn odd_prime(i: nat) -> nat
    decreases i,
{
    if i == 0 {
        3
    } else {
        odd_prime((i - 1) as nat) + 2 * (half_gap(i - 1) + 1)
    }
}

/// The `i`-th prime of the basis of a denominator: 2, then the odd primes.
pub open spec fn basis_prime(i: nat) -> nat {
    if i == 0 {
        2
    } else {
        odd_prime((i - 1) as nat)
    }
}

/// Every odd prime of the table is odd, at least 3, and grows by at most
/// 512 per index.
pub proof fn lemma_odd_prime_bounds(i: nat)
    ensures
        3 <= odd_prime(i) <= 3 + 512 * i,
        odd_prime(i) % 2 == 1,
    decreases i,
{
    if i > 0 {
        lemma_odd_prime_bounds((i - 1) as nat);
        lemma_half_gap_bound(i - 1);
    }
}

/// The odd primes of the table are listed in increasing order.
pub proof fn lemma_odd_prime_increasing(i: nat, j: nat)
    requires
        i < j,
    ensures
        odd_prime(i) < odd_prime(j),
    decreases j,
{
    if i < (j - 1) as nat {
        lemma_odd_prime_increasing(i, (j - 1) as nat);
    }
}

/// The basis primes are at least 2 and increasing.
pub proof fn lemma_basis_prime(i: nat, j: nat)
    ensures
        2 <= basis_prime(i) <= 3 + 512 * i,
        i < j ==> basis_prime(i) < basis_prime(j),
{
    if i > 0 {
        lemma_odd_prime_bounds((i - 1) as nat);
    }
    if j > 0 {
        lemma_odd_prime_bounds((j - 1) as nat);
    }
    if 0 < i < j {
        lemma_odd_prime_increasing((i - 1) as nat, (j - 1) as nat);
    }
}

/// The odd prime that follows the `i`-th one, `p`.
pub fn next_odd_prime(i: usize, p: u32) -> (q: u32)
    requires
        i < 0x10_0000,
        p == odd_prime(i as nat),
    ensures
        q == odd_prime(i as nat + 1),
{
    proof {
        lemma_odd_prime_bounds(i as nat);
        lemma_half_gap_bound(i as int);
    }
    let g = get_half_gap(i);
    p + 2 * (g as u32 + 1)
}

/// The basis prime that follows the `i`-th one, `p`.
pub fn next_basis_prime(i: usize, p: usize) -> (q: usize)
    requires
        i < 0x10_0000,
        p == basis_prime(i as nat),
    ensures
        q == basis_prime(i as nat + 1),
{
    if i == 0 {
        3
    } else {
        proof {
            lemma_odd_prime_bounds((i - 1) as nat);
        }
        next_odd_prime(i - 1, p as u32) as usize
    }
}

/// `n` is prime: above one, with no divisor strictly between one and itself.
pub open spec fn is_prime(n: nat) -> bool {
    &&& n >= 2
    &&& forall|d: nat| 2 <= d < n ==> #[trigger] (n % d) != 0
}

/// Whether an odd number above one is prime, by trial division by the odd
/// numbers up to its square root.
pub fn is_odd_prime(v: u64) -> (r: bool)
    requires
        v >= 3,
        v % 2 == 1,
        v < 0x4000_0000_0000_0000,
    ensures
        r == is_prime(v as nat),
{
    let mut d: u64 = 3;
    while d <= v / d
        invariant
            3 <= d,
            d % 2 == 1,
            d <= 0x8000_0001,
            v >= 3,
            v % 2 == 1,
            v < 0x4000_0000_0000_0000,
            forall|e: nat| 2 <= e < d ==> #[trigger] ((v as nat) % e) != 0,
        decreases v - d,
    {
        proof {
            vstd::arithmetic::div_mod::lemma_fundamental_div_mod(v as int, d as int);
            vstd::arithmetic::div_mod::lemma_mod_pos_bound(v as int, d as int);
            assert(d * d <= v) by (nonlinear_arith)
                requires
                    d <= v / d,
                    v == d * (v / d) + v % d,
                    v % d >= 0,
                    d >= 0,
            ;
        }
        if v % d == 0 {
            proof {
                assert(d < v) by (nonlinear_arith)
                    requires
                        d * d <= v,
                        d >= 3,
                ;
                assert((v as nat) % (d as nat) == 0);
            }
            return false;
        }
        proof {
            assert(d < v) by (nonlinear_arith)
                requires
                    d * d <= v,
                    d >= 3,
            ;
            assert(d + 2 <= 0x8000_0001) by (nonlinear_arith)
                requires
                    d * d <= v,
                    v < 0x4000_0000_0000_0000,
                    d % 2 == 1,
            ;
            assert forall|e: nat| 2 <= e < d + 2 implies #[trigger] ((v as nat) % e) != 0 by {
                if e == d + 1 {
                    lemma_even_not_divides(v as nat, e);
                }
            }
        }
        d = d + 2;
    }
    proof {
        vstd::arithmetic::div_mod::lemma_fundamental_div_mod(v as int, d as int);
        vstd::arithmetic::div_mod::lemma_mod_pos_bound(v as int, d as int);
        assert(d * d > v) by (nonlinear_arith)
            requires
                d > v / d,
                v == d * (v / d) + v % d,
                v % d < d,
                d >= 3,
        ;
        assert forall|e: nat| 2 <= e < v implies #[trigger] ((v as nat) % e) != 0 by {
            if e >= d && (v as nat) % e == 0 {
                vstd::arithmetic::div_mod::lemma_fundamental_div_mod(v as int, e as int);
                let k = (v as nat) / e;
                assert(k >= 2 && k < d && (v as nat) == e * k) by (nonlinear_arith)
                    requires
                        (v as nat) == e * k,
                        e >= d,
                        d * d > v,
                        e < v,
                        d >= 3,
                ;
                vstd::arithmetic::div_mod::lemma_mod_multiples_basic(e as int, k as int);
                vstd::arithmetic::mul::lemma_mul_is_commutative(e as int, k as int);
            }
        }
    }
    true
}

/// An even number doesn't divide an odd one.
proof fn lemma_even_not_divides(v: nat, e: nat)
    requires
        v % 2 == 1,
        e % 2 == 0,
        e >= 2,
    ensures
        v % e != 0,
{
    if v % e == 0 {
        vstd::arithmetic::div_mod::lemma_fundamental_div_mod(v as int, e as int);
        vstd::arithmetic::div_mod::lemma_fundamental_div_mod(e as int, 2);
        let k = v / e;
        let h = e / 2;
        assert(v == 2 * (h * k)) by (nonlinear_arith)
            requires
                v == e * k,
                e == 2 * h,
        ;
        vstd::arithmetic::div_mod::lemma_mod_multiples_basic((h * k) as int, 2);
        vstd::arithmetic::mul::lemma_mul_is_commutative(2, (h * k) as int);
    }
}

/// The odd primes of the table that fit in 16 bits, in increasing order.
pub fn odd_primes() -> (v: Vec<u16>)
    ensures
        v.len() <= NUM_ODD_PRIMES,
        forall|i: int| 0 <= i < v.len() ==> v[i] == odd_prime(i as nat),
        v.len() < NUM_ODD_PRIMES ==> odd_prime(v.len() as nat) > u16::MAX,
{
    let mut v: Vec<u16> = Vec::new();
    let mut p: u32 = 3;
    let mut i: usize = 0;
    while i < NUM_ODD_PRIMES
        invariant
            i <= NUM_ODD_PRIMES,
            v.len() == i,
            i < NUM_ODD_PRIMES ==> p == odd_prime(i as nat),
            forall|j: int| 0 <= j < v.len() ==> v[j] == odd_prime(j as nat),
        decreases NUM_ODD_PRIMES - i,
    {
        if p > 0xFFFF {
            return v;
        }
        v.push(p as u16);
        if i + 1 < NUM_ODD_PRIMES {
            p = next_odd_prime(i, p);
        }
        i = i + 1;
    }
    v
}

/// The product of `odd_prime(index - 1)^count` over a list of
/// `(index, count)` pairs.
pub open spec fn factors_product(f: Seq<(u16, u16)>) -> nat
    decreases f.len(),
{
    if f.len() == 0 {
        1
    } else {
        factors_product(f.drop_last()) * pow(
            odd_prime((f.last().0 - 1) as nat) as int,
            f.last().1 as nat,
        ) as nat
    }
}

/// Prime indices (1 = 3, 2 = 5, 3 = 7, etc.) and exponents of the odd prime
/// factors of `2 * (x / 2) + 1` (that is `x` when `x` is odd), when that
/// number is below 8192; listed by increasing index, each exponent positive,
/// and each exponent taken whole: no prime below an entry's prime divides
/// the product of that entry and those after it. There is no list only
/// where the number is too large or has a prime factor that the table of
/// odd primes lacks.
pub fn known_odd_prime_factor_indices(x: usize) -> (r: Option<Vec<(u16, u16)>>)
    ensures
        x / 2 >= 4096 ==> r is None,
        r matches Some(f) ==> {
            &&& x / 2 < 4096
            &&& factors_product(f@) == 2 * (x / 2) + 1
            &&& forall|k: int| 0 <= k < f.len() ==> f[k].0 >= 1 && f[k].0 <= NUM_ODD_PRIMES && f[k].1 >= 1
            &&& forall|k: int, l: int| 0 <= k < l < f.len() ==> f[k].0 < f[l].0
            &&& forall|k: int, j: nat|
                #![trigger factors_product(f@.skip(k)), basis_prime(j)]
                0 <= k < f.len() && j < f[k].0 ==> factors_product(f@.skip(k)) % basis_prime(j)
                    != 0
        },
        r is None && x / 2 < 4096 ==> exists|q: nat|
            is_prime(q) && ((2 * (x / 2) + 1) as nat) % q == 0 && forall|i: nat|
                i < NUM_ODD_PRIMES ==> #[trigger] odd_prime(i) != q,
{
    if x / 2 >= 4096 {
        return None;
    }
    let n: u32 = (2 * (x / 2) + 1) as u32;
    let mut m: u32 = n;
    let mut f: Vec<(u16, u16)> = Vec::new();
    let mut p: u32 = 3;
    let mut i: usize = 0;
    assert(factors_product(f@) == 1);
    while m > 1 && i < NUM_ODD_PRIMES
        invariant
            1 <= m <= n < 8192,
            n == 2 * (x / 2) + 1,
            i <= NUM_ODD_PRIMES,
            i < NUM_ODD_PRIMES ==> p == odd_prime(i as nat),
            factors_product(f@) * m == n,
            forall|k: int| 0 <= k < f.len() ==> 1 <= f[k].0 <= i && f[k].1 >= 1,
            forall|k: int, l: int| 0 <= k < l < f.len() ==> f[k].0 < f[l].0,
            forall|j: nat| j <= i ==> (m as nat) % #[trigger] basis_prime(j) != 0,
            forall|k: int, j: nat|
                #![trigger factors_product(f@.skip(k)), basis_prime(j)]
                0 <= k < f.len() && j < f[k].0 ==> ((factors_product(f@.skip(k)) * m) as nat) % basis_prime(j)
                    != 0,
        decreases NUM_ODD_PRIMES - i,
    {
        proof {
            lemma_odd_prime_bounds(i as nat);
        }
        let mut count: u16 = 0;
        let ghost m0 = m;
        proof {
            lemma_pow0(p as int);
        }
        while m % p == 0
            invariant
                1 <= m <= m0,
                p == odd_prime(i as nat),
                p >= 3,
                m0 == m * pow(p as int, count as nat),
                count <= 13,
                m0 < 8192,
                forall|j: nat| j <= i ==> (m as nat) % #[trigger] basis_prime(j) != 0,
            decreases m,
        {
            proof {
                lemma_pow_count_bound(p as nat, count as nat, m as nat, m0 as nat);
            }
            let ghost before = m;
            assert(before % p == 0);
            m = m / p;
            count = count + 1;
            proof {
                assert(before == m * p) by {
                    assert(before % p == 0);
                    vstd::arithmetic::div_mod::lemma_fundamental_div_mod(before as int, p as int);
                    vstd::arithmetic::mul::lemma_mul_is_commutative(m as int, p as int);
                }
                assert(m0 == m * pow(p as int, count as nat)) by {
                    reveal(pow);
                    vstd::arithmetic::mul::lemma_mul_is_associative(m as int, p as int, pow(p as int, (count - 1) as nat));
                }
                assert(m >= 1) by (nonlinear_arith)
                    requires before >= 1, before == m * p, p >= 3;
                assert(m < before) by (nonlinear_arith)
                    requires before >= 1, before == m * p, p >= 3;
                assert forall|j: nat| j <= i implies (m as nat) % #[trigger] basis_prime(j) != 0 by {
                    lemma_basis_prime(j, j);
                    lemma_not_divides(before as nat, m as nat, p as nat, basis_prime(j));
                }
            }
        }
        proof {
            lemma_basis_prime(i as nat + 1, i as nat + 1);
            assert(basis_prime(i as nat + 1) == p);
            assert forall|j: nat| j <= i + 1 implies (m as nat) % #[trigger] basis_prime(j) != 0 by {
                if j == i + 1 {
                    assert(basis_prime(j) == p);
                }
            }
        }
        if count > 0 {
            let ghost old_f = f@;
            f.push(((i + 1) as u16, count));
            proof {
                assert forall|k: int, j: nat|
                    #![trigger factors_product(f@.skip(k)), basis_prime(j)]
                    0 <= k < f.len() && j < f[k].0 implies ((factors_product(f@.skip(k)) * m) as nat)
                        % basis_prime(j) != 0 by {
                    let e = ((i + 1) as u16, count);
                    vstd::arithmetic::power::lemma_pow_positive(p as int, count as nat);
                    if k < old_f.len() {
                        assert(f@.skip(k) =~= old_f.skip(k).push(e));
                        assert(f@.skip(k).drop_last() =~= old_f.skip(k));
                        let a = factors_product(old_f.skip(k)) as int;
                        let y = pow(p as int, count as nat);
                        assert(f@.skip(k).last() == e);
                        assert(((e.0 - 1) as nat) == i as nat);
                        assert(factors_product(f@.skip(k)) == a * y);
                        assert(a * y * m == a * m0) by (nonlinear_arith)
                            requires
                                m0 == m * y,
                        ;
                    } else {
                        assert(f@.skip(k) =~= seq![e]);
                        assert(f@.skip(k).drop_last() =~= Seq::<(u16, u16)>::empty());
                        assert(f@.skip(k).last() == e);
                        assert(((e.0 - 1) as nat) == i as nat);
                        assert(factors_product(Seq::<(u16, u16)>::empty()) == 1);
                        assert(factors_product(f@.skip(k)) == 1 * pow(p as int, count as nat));
                        assert(pow(p as int, count as nat) * m == m0) by (nonlinear_arith)
                            requires
                                m0 == m * pow(p as int, count as nat),
                        ;
                    }
                }
                assert(f@.drop_last() == old_f);
                assert(factors_product(f@) == factors_product(old_f) * pow(p as int, count as nat) as nat);
                vstd::arithmetic::power::lemma_pow_positive(p as int, count as nat);
                assert(factors_product(f@) * m == n) by (nonlinear_arith)
                    requires
                        factors_product(f@) == factors_product(old_f) * pow(p as int, count as nat),
                        factors_product(old_f) * m0 == n,
                        m0 == m * pow(p as int, count as nat),
                ;
            }
        }
        if i + 1 < NUM_ODD_PRIMES {
            p = next_odd_prime(i, p);
        }
        i = i + 1;
    }
    if m == 1 {
        proof {
            assert forall|k: int, j: nat|
                #![trigger factors_product(f@.skip(k)), basis_prime(j)]
                0 <= k < f.len() && j < f[k].0 implies factors_product(f@.skip(k)) % basis_prime(j)
                    != 0 by {
                assert(factors_product(f@.skip(k)) * m == factors_product(f@.skip(k)));
            }
        }
        Some(f)
    } else {
        proof {
            lemma_prime_divisor(m as nat);
            let q = choose|q: nat| is_prime(q) && (m as nat) % q == 0;
            lemma_divides_multiple(m as nat, q, factors_product(f@));
            assert forall|i: nat| i < NUM_ODD_PRIMES implies #[trigger] odd_prime(i) != q by {
                assert(basis_prime(i + 1) == odd_prime(i));
                assert((m as nat) % basis_prime(i + 1) != 0);
            }
        }
        None
    }
}

/// Every number above one has a prime divisor.
pub proof fn lemma_prime_divisor(m: nat)
    requires
        m >= 2,
    ensures
        exists|q: nat| is_prime(q) && m % q == 0,
    decreases m,
{
    if is_prime(m) {
        vstd::arithmetic::div_mod::lemma_mod_self_0(m as int);
        assert(is_prime(m) && m % m == 0);
    } else {
        let d = choose|d: nat| 2 <= d < m && #[trigger] (m % d) == 0;
        lemma_prime_divisor(d);
        let q = choose|q: nat| is_prime(q) && d % q == 0;
        vstd::arithmetic::div_mod::lemma_fundamental_div_mod(m as int, d as int);
        lemma_divides_multiple(d, q, m / d);
        vstd::arithmetic::mul::lemma_mul_is_commutative(d as int, (m / d) as int);
        assert(is_prime(q) && m % q == 0);
    }
}

/// A divisor of `a` divides `a * k`.
proof fn lemma_divides_multiple(a: nat, q: nat, k: nat)
    requires
        q > 0,
        a % q == 0,
    ensures
        (k * a) % q == 0,
        (a * k) % q == 0,
{
    vstd::arithmetic::div_mod::lemma_fundamental_div_mod(a as int, q as int);
    let c = a / q;
    assert(k * a == (k * c) * q && a * k == (k * c) * q) by (nonlinear_arith)
        requires
            a == q * c,
    ;
    vstd::arithmetic::div_mod::lemma_mod_multiples_basic((k * c) as int, q as int);
}

/// A number that `q` doesn't divide has no factor that `q` divides.
proof fn lemma_not_divides(nb: nat, n: nat, p: nat, q: nat)
    requires
        nb == n * p,
        nb % q != 0,
        q > 0,
    ensures
        n % q != 0,
{
    if n % q == 0 {
        vstd::arithmetic::div_mod::lemma_fundamental_div_mod(n as int, q as int);
        let k = n / q;
        assert(nb == q * (k * p)) by (nonlinear_arith)
            requires
                nb == n * p,
                n == q * k,
        ;
        vstd::arithmetic::div_mod::lemma_mod_multiples_basic((k * p) as int, q as int);
        vstd::arithmetic::mul::lemma_mul_is_commutative(q as int, (k * p) as int);
    }
}

/// A power of `p >= 3` that divides a number below 8192 has an exponent of
/// at most 12, so one more factor keeps the exponent below 14.
proof fn lemma_pow_count_bound(p: nat, count: nat, m: nat, m0: nat)
    requires
        p >= 3,
        m >= 1,
        m0 == m * pow(p as int, count),
        m0 < 8192,
    ensures
        count <= 12,
{
    if count > 12 {
        vstd::arithmetic::power::lemma_pow_increases(p, 13, count);
        vstd::arithmetic::power::lemma_pow_increases(3, 13, count);
        assert(pow(3, 13) == 1594323) by {
            reveal_with_fuel(pow, 14);
        }
        assert(pow(p as int, 13) >= pow(3, 13)) by {
            lemma_pow_base_increases(3, p, 13);
        }
        assert(m * pow(p as int, count) >= pow(p as int, count)) by (nonlinear_arith)
            requires m >= 1, pow(p as int, count) >= 0;
    }
}

/// `a^e <= b^e` when `a <= b`.
pub(crate) proof fn lemma_pow_base_increases(a: nat, b: nat, e: nat)
    requires
        a <= b,
    ensures
        pow(a as int, e) <= pow(b as int, e),
    decreases e,
{
    reveal(pow);
    if e > 0 {
        lemma_pow_base_increases(a, b, (e - 1) as nat);
        if a > 0 {
            lemma_pow_positive(a as int, (e - 1) as nat);
        } else if e > 1 {
            lemma0_pow((e - 1) as nat);
        } else {
            lemma_pow0(0);
        }
        assert(a * pow(a as int, (e - 1) as nat) <= b * pow(b as int, (e - 1) as nat)) by (nonlinear_arith)
            requires
                a <= b,
                0 <= pow(a as int, (e - 1) as nat) <= pow(b as int, (e - 1) as nat),
        ;
    }
}

/// Magic divider constants for the odd primes of the table that fit in 16
/// bits, to divide u16 integers: entry `i` is the multiplier of
/// `OddDivider::<u16>::for_divisor(odd_prime(i))`.
pub fn odd_prime_dividers_u16() -> (v: Vec<u16>)
    ensures
        v.len() <= NUM_ODD_PRIMES,
        forall|i: int| 0 <= i < v.len() ==> odd_prime(i as nat) <= u16::MAX && v[i]
            == magic_multiplier(16, odd_prime(i as nat), floor_log2(odd_prime(i as nat))),
        v.len() < NUM_ODD_PRIMES ==> odd_prime(v.len() as nat) > u16::MAX,
{
    let primes = odd_primes();
    assert forall|j: int| 0 <= j < primes.len() implies #[trigger] odd_prime(j as nat) <= u16::MAX by {
        assert(primes[j] == odd_prime(j as nat));
    }
    let mut v: Vec<u16> = Vec::new();
    let mut i: usize = 0;
    while i < primes.len()
        invariant
            i <= primes.len() <= NUM_ODD_PRIMES,
            v.len() == i,
            forall|j: int| 0 <= j < primes.len() ==> primes[j] == odd_prime(j as nat),
            forall|j: int| 0 <= j < primes.len() ==> #[trigger] odd_prime(j as nat) <= u16::MAX,
            forall|j: int| 0 <= j < v.len() ==> v[j] == magic_multiplier(
                16,
                odd_prime(j as nat),
                floor_log2(odd_prime(j as nat)),
            ),
        decreases primes.len() - i,
    {
        proof {
            lemma_odd_prime_bounds(i as nat);
        }
        let divider = OddDivider::<u16>::for_divisor(primes[i] as u16);
        proof {
            assert(divider.multiplier as nat == divider.multiplier.value());
            assert(divider.divisor.value() == odd_prime(i as nat));
        }
        let ghost old_v = v@;
        v.push(divider.multiplier);
        proof {
            assert forall|j: int| 0 <= j < v.len() implies v[j]
                == magic_multiplier(16, odd_prime(j as nat), floor_log2(odd_prime(j as nat))) by {
                if j < i {
                    assert(v[j] == old_v[j]);
                } else {
                    assert(primes[j] == odd_prime(j as nat));
                }
            }
        }
        i = i + 1;
    }
    v
}

/// Magic divider constants for the odd primes of the table that fit in 16
/// bits, to divide u32 integers: entry `i` is the multiplier of
/// `OddDivider::<u32>::for_divisor(odd_prime(i))`.
pub fn odd_prime_dividers_u32() -> (v: Vec<u32>)
    ensures
        v.len() <= NUM_ODD_PRIMES,
        forall|i: int| 0 <= i < v.len() ==> odd_prime(i as nat) <= u16::MAX && v[i]
            == magic_multiplier(32, odd_prime(i as nat), floor_log2(odd_prime(i as nat))),
        v.len() < NUM_ODD_PRIMES ==> odd_prime(v.len() as nat) > u16::MAX,
{
    let primes = odd_primes();
    assert forall|j: int| 0 <= j < primes.len() implies #[trigger] odd_prime(j as nat) <= u16::MAX by {
        assert(primes[j] == odd_prime(j as nat));
    }
    let mut v: Vec<u32> = Vec::new();
    let mut i: usize = 0;
    while i < primes.len()
        invariant
            i <= primes.len() <= NUM_ODD_PRIMES,
            v.len() == i,
            forall|j: int| 0 <= j < primes.len() ==> primes[j] == odd_prime(j as nat),
            forall|j: int| 0 <= j < primes.len() ==> #[trigger] odd_prime(j as nat) <= u16::MAX,
            forall|j: int| 0 <= j < v.len() ==> v[j] == magic_multiplier(
                32,
                odd_prime(j as nat),
                floor_log2(odd_prime(j as nat)),
            ),
        decreases primes.len() - i,
    {
        proof {
            lemma_odd_prime_bounds(i as nat);
        }
        let divider = OddDivider::<u32>::for_divisor(primes[i] as u32);
        proof {
            assert(divider.multiplier as nat == divider.multiplier.value());
            assert(divider.divisor.value() == odd_prime(i as nat));
        }
        let ghost old_v = v@;
        v.push(divider.multiplier);
        proof {
            assert forall|j: int| 0 <= j < v.len() implies v[j]
                == magic_multiplier(32, odd_prime(j as nat), floor_log2(odd_prime(j as nat))) by {
                if j < i {
                    assert(v[j] == old_v[j]);
                } else {
                    assert(primes[j] == odd_prime(j as nat));
                }
            }
        }
        i = i + 1;
    }
    v
}

/// Magic divider constants for the odd primes of the table that fit in 16
/// bits, to divide u64 integers: entry `i` is the multiplier of
/// `OddDivider::<u64>::for_divisor(odd_prime(i))`.
pub fn odd_prime_dividers_u64() -> (v: Vec<u64>)
    ensures
        v.len() <= NUM_ODD_PRIMES,
        forall|i: int| 0 <= i < v.len() ==> odd_prime(i as nat) <= u16::MAX && v[i]
            == magic_multiplier(64, odd_prime(i as nat), floor_log2(odd_prime(i as nat))),
        v.len() < NUM_ODD_PRIMES ==> odd_prime(v.len() as nat) > u16::MAX,
{
    let primes = odd_primes();
    assert forall|j: int| 0 <= j < primes.len() implies #[trigger] odd_prime(j as nat) <= u16::MAX by {
        assert(primes[j] == odd_prime(j as nat));
    }
    let mut v: Vec<u64> = Vec::new();
    let mut i: usize = 0;
    while i < primes.len()
        invariant
            i <= primes.len() <= NUM_ODD_PRIMES,
            v.len() == i,
            forall|j: int| 0 <= j < primes.len() ==> primes[j] == odd_prime(j as nat),
            forall|j: int| 0 <= j < primes.len() ==> #[trigger] odd_prime(j as nat) <= u16::MAX,
            forall|j: int| 0 <= j < v.len() ==> v[j] == magic_multiplier(
                64,
                odd_prime(j as nat),
                floor_log2(odd_prime(j as nat)),
            ),
        decreases primes.len() - i,
    {
        proof {
            lemma_odd_prime_bounds(i as nat);
        }
        let divider = OddDivider::<u64>::for_divisor(primes[i] as u64);
        proof {
            assert(divider.multiplier as nat == divider.multiplier.value());
            assert(divider.divisor.value() == odd_prime(i as nat));
        }
        let ghost old_v = v@;
        v.push(divider.multiplier);
        proof {
            assert forall|j: int| 0 <= j < v.len() implies v[j]
                == magic_multiplier(64, odd_prime(j as nat), floor_log2(odd_prime(j as nat))) by {
                if j < i {
                    assert(v[j] == old_v[j]);
                } else {
                    assert(primes[j] == odd_prime(j as nat));
                }
            }
        }
        i = i + 1;
    }
    v
}

} // verus!
