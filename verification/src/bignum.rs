//! Arbitrary-precision natural numbers and integers, held as plain digit
//! vectors and computed on by the `num-bigint` crate.
use vstd::arithmetic::power::pow;
use vstd::arithmetic::power2::pow2;
use crate::util::OddDivider;
use vstd::prelude::*;

verus! {

/// The value of a little-endian sequence of base-2^32 digits.
pub open spec fn digits_value(s: Seq<u32>) -> nat
    decreases s.len(),
{
    if s.len() == 0 {
        0
    } else {
        s[0] as nat + pow2(32) * digits_value(s.drop_first())
    }
}

/// Absolute value of an integer.
pub open spec fn abs(x: int) -> nat {
    if x < 0 {
        (-x) as nat
    } else {
        x as nat
    }
}

/// Quotient of the division of `a` by `b`, rounded towards zero.
pub open spec fn trunc_div(a: int, b: int) -> int {
    if (a < 0) == (b < 0) {
        (abs(a) / abs(b)) as int
    } else {
        -((abs(a) / abs(b)) as int)
    }
}

/// Greatest common divisor, with `gcd(a, 0) == a`.
pub open spec fn gcd(a: nat, b: nat) -> nat
    decreases b,
{
    if b == 0 {
        a
    } else {
        gcd(b, a % b)
    }
}

/// `d` divides `n`.
pub open spec fn divides(d: int, n: int) -> bool {
    exists|k: int| n == #[trigger] (k * d)
}

/// The greatest common divisor divides both numbers, and is positive when
/// one of them is.
pub proof fn lemma_gcd_divides(a: nat, b: nat)
    ensures
        (a > 0 || b > 0) ==> gcd(a, b) > 0,
        gcd(a, b) > 0 ==> a % gcd(a, b) == 0 && b % gcd(a, b) == 0,
    decreases b,
{
    if b > 0 {
        lemma_gcd_divides(b, a % b);
        let g = gcd(b, a % b);
        vstd::arithmetic::div_mod::lemma_mod_pos_bound(a as int, b as int);
        if g > 0 {
            vstd::arithmetic::div_mod::lemma_fundamental_div_mod(a as int, b as int);
            // a == b * (a / b) + a % b, with g dividing b and a % b
            let qb = b / g;
            let qr = (a % b) / g;
            vstd::arithmetic::div_mod::lemma_fundamental_div_mod(b as int, g as int);
            vstd::arithmetic::div_mod::lemma_fundamental_div_mod((a % b) as int, g as int);
            assert(a == g * (qb * (a / b) + qr)) by (nonlinear_arith)
                requires
                    a == b * (a / b) + a % b,
                    b == g * qb,
                    a % b == g * qr,
            ;
            vstd::arithmetic::div_mod::lemma_mod_multiples_basic((qb * (a / b) + qr) as int, g as int);
            vstd::arithmetic::mul::lemma_mul_is_commutative(g as int, (qb * (a / b) + qr) as int);
        }
    } else {
        if a > 0 {
            vstd::arithmetic::div_mod::lemma_mod_self_0(a as int);
            vstd::arithmetic::div_mod::lemma_small_mod(0, a);
        }
    }
}

/// Scaling both numbers scales their greatest common divisor.
pub proof fn lemma_gcd_scale(a: nat, b: nat, k: nat)
    ensures
        gcd(k * a, k * b) == k * gcd(a, b),
    decreases b,
{
    if b == 0 {
        assert(k * b == 0) by (nonlinear_arith)
            requires
                b == 0,
        ;
    } else if k == 0 {
        assert(k * a == 0 && k * b == 0) by (nonlinear_arith)
            requires
                k == 0,
        ;
        assert(gcd(0, 0) == 0);
        assert(k * gcd(a, b) == 0) by (nonlinear_arith)
            requires
                k == 0,
        ;
    } else {
        let q = a / b;
        let r = a % b;
        vstd::arithmetic::div_mod::lemma_fundamental_div_mod(a as int, b as int);
        vstd::arithmetic::div_mod::lemma_mod_pos_bound(a as int, b as int);
        assert(k * a == q * (k * b) + k * r) by (nonlinear_arith)
            requires
                a == b * q + r,
        ;
        assert(0 <= k * r < k * b) by (nonlinear_arith)
            requires
                0 <= r < b,
                k > 0,
        ;
        assert(k * b > 0) by (nonlinear_arith)
            requires
                k > 0,
                b > 0,
        ;
        vstd::arithmetic::div_mod::lemma_fundamental_div_mod_converse(
            (k * a) as int,
            (k * b) as int,
            q as int,
            (k * r) as int,
        );
        lemma_gcd_scale(b, r, k);
    }
}

/// A common divisor divides the greatest common divisor.
pub proof fn lemma_common_divisor(a: nat, b: nat, d: nat)
    requires
        d > 0,
        a % d == 0,
        b % d == 0,
    ensures
        gcd(a, b) % d == 0,
    decreases b,
{
    if b > 0 {
        vstd::arithmetic::div_mod::lemma_fundamental_div_mod(a as int, b as int);
        vstd::arithmetic::div_mod::lemma_fundamental_div_mod(a as int, d as int);
        vstd::arithmetic::div_mod::lemma_fundamental_div_mod(b as int, d as int);
        let r = a % b;
        let x = a / d;
        let y = b / d;
        let q = a / b;
        assert(r == d * (x - y * q)) by (nonlinear_arith)
            requires
                a == b * q + r,
                a == d * x,
                b == d * y,
        ;
        vstd::arithmetic::div_mod::lemma_mod_multiples_basic(x - y * q, d as int);
        vstd::arithmetic::mul::lemma_mul_is_commutative(d as int, x - y * q);
        lemma_common_divisor(b, r, d);
    }
}

/// Dividing two numbers, one of them positive, by their greatest common
/// divisor leaves coprime numbers.
pub proof fn lemma_gcd_coprime_quotients(a: nat, b: nat)
    requires
        a > 0 || b > 0,
    ensures
        gcd(a / gcd(a, b), b / gcd(a, b)) == 1,
{
    let g = gcd(a, b);
    lemma_gcd_divides(a, b);
    vstd::arithmetic::div_mod::lemma_fundamental_div_mod(a as int, g as int);
    vstd::arithmetic::div_mod::lemma_fundamental_div_mod(b as int, g as int);
    let x = a / g;
    let y = b / g;
    lemma_gcd_scale(x, y, g);
    assert(g * gcd(x, y) == g);
    assert(gcd(x, y) == 1) by (nonlinear_arith)
        requires
            g * gcd(x, y) == g,
            g > 0,
    ;
}

/// A factor of a number coprime with `a` is coprime with `a`.
pub proof fn lemma_coprime_factor(a: nat, c: nat, m: nat)
    requires
        a > 0,
        gcd(a, c * m) == 1,
    ensures
        gcd(a, c) == 1,
{
    let d = gcd(a, c);
    lemma_gcd_divides(a, c);
    vstd::arithmetic::div_mod::lemma_fundamental_div_mod(c as int, d as int);
    let y = c / d;
    assert(c * m == d * (y * m)) by (nonlinear_arith)
        requires
            c == d * y,
    ;
    vstd::arithmetic::div_mod::lemma_mod_multiples_basic((y * m) as int, d as int);
    vstd::arithmetic::mul::lemma_mul_is_commutative(d as int, (y * m) as int);
    lemma_common_divisor(a, c * m, d);
    assert(1nat % d == 0);
    if d > 1 {
        vstd::arithmetic::div_mod::lemma_small_mod(1, d);
    }
}

/// One is coprime with every number.
pub proof fn lemma_gcd_one(x: nat)
    ensures
        gcd(1, x) == 1,
{
    if x > 1 {
        vstd::arithmetic::div_mod::lemma_small_mod(1, x);
        assert(gcd(1, x) == gcd(x, 1));
        assert(x % 1 == 0);
        assert(gcd(x, 1) == gcd(1, 0));
    } else if x == 1 {
        assert(gcd(1, 1) == gcd(1, 0));
    }
}

/// Least common multiple of two positive numbers.
pub open spec fn lcm(a: nat, b: nat) -> nat {
    a * (b / gcd(a, b))
}

/// The least common multiple of two positive numbers: both divide it by
/// the cofactor that the other lacks, and it is the number itself when the
/// other is one or the same.
pub proof fn lemma_lcm(a: nat, b: nat)
    requires
        a >= 1,
        b >= 1,
    ensures
        gcd(a, b) >= 1,
        a % gcd(a, b) == 0,
        b % gcd(a, b) == 0,
        b / gcd(a, b) >= 1,
        (a / gcd(a, b)) * b == lcm(a, b),
        lcm(a, b) >= a,
        a == 1 ==> lcm(a, b) == b,
        b == 1 ==> lcm(a, b) == a,
        a == b ==> lcm(a, b) == a,
{
    let g = gcd(a, b);
    lemma_gcd_divides(a, b);
    vstd::arithmetic::div_mod::lemma_fundamental_div_mod(a as int, g as int);
    vstd::arithmetic::div_mod::lemma_fundamental_div_mod(b as int, g as int);
    let x = a / g;
    let y = b / g;
    assert(y >= 1) by (nonlinear_arith)
        requires
            b == g * y,
            b >= 1,
            y >= 0,
    ;
    assert(x * b == a * y) by (nonlinear_arith)
        requires
            a == g * x,
            b == g * y,
    ;
    assert(a * y >= a) by (nonlinear_arith)
        requires
            y >= 1,
    ;
    if a == 1 {
        lemma_gcd_one(b);
        vstd::arithmetic::div_mod::lemma_div_basics(b as int);
    }
    if b == 1 {
        assert(a % 1 == 0);
        assert(gcd(a, 1) == gcd(1, 0));
        vstd::arithmetic::div_mod::lemma_div_basics(1);
    }
    if a == b {
        vstd::arithmetic::div_mod::lemma_mod_self_0(a as int);
        assert(gcd(a, a) == gcd(a, 0));
        vstd::arithmetic::div_mod::lemma_div_by_self(a as int);
    }
}

/// The absolute value of a product by a positive number.
pub proof fn lemma_abs_mul(x: int, p: int)
    requires
        p > 0,
    ensures
        abs(x * p) == abs(x) * p,
{
    if x >= 0 {
        assert(x * p >= 0) by (nonlinear_arith)
            requires
                x >= 0,
                p > 0,
        ;
    } else {
        assert(x * p < 0 && -(x * p) == (-x) * p) by (nonlinear_arith)
            requires
                x < 0,
                p > 0,
        ;
    }
}

/// The absolute value of a truncated quotient by a positive number.
pub proof fn lemma_abs_trunc_div(n: int, g: int)
    requires
        g > 0,
    ensures
        abs(trunc_div(n, g)) == abs(n) / (g as nat),
{
}

/// Truncated division by a divisor of the absolute value is exact.
pub proof fn lemma_trunc_div_exact(n: int, g: nat)
    requires
        g > 0,
        abs(n) % g == 0,
    ensures
        trunc_div(n, g as int) * g == n,
{
    vstd::arithmetic::div_mod::lemma_fundamental_div_mod(abs(n) as int, g as int);
    vstd::arithmetic::mul::lemma_mul_is_commutative(g as int, abs(n) as int / g as int);
    if n < 0 {
        vstd::arithmetic::mul::lemma_mul_unary_negation(abs(n) as int / g as int, g as int);
    }
}

/// A nonzero remainder of the truncated division means `p` doesn't divide `n`.
pub proof fn lemma_trunc_div_rem(n: int, p: int)
    requires
        p > 0,
        n - trunc_div(n, p) * p != 0,
    ensures
        n % p != 0,
{
    if n % p == 0 {
        vstd::arithmetic::div_mod::lemma_fundamental_div_mod(n, p);
        if n < 0 {
            vstd::arithmetic::mul::lemma_mul_unary_negation(p, n / p);
            assert(abs(n) == p * (-(n / p)));
            vstd::arithmetic::div_mod::lemma_mod_multiples_basic(-(n / p), p);
            vstd::arithmetic::mul::lemma_mul_is_commutative(p, -(n / p));
        } else {
            assert(abs(n) == n);
        }
        lemma_trunc_div_exact(n, p as nat);
    }
}

/// An arbitrary-precision natural number: its base-2^32 digits, least
/// significant first.
#[derive(Debug, PartialEq, Eq)]
pub struct Natural {
    digits: Vec<u32>,
}

impl View for Natural {
    type V = nat;

    closed spec fn view(&self) -> nat {
        digits_value(self.digits@)
    }
}

/// An arbitrary-precision integer: a sign and a magnitude, the sign set
/// only on a nonzero magnitude. `num-bigint` keeps the same rule (a `BigInt`
/// of zero has no sign, `BigInt::from_biguint`), so the integers converted
/// from its results keep it too.
#[derive(Debug, PartialEq, Eq)]
pub struct Integer {
    negative: bool,
    magnitude: Natural,
}

impl View for Integer {
    type V = int;

    closed spec fn view(&self) -> int {
        if self.negative {
            -(self.magnitude@ as int)
        } else {
            self.magnitude@ as int
        }
    }
}

/// `BigUint::from(u128)`: the natural number `x`.
#[verifier::external_body]
fn big_from_u128(x: u128) -> (r: Natural)
    ensures
        r@ == x,
{
    Natural { digits: num_bigint::BigUint::from(x).to_u32_digits() }
}

/// `BigUint::from_slice`: the natural number of little-endian base-2^32 digits.
#[verifier::external_body]
fn big_from_slice(digits: &[u32]) -> (r: Natural)
    ensures
        r@ == digits_value(digits@),
{
    Natural { digits: num_bigint::BigUint::from_slice(digits).to_u32_digits() }
}

/// `ToPrimitive::to_u128` on a `BigUint` that fits in 128 bits.
#[verifier::external_body]
fn big_to_u128(a: &Natural) -> (r: u128)
    requires
        a@ < pow2(128),
    ensures
        r == a@,
{
    match num_traits::ToPrimitive::to_u128(&num_bigint::BigUint::from_slice(&a.digits)) {
        Some(v) => v,
        None => 0,
    }
}

/// `BigUint + BigUint`.
#[verifier::external_body]
fn big_add(a: &Natural, b: &Natural) -> (r: Natural)
    ensures
        r@ == a@ + b@,
{
    let x = num_bigint::BigUint::from_slice(&a.digits) + num_bigint::BigUint::from_slice(&b.digits);
    Natural { digits: x.to_u32_digits() }
}

/// `BigUint * BigUint`.
#[verifier::external_body]
fn big_mul(a: &Natural, b: &Natural) -> (r: Natural)
    ensures
        r@ == a@ * b@,
{
    let x = num_bigint::BigUint::from_slice(&a.digits) * num_bigint::BigUint::from_slice(&b.digits);
    Natural { digits: x.to_u32_digits() }
}

/// `BigUint::pow`.
#[verifier::external_body]
fn big_pow(a: &Natural, e: u32) -> (r: Natural)
    ensures
        r@ == pow(a@ as int, e as nat),
{
    let x = num_bigint::BigUint::from_slice(&a.digits).pow(e);
    Natural { digits: x.to_u32_digits() }
}

/// `Integer::div_rem` on `BigUint`, which panics on a zero divisor.
#[verifier::external_body]
fn big_div_rem(a: &Natural, b: &Natural) -> (r: (Natural, Natural))
    requires
        b@ > 0,
    ensures
        r.0@ == a@ / b@,
        r.1@ == a@ % b@,
{
    let (q, m) = num_integer::Integer::div_rem(
        &num_bigint::BigUint::from_slice(&a.digits),
        &num_bigint::BigUint::from_slice(&b.digits),
    );
    (Natural { digits: q.to_u32_digits() }, Natural { digits: m.to_u32_digits() })
}

/// `BigUint / BigUint`, which panics on a zero divisor.
#[verifier::external_body]
fn big_div(a: &Natural, b: &Natural) -> (r: Natural)
    requires
        b@ > 0,
    ensures
        r@ == a@ / b@,
{
    let x = num_bigint::BigUint::from_slice(&a.digits) / num_bigint::BigUint::from_slice(&b.digits);
    Natural { digits: x.to_u32_digits() }
}

/// `Integer::gcd` on `BigUint`.
#[verifier::external_body]
fn big_gcd(a: &Natural, b: &Natural) -> (r: Natural)
    ensures
        r@ == gcd(a@, b@),
{
    let x = num_integer::Integer::gcd(
        &num_bigint::BigUint::from_slice(&a.digits),
        &num_bigint::BigUint::from_slice(&b.digits),
    );
    Natural { digits: x.to_u32_digits() }
}

/// `BigUint == BigUint`.
#[verifier::external_body]
fn big_eq(a: &Natural, b: &Natural) -> (r: bool)
    ensures
        r == (a@ == b@),
{
    num_bigint::BigUint::from_slice(&a.digits) == num_bigint::BigUint::from_slice(&b.digits)
}

/// `BigUint < BigUint`.
#[verifier::external_body]
fn big_lt(a: &Natural, b: &Natural) -> (r: bool)
    ensures
        r == (a@ < b@),
{
    num_bigint::BigUint::from_slice(&a.digits) < num_bigint::BigUint::from_slice(&b.digits)
}

/// `Zero::is_zero` on `BigUint`.
#[verifier::external_body]
fn big_is_zero(a: &Natural) -> (r: bool)
    ensures
        r == (a@ == 0),
{
    num_traits::Zero::is_zero(&num_bigint::BigUint::from_slice(&a.digits))
}

/// `One::is_one` on `BigUint`.
#[verifier::external_body]
fn big_is_one(a: &Natural) -> (r: bool)
    ensures
        r == (a@ == 1),
{
    num_traits::One::is_one(&num_bigint::BigUint::from_slice(&a.digits))
}

/// `BigUint::trailing_zeros` of a nonzero natural: the exponent of the largest
/// power of two that divides it.
#[verifier::external_body]
fn big_trailing_zeros(a: &Natural) -> (r: u64)
    requires
        a@ > 0,
    ensures
        a@ % pow2(r as nat) == 0,
        (a@ / pow2(r as nat)) % 2 == 1,
{
    match num_bigint::BigUint::from_slice(&a.digits).trailing_zeros() {
        Some(n) => n,
        None => 0,
    }
}

/// `BigUint >> u64`.
#[verifier::external_body]
fn big_shr(a: &Natural, n: u64) -> (r: Natural)
    ensures
        r@ == a@ / pow2(n as nat),
{
    let x = num_bigint::BigUint::from_slice(&a.digits) >> n;
    Natural { digits: x.to_u32_digits() }
}

/// `BigUint << u64`.
#[verifier::external_body]
fn big_shl(a: &Natural, n: u64) -> (r: Natural)
    ensures
        r@ == a@ * pow2(n as nat),
{
    let x = num_bigint::BigUint::from_slice(&a.digits) << n;
    Natural { digits: x.to_u32_digits() }
}

/// `BigUint::bits`: the number of bits needed to write the natural.
#[verifier::external_body]
fn big_bits(a: &Natural) -> (r: u64)
    ensures
        a@ < pow2(r as nat),
        r > 0 ==> pow2((r - 1) as nat) <= a@,
{
    num_bigint::BigUint::from_slice(&a.digits).bits()
}

/// `BigInt + BigInt`.
#[verifier::external_body]
fn int_add(a: &Integer, b: &Integer) -> (r: Integer)
    ensures
        r@ == a@ + b@,
{
    let sa = if a.negative { num_bigint::Sign::Minus } else { num_bigint::Sign::Plus };
    let sb = if b.negative { num_bigint::Sign::Minus } else { num_bigint::Sign::Plus };
    let x = num_bigint::BigInt::from_biguint(sa, num_bigint::BigUint::from_slice(&a.magnitude.digits))
        + num_bigint::BigInt::from_biguint(sb, num_bigint::BigUint::from_slice(&b.magnitude.digits));
    let (s, m) = x.into_parts();
    Integer { negative: s == num_bigint::Sign::Minus, magnitude: Natural { digits: m.to_u32_digits() } }
}

/// `BigInt - BigInt`.
#[verifier::external_body]
fn int_sub(a: &Integer, b: &Integer) -> (r: Integer)
    ensures
        r@ == a@ - b@,
{
    let sa = if a.negative { num_bigint::Sign::Minus } else { num_bigint::Sign::Plus };
    let sb = if b.negative { num_bigint::Sign::Minus } else { num_bigint::Sign::Plus };
    let x = num_bigint::BigInt::from_biguint(sa, num_bigint::BigUint::from_slice(&a.magnitude.digits))
        - num_bigint::BigInt::from_biguint(sb, num_bigint::BigUint::from_slice(&b.magnitude.digits));
    let (s, m) = x.into_parts();
    Integer { negative: s == num_bigint::Sign::Minus, magnitude: Natural { digits: m.to_u32_digits() } }
}

/// `BigInt * BigInt`.
#[verifier::external_body]
fn int_mul(a: &Integer, b: &Integer) -> (r: Integer)
    ensures
        r@ == a@ * b@,
{
    let sa = if a.negative { num_bigint::Sign::Minus } else { num_bigint::Sign::Plus };
    let sb = if b.negative { num_bigint::Sign::Minus } else { num_bigint::Sign::Plus };
    let x = num_bigint::BigInt::from_biguint(sa, num_bigint::BigUint::from_slice(&a.magnitude.digits))
        * num_bigint::BigInt::from_biguint(sb, num_bigint::BigUint::from_slice(&b.magnitude.digits));
    let (s, m) = x.into_parts();
    Integer { negative: s == num_bigint::Sign::Minus, magnitude: Natural { digits: m.to_u32_digits() } }
}

/// `Pow<u32>` on `BigInt`.
#[verifier::external_body]
fn int_pow(a: &Integer, e: u32) -> (r: Integer)
    ensures
        r@ == pow(a@, e as nat),
{
    let sa = if a.negative { num_bigint::Sign::Minus } else { num_bigint::Sign::Plus };
    let x = num_traits::Pow::pow(
        num_bigint::BigInt::from_biguint(sa, num_bigint::BigUint::from_slice(&a.magnitude.digits)),
        e,
    );
    let (s, m) = x.into_parts();
    Integer { negative: s == num_bigint::Sign::Minus, magnitude: Natural { digits: m.to_u32_digits() } }
}

/// `Integer::div_rem` on `BigInt` with a positive divisor: the quotient is
/// rounded towards zero and the remainder takes the sign of the dividend.
#[verifier::external_body]
fn int_div_rem_nat(a: &Integer, b: &Natural) -> (r: (Integer, Integer))
    requires
        b@ > 0,
    ensures
        r.0@ == trunc_div(a@, b@ as int),
        r.1@ == a@ - r.0@ * b@,
{
    let sa = if a.negative { num_bigint::Sign::Minus } else { num_bigint::Sign::Plus };
    let (q, m) = num_integer::Integer::div_rem(
        &num_bigint::BigInt::from_biguint(sa, num_bigint::BigUint::from_slice(&a.magnitude.digits)),
        &num_bigint::BigInt::from(num_bigint::BigUint::from_slice(&b.digits)),
    );
    let ((qs, qm), (ms, mm)) = (q.into_parts(), m.into_parts());
    (
        Integer { negative: qs == num_bigint::Sign::Minus, magnitude: Natural { digits: qm.to_u32_digits() } },
        Integer { negative: ms == num_bigint::Sign::Minus, magnitude: Natural { digits: mm.to_u32_digits() } },
    )
}

/// `BigInt / BigInt` with a positive divisor, rounded towards zero.
#[verifier::external_body]
fn int_div_nat(a: &Integer, b: &Natural) -> (r: Integer)
    requires
        b@ > 0,
    ensures
        r@ == trunc_div(a@, b@ as int),
{
    let sa = if a.negative { num_bigint::Sign::Minus } else { num_bigint::Sign::Plus };
    let x = num_bigint::BigInt::from_biguint(sa, num_bigint::BigUint::from_slice(&a.magnitude.digits))
        / num_bigint::BigInt::from(num_bigint::BigUint::from_slice(&b.digits));
    let (s, m) = x.into_parts();
    Integer { negative: s == num_bigint::Sign::Minus, magnitude: Natural { digits: m.to_u32_digits() } }
}

/// `BigRational::new(numer, denom)` on a positive denominator, taken apart by
/// `into_raw`: `Ratio::reduce` divides both by their greatest common divisor
/// (the one of `|numer|` and `denom`), which leaves the denominator positive.
#[verifier::external_body]
pub(crate) fn rational_new(numer: &Integer, denom: &Natural) -> (r: (Integer, Natural))
    requires
        denom@ > 0,
    ensures
        r.0@ == trunc_div(numer@, gcd(abs(numer@), denom@) as int),
        r.1@ == denom@ / gcd(abs(numer@), denom@),
{
    let sa = if numer.negative { num_bigint::Sign::Minus } else { num_bigint::Sign::Plus };
    let x = num_rational::BigRational::new(
        num_bigint::BigInt::from_biguint(sa, num_bigint::BigUint::from_slice(&numer.magnitude.digits)),
        num_bigint::BigInt::from(num_bigint::BigUint::from_slice(&denom.digits)),
    );
    let (n, d) = x.into_raw();
    let (s, m) = n.into_parts();
    let numer = Integer { negative: s == num_bigint::Sign::Minus, magnitude: Natural { digits: m.to_u32_digits() } };
    (numer, Natural { digits: d.magnitude().to_u32_digits() })
}

impl Natural {
    /// The natural number `x`.
    pub fn from_u128(x: u128) -> (r: Natural)
        ensures
            r@ == x,
    {
        big_from_u128(x)
    }

    /// The natural number `x`.
    pub fn from_u64(x: u64) -> (r: Natural)
        ensures
            r@ == x,
    {
        big_from_u128(x as u128)
    }

    /// The natural number whose base-2^32 digits, least significant first,
    /// are `digits`.
    pub fn from_slice(digits: &[u32]) -> (r: Natural)
        ensures
            r@ == digits_value(digits@),
    {
        big_from_slice(digits)
    }

    /// Zero.
    pub fn zero() -> (r: Natural)
        ensures
            r@ == 0,
    {
        big_from_u128(0)
    }

    /// One.
    pub fn one() -> (r: Natural)
        ensures
            r@ == 1,
    {
        big_from_u128(1)
    }

    /// A copy of this natural.
    pub fn copy(&self) -> (r: Natural)
        ensures
            r@ == self@,
    {
        big_from_slice(self.digits.as_slice())
    }

    /// The value, which must fit in 128 bits.
    pub fn to_u128(&self) -> (r: u128)
        requires
            self@ < pow2(128),
        ensures
            r == self@,
    {
        big_to_u128(self)
    }

    /// Sum.
    pub fn add(&self, rhs: &Natural) -> (r: Natural)
        ensures
            r@ == self@ + rhs@,
    {
        big_add(self, rhs)
    }

    /// Product.
    pub fn mul(&self, rhs: &Natural) -> (r: Natural)
        ensures
            r@ == self@ * rhs@,
    {
        big_mul(self, rhs)
    }

    /// Power.
    pub fn pow(&self, e: u32) -> (r: Natural)
        ensures
            r@ == pow(self@ as int, e as nat),
    {
        big_pow(self, e)
    }

    /// Quotient and remainder of the division by a nonzero natural.
    pub fn div_rem(&self, rhs: &Natural) -> (r: (Natural, Natural))
        requires
            rhs@ > 0,
        ensures
            r.0@ == self@ / rhs@,
            r.1@ == self@ % rhs@,
    {
        big_div_rem(self, rhs)
    }

    /// Quotient of the division by a nonzero natural.
    pub fn div(&self, rhs: &Natural) -> (r: Natural)
        requires
            rhs@ > 0,
        ensures
            r@ == self@ / rhs@,
    {
        big_div(self, rhs)
    }

    /// Greatest common divisor.
    pub fn gcd(&self, rhs: &Natural) -> (r: Natural)
        ensures
            r@ == gcd(self@, rhs@),
    {
        big_gcd(self, rhs)
    }

    /// Equality of values.
    pub fn equals(&self, rhs: &Natural) -> (r: bool)
        ensures
            r == (self@ == rhs@),
    {
        big_eq(self, rhs)
    }

    /// Strict comparison of values.
    pub fn less_than(&self, rhs: &Natural) -> (r: bool)
        ensures
            r == (self@ < rhs@),
    {
        big_lt(self, rhs)
    }

    /// Whether this natural is zero.
    pub fn is_zero(&self) -> (r: bool)
        ensures
            r == (self@ == 0),
    {
        big_is_zero(self)
    }

    /// The remainder of the division by the divisor of a divider below
    /// 2^16, digit by digit from the most significant one.
    pub fn rem_by(&self, d: &OddDivider<u64>) -> (r: u64)
        requires
            d.is_valid(),
            d.divisor < 0x1_0000,
        ensures
            r == self@ % (d.divisor as nat),
    {
        let ghost s = self.digits@;
        let ghost p = d.divisor as nat;
        let mut acc: u64 = 0;
        let mut i: usize = self.digits.len();
        proof {
            vstd::arithmetic::power2::lemma2_to64();
            assert(s.skip(s.len() as int) =~= Seq::<u32>::empty());
            vstd::arithmetic::power2::lemma_pow2_pos(d.shift as nat);
            vstd::arithmetic::div_mod::lemma_small_mod(0, p);
        }
        while i > 0
            invariant
                s == self.digits@,
                i <= s.len(),
                d.is_valid(),
                p == d.divisor,
                2 <= p < 0x1_0000,
                acc < p,
                acc == digits_value(s.skip(i as int)) % p,
            decreases i,
        {
            i = i - 1;
            let y: u64 = acc * 0x1_0000_0000 + self.digits[i] as u64;
            let (_, r) = d.div_rem(y);
            proof {
                vstd::arithmetic::power2::lemma2_to64();
                let v = digits_value(s.skip(i + 1));
                assert(s.skip(i as int).drop_first() =~= s.skip(i + 1));
                assert(s.skip(i as int)[0] == s[i as int]);
                assert(digits_value(s.skip(i as int)) == s[i as int] + pow2(32) * v);
                vstd::arithmetic::div_mod::lemma_mul_mod_noop_right(pow2(32) as int, v as int, p as int);
                vstd::arithmetic::div_mod::lemma_add_mod_noop_right(s[i as int] as int, (pow2(32) * v) as int, p as int);
                vstd::arithmetic::div_mod::lemma_add_mod_noop_right(
                    s[i as int] as int,
                    (pow2(32) * (v % p)) as int,
                    p as int,
                );
                vstd::arithmetic::div_mod::lemma_mod_bound(y as int, p as int);
            }
            acc = r;
        }
        proof {
            assert(s.skip(0) =~= s);
        }
        acc
    }

    /// Whether this natural is one.
    pub fn is_one(&self) -> (r: bool)
        ensures
            r == (self@ == 1),
    {
        big_is_one(self)
    }

    /// The exponent of the largest power of two dividing a nonzero natural.
    pub fn trailing_zeros(&self) -> (r: u64)
        requires
            self@ > 0,
        ensures
            self@ % pow2(r as nat) == 0,
            (self@ / pow2(r as nat)) % 2 == 1,
    {
        big_trailing_zeros(self)
    }

    /// Division by `2^n`, rounded down.
    pub fn shr(&self, n: u64) -> (r: Natural)
        ensures
            r@ == self@ / pow2(n as nat),
    {
        big_shr(self, n)
    }

    /// Multiplication by `2^n`.
    pub fn shl(&self, n: u64) -> (r: Natural)
        ensures
            r@ == self@ * pow2(n as nat),
    {
        big_shl(self, n)
    }

    /// The little-endian base-2^32 digits of this natural.
    pub fn to_u32_digits(&self) -> (r: Vec<u32>)
        ensures
            digits_value(r@) == self@,
    {
        let mut v: Vec<u32> = Vec::new();
        let mut i: usize = 0;
        while i < self.digits.len()
            invariant
                i <= self.digits.len(),
                v@ == self.digits@.take(i as int),
            decreases self.digits.len() - i,
        {
            v.push(self.digits[i]);
            i = i + 1;
            assert(v@ =~= self.digits@.take(i as int));
        }
        assert(v@ =~= self.digits@);
        v
    }

    /// The number of bits of this natural.
    pub fn bits(&self) -> (r: u64)
        ensures
            self@ < pow2(r as nat),
            r > 0 ==> pow2((r - 1) as nat) <= self@,
    {
        big_bits(self)
    }
}

impl Integer {
    /// The sign is set only on a nonzero magnitude: zero is never negative.
    #[verifier::type_invariant]
    closed spec fn inv(&self) -> bool {
        self.negative ==> self.magnitude@ > 0
    }

    /// The sign that this integer carries, which `==` compares.
    pub closed spec fn sign_flag(&self) -> bool {
        self.negative
    }

    /// Negation, as [`neg`](Integer::neg) gives it, keeps zero unsigned,
    /// flips the sign of any other integer and keeps the magnitude: the
    /// negation of zero is the same integer as zero.
    pub proof fn law_negation(x: Integer, r: Integer)
        requires
            x.sign_flag() == (x@ < 0),
            r.sign_flag() == (r@ < 0),
            r@ == -x@,
        ensures
            x@ == 0 ==> !r.sign_flag() && !x.sign_flag(),
            x@ != 0 ==> r.sign_flag() == !x.sign_flag(),
            r.magnitude_view() == x.magnitude_view(),
    {
    }

    /// The integer with the given sign and magnitude; zero is never negative.
    pub fn from_natural(negative: bool, magnitude: Natural) -> (r: Integer)
        ensures
            r@ == (if negative { -(magnitude@ as int) } else { magnitude@ as int }),
            r.is_negative() == (negative && magnitude@ > 0),
            r.magnitude_view() == magnitude@,
            r.sign_flag() == (r@ < 0),
    {
        let zero = magnitude.is_zero();
        Integer { negative: negative && !zero, magnitude }
    }

    /// The integer `x`.
    pub fn from_i128(x: i128) -> (r: Integer)
        ensures
            r@ == x,
            r.sign_flag() == (r@ < 0),
    {
        if x < 0 {
            let m: u128 = if x == i128::MIN {
                0x8000_0000_0000_0000_0000_0000_0000_0000u128
            } else {
                (-x) as u128
            };
            Integer::from_natural(true, big_from_u128(m))
        } else {
            Integer::from_natural(false, big_from_u128(x as u128))
        }
    }

    /// Zero.
    pub fn zero() -> (r: Integer)
        ensures
            r@ == 0,
            r.sign_flag() == (r@ < 0),
    {
        Integer::from_natural(false, big_from_u128(0))
    }

    /// One.
    pub fn one() -> (r: Integer)
        ensures
            r@ == 1,
            r.sign_flag() == (r@ < 0),
    {
        Integer::from_natural(false, big_from_u128(1))
    }

    /// Whether the sign is negative.
    pub closed spec fn is_negative(&self) -> bool {
        self.negative && self.magnitude@ > 0
    }

    /// The magnitude.
    pub closed spec fn magnitude_view(&self) -> nat {
        self.magnitude@
    }

    /// The absolute value of an integer equals its magnitude.
    pub proof fn lemma_magnitude(&self)
        ensures
            self.magnitude_view() == abs(self@),
            self.is_negative() == (self@ < 0),
    {
    }

    /// A copy of this integer.
    pub fn copy(&self) -> (r: Integer)
        ensures
            r@ == self@,
            r.sign_flag() == (r@ < 0),
    {
        proof {
            use_type_invariant(self);
        }
        let r = Integer { negative: self.negative, magnitude: self.magnitude.copy() };
        proof {
            use_type_invariant(&r);
        }
        r
    }

    /// A copy of the magnitude (the absolute value).
    pub fn magnitude(&self) -> (r: Natural)
        ensures
            r@ == abs(self@),
    {
        self.magnitude.copy()
    }

    /// Whether the value is negative.
    pub fn negative(&self) -> (r: bool)
        ensures
            r == (self@ < 0),
    {
        self.negative && !self.magnitude.is_zero()
    }

    /// Whether the value is zero.
    pub fn is_zero(&self) -> (r: bool)
        ensures
            r == (self@ == 0),
    {
        self.magnitude.is_zero()
    }

    /// Whether the absolute value is one.
    pub fn is_unit(&self) -> (r: bool)
        ensures
            r == (abs(self@) == 1),
    {
        self.magnitude.is_one()
    }

    /// Opposite.
    pub fn neg(&self) -> (r: Integer)
        ensures
            r@ == -self@,
            r.sign_flag() == (r@ < 0),
    {
        Integer::from_natural(!self.negative, self.magnitude.copy())
    }

    /// Sum.
    pub fn add(&self, rhs: &Integer) -> (r: Integer)
        ensures
            r@ == self@ + rhs@,
            r.sign_flag() == (r@ < 0),
    {
        let r = int_add(self, rhs);
        proof {
            use_type_invariant(&r);
        }
        r
    }

    /// Difference.
    pub fn sub(&self, rhs: &Integer) -> (r: Integer)
        ensures
            r@ == self@ - rhs@,
            r.sign_flag() == (r@ < 0),
    {
        let r = int_sub(self, rhs);
        proof {
            use_type_invariant(&r);
        }
        r
    }

    /// Product.
    pub fn mul(&self, rhs: &Integer) -> (r: Integer)
        ensures
            r@ == self@ * rhs@,
            r.sign_flag() == (r@ < 0),
    {
        let r = int_mul(self, rhs);
        proof {
            use_type_invariant(&r);
        }
        r
    }

    /// Product with a natural.
    pub fn mul_natural(&self, rhs: &Natural) -> (r: Integer)
        ensures
            r@ == self@ * rhs@,
            r.sign_flag() == (r@ < 0),
    {
        let r = Integer::from_natural(false, rhs.copy());
        let p = int_mul(self, &r);
        proof {
            use_type_invariant(&p);
        }
        p
    }

    /// Power.
    pub fn pow(&self, e: u32) -> (r: Integer)
        ensures
            r@ == pow(self@, e as nat),
            r.sign_flag() == (r@ < 0),
    {
        let r = int_pow(self, e);
        proof {
            use_type_invariant(&r);
        }
        r
    }

    /// Quotient (rounded towards zero) and remainder of the division by a
    /// positive natural.
    pub fn div_rem_natural(&self, rhs: &Natural) -> (r: (Integer, Integer))
        requires
            rhs@ > 0,
        ensures
            r.0@ == trunc_div(self@, rhs@ as int),
            r.1@ == self@ - r.0@ * rhs@,
            r.0.sign_flag() == (r.0@ < 0),
            r.1.sign_flag() == (r.1@ < 0),
    {
        let r = int_div_rem_nat(self, rhs);
        proof {
            use_type_invariant(&r.0);
            use_type_invariant(&r.1);
        }
        r
    }

    /// Quotient, rounded towards zero, of the division by a positive natural.
    pub fn div_natural(&self, rhs: &Natural) -> (r: Integer)
        requires
            rhs@ > 0,
        ensures
            r@ == trunc_div(self@, rhs@ as int),
            r.sign_flag() == (r@ < 0),
    {
        let r = int_div_nat(self, rhs);
        proof {
            use_type_invariant(&r);
        }
        r
    }
}

} // verus!
