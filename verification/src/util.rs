//! Division of machine integers by a constant odd divisor, through a
//! multiplication by a precomputed "magic" multiplier and a shift.
use vstd::arithmetic::div_mod::*;
use vstd::arithmetic::mul::*;
use vstd::arithmetic::power2::*;
use vstd::prelude::*;

verus! {

/// Wrapping and widening arithmetic on unsigned machine integers of
/// `bits()` bits.
pub trait Arithmetic: Sized + Copy {
    /// Width in bits.
    spec fn bits() -> nat;

    /// The value as a natural number.
    spec fn value(self) -> nat;

    /// Values fit in the width, and the width is at least 8 bits.
    proof fn lemma_value_bound(x: Self)
        ensures
            8 <= Self::bits(),
            x.value() < pow2(Self::bits()),
    ;

    /// Sum modulo `2^bits()`.
    fn wrapping_add(self, other: Self) -> (r: Self)
        ensures
            r.value() == (self.value() + other.value()) % pow2(Self::bits()),
    ;

    /// Difference modulo `2^bits()`.
    fn wrapping_sub(self, other: Self) -> (r: Self)
        ensures
            r.value() == (self.value() - other.value()) % (pow2(Self::bits()) as int),
    ;

    /// Product modulo `2^bits()`.
    fn wrapping_mul(self, other: Self) -> (r: Self)
        ensures
            r.value() == (self.value() * other.value()) % pow2(Self::bits()),
    ;

    /// Returns (low, high) of multiplying `self` by `other`.
    fn widening_mul(self, other: Self) -> (r: (Self, Self))
        ensures
            r.0.value() + r.1.value() * pow2(Self::bits()) == self.value() * other.value(),
    ;

    /// Right shift by fewer than `bits()` bits.
    fn shr(self, n: u32) -> (r: Self)
        requires
            n < Self::bits(),
        ensures
            r.value() == self.value() / pow2(n as nat),
    ;
}

/// The multiplier that makes `OddDivider` divide by `divisor`: with
/// `2^shift < divisor < 2^(shift + 1)`, it is
/// `ceil(2^(bits + shift + 1) / divisor) - 2^bits`.
pub open spec fn magic_multiplier(bits: nat, divisor: nat, shift: nat) -> int {
    (pow2(bits + shift + 1) / divisor + 1) - pow2(bits)
}

/// Precomputed division by a constant that is not a power of two.
#[derive(Debug, Default, Clone, Copy)]
pub struct OddDivider<T> {
    /// The divisor.
    pub divisor: T,
    /// Magic multiplier to compute divisions by this divisor.
    pub multiplier: T,
    /// Shift to compute divisions by this divisor.
    pub shift: u32,
}

impl<T: Arithmetic> OddDivider<T> {
    /// The shift is the base-2 logarithm of a divisor that is not a power of
    /// two, and the multiplier is the magic multiplier for them.
    pub open spec fn is_valid(&self) -> bool {
        &&& pow2(self.shift as nat) < self.divisor.value()
        &&& self.divisor.value() < pow2(self.shift as nat + 1)
        &&& self.multiplier.value() == magic_multiplier(
            T::bits(),
            self.divisor.value(),
            self.shift as nat,
        )
    }

    // Not suitable for powers of 2 (as the shift is adjusted differently).
    #[inline(always)]
    fn div_non_power_of_two(&self, x: T) -> (q: T)
        requires
            self.is_valid(),
        ensures
            q.value() == x.value() / self.divisor.value(),
    {
        proof {
            T::lemma_value_bound(x);
            T::lemma_value_bound(self.divisor);
            T::lemma_value_bound(self.multiplier);
            lemma_shift_below_bits(self.divisor.value(), self.shift as nat, T::bits());
        }
        // See https://rubenvannieuwpoort.nl/posts/division-by-constant-unsigned-integers:
        //  multiplier = m - 2^N
        //  hi = (x*m - x*2^N) >> N = x*m / 2^N - x
        //  y = (2x - x*m / 2^N) / 2 + x*m / 2^N - x
        //    = x*m / 2^(N+1)
        //  y >> shift = x*m / 2^(N+shift+1)
        let (lo, hi) = x.widening_mul(self.multiplier);
        let ghost n = T::bits();
        let ghost xv = x.value();
        let ghost mv = self.multiplier.value();
        let ghost h = hi.value();
        proof {
            T::lemma_value_bound(lo);
            T::lemma_value_bound(hi);
            lemma_high_half(xv, mv, lo.value(), h, pow2(n));
        }
        let diff = x.wrapping_sub(hi);
        proof {
            lemma_small_mod((xv - h) as nat, pow2(n));
        }
        let half = diff.shr(1);
        let y = half.wrapping_add(hi);
        proof {
            lemma2_to64();
            lemma_half_sum(xv, h);
            lemma_small_mod((xv + h) as nat / 2, pow2(n));
            lemma_magic_quotient(xv, self.divisor.value(), self.shift as nat, n, mv, h);
        }
        y.shr(self.shift)
    }

    /// Returns the quotient and remainder of dividing `x` by the divisor.
    #[inline(always)]
    pub fn div_rem(&self, x: T) -> (r: (T, T))
        requires
            self.is_valid(),
        ensures
            r.0.value() == x.value() / self.divisor.value(),
            r.1.value() == x.value() % self.divisor.value(),
    {
        let q = self.div_non_power_of_two(x);
        let ghost n = T::bits();
        let ghost d = self.divisor.value();
        proof {
            T::lemma_value_bound(x);
            lemma_fundamental_div_mod(x.value() as int, d as int);
            lemma_mod_pos_bound(x.value() as int, d as int);
            lemma_mul_is_commutative(q.value() as int, d as int);
            lemma_small_mod(q.value() * d, pow2(n));
        }
        let p = q.wrapping_mul(self.divisor);
        let r = x.wrapping_sub(p);
        proof {
            lemma_small_mod((x.value() - q.value() * d) as nat, pow2(n));
        }
        (q, r)
    }
}

/// A divisor strictly between `2^shift` and `2^bits` has `shift < bits`.
proof fn lemma_shift_below_bits(d: nat, shift: nat, bits: nat)
    requires
        pow2(shift) < d,
        d < pow2(bits),
    ensures
        shift < bits,
{
    if shift >= bits {
        lemma_pow2_increases(bits, shift);
    }
}

/// `2^a <= 2^b` when `a <= b`.
proof fn lemma_pow2_increases(a: nat, b: nat)
    requires
        a <= b,
    ensures
        pow2(a) <= pow2(b),
{
    if a < b {
        lemma_pow2_strictly_increases(a, b);
    }
}

/// The high half of `x * m` for `x, m < 2^n` is `floor(x * m / 2^n)`, and is
/// at most `x`.
proof fn lemma_high_half(x: nat, m: nat, lo: nat, hi: nat, p: nat)
    requires
        x < p,
        m < p,
        lo < p,
        lo + hi * p == x * m,
    ensures
        hi == (x * m) / p,
        hi <= x,
{
    lemma_fundamental_div_mod_converse((x * m) as int, p as int, hi as int, lo as int);
    lemma_mul_inequality(m as int, p as int, x as int);
    lemma_mul_is_commutative(m as int, x as int);
    lemma_div_is_ordered((x * m) as int, (p * x) as int, p as int);
    lemma_div_multiples_vanish(x as int, p as int);
}

/// `(x - h) / 2 + h == (x + h) / 2` when `h <= x`.
proof fn lemma_half_sum(x: nat, h: nat)
    requires
        h <= x,
    ensures
        (x - h) / 2 + h == (x + h) / 2,
        (x + h) / 2 <= x,
{
    assert((x - h) / 2 + h == (x + h) / 2) by (nonlinear_arith)
        requires
            h <= x,
    ;
}

/// The core of the division by a magic multiplier: with
/// `m = floor(2^(n+l+1) / d) + 1` and `2^l < d < 2^(l+1)`, the quotient
/// `floor(x / d)` of every `x < 2^n` equals `floor(x * m / 2^(n+l+1))`.
proof fn lemma_magic_floor(x: nat, d: nat, l: nat, n: nat)
    requires
        x < pow2(n),
        pow2(l) < d,
        d < pow2(l + 1),
    ensures
        (x * (pow2(n + l + 1) / d + 1)) / pow2(n + l + 1) == x / d,
{
    let k = pow2(n + l + 1);
    lemma_pow2_adds(n, l + 1);
    lemma_pow2_pos(l);
    lemma_pow2_pos(n);
    let f = k / d;
    let s = k % d;
    let m = f + 1;
    let q = x / d;
    let r = x % d;
    lemma_fundamental_div_mod(k as int, d as int);
    lemma_fundamental_div_mod(x as int, d as int);
    lemma_mod_pos_bound(k as int, d as int);
    lemma_mod_pos_bound(x as int, d as int);
    // x * m * d == x * k + x * (d - s)
    assert(x * m * d == x * k + x * (d - s)) by (nonlinear_arith)
        requires
            k == d * f + s,
            m == f + 1,
    ;
    // x * (d - s) <= x * d < 2^n * 2^(l+1) == k
    assert(x * (d - s) < k) by (nonlinear_arith)
        requires
            x < pow2(n),
            0 <= d - s <= d,
            d < pow2(l + 1),
            k == pow2(n) * pow2(l + 1),
    ;
    assert(q * k <= x * m) by (nonlinear_arith)
        requires
            x == d * q + r,
            0 <= r,
            x * m * d == x * k + x * (d - s),
            d > 0,
            s < d,
            q >= 0,
            k > 0,
    ;
    assert(x * m < (q + 1) * k) by (nonlinear_arith)
        requires
            x == d * q + r,
            r < d,
            x * m * d == x * k + x * (d - s),
            x * (d - s) < k,
            d > 0,
            k > 0,
    ;
    assert((q + 1) * k == q * k + k) by (nonlinear_arith);
    lemma_fundamental_div_mod_converse((x * m) as int, k as int, q as int, (x * m - q * k) as int);
}

/// Wrapping addition is addition modulo `p`.
proof fn lemma_wrap_add(x: int, y: int, p: int)
    requires
        0 <= x < p,
        0 <= y < p,
    ensures
        (if x + y >= p { x + y - p } else { x + y }) == (x + y) % p,
{
    if x + y >= p {
        lemma_fundamental_div_mod_converse(x + y, p, 1, x + y - p);
    } else {
        lemma_fundamental_div_mod_converse(x + y, p, 0, x + y);
    }
}

/// Wrapping subtraction is subtraction modulo `p`.
proof fn lemma_wrap_sub(x: int, y: int, p: int)
    requires
        0 <= x < p,
        0 <= y < p,
    ensures
        (if x - y < 0 { x - y + p } else { x - y }) == (x - y) % p,
{
    if x - y < 0 {
        lemma_fundamental_div_mod_converse(x - y, p, -1, x - y + p);
    } else {
        lemma_fundamental_div_mod_converse(x - y, p, 0, x - y);
    }
}

/// A product of two values below `p` is below `p * p`.
proof fn lemma_mul_below(x: nat, y: nat, p: nat)
    requires
        x < p,
        y < p,
    ensures
        x * y < p * p,
{
    assert(x * y < p * p) by (nonlinear_arith)
        requires
            x < p,
            y < p,
    ;
}

/// The shifted sum computed by `div_non_power_of_two` is `floor(x / d)`.
proof fn lemma_magic_quotient(x: nat, d: nat, l: nat, n: nat, mv: nat, h: nat)
    requires
        x < pow2(n),
        pow2(l) < d,
        d < pow2(l + 1),
        mv == magic_multiplier(n, d, l),
        h == (x * mv) / pow2(n),
    ensures
        ((x + h) / 2) / pow2(l) == x / d,
{
    let p = pow2(n);
    lemma_pow2_pos(n);
    lemma_pow2_pos(l);
    let m = pow2(n + l + 1) / d + 1;
    // x + h == floor(x * m / 2^n)
    assert(x * m == x * p + x * mv) by (nonlinear_arith)
        requires
            m == mv + p,
    ;
    lemma_hoist_over_denominator((x * mv) as int, x as int, p);
    lemma_mul_is_commutative(x as int, p as int);
    assert(x + h == (x * m) / p);
    // (floor(x * m / 2^n) / 2) / 2^l == x * m / 2^(n + l + 1)
    lemma2_to64();
    lemma_div_denominator((x * m) as int, p as int, 2);
    lemma_pow2_adds(n, 1);
    lemma_div_denominator((x * m) as int, pow2(n + 1) as int, pow2(l) as int);
    lemma_pow2_adds(n + 1, l);
    assert(n + 1 + l == n + l + 1);
    lemma_magic_floor(x, d, l, n);
}

impl Arithmetic for u16 {
    open spec fn bits() -> nat {
        16
    }

    open spec fn value(self) -> nat {
        self as nat
    }

    proof fn lemma_value_bound(x: Self) {
        lemma2_to64();
    }

    #[inline(always)]
    fn wrapping_add(self, other: Self) -> Self {
        proof {
            lemma2_to64();
            lemma_wrap_add(self as int, other as int, 0x10000);
        }
        self.wrapping_add(other)
    }

    #[inline(always)]
    fn wrapping_sub(self, other: Self) -> Self {
        proof {
            lemma2_to64();
            lemma_wrap_sub(self as int, other as int, 0x10000);
        }
        self.wrapping_sub(other)
    }

    #[inline(always)]
    fn wrapping_mul(self, other: Self) -> Self {
        proof {
            lemma2_to64();
        }
        self.wrapping_mul(other)
    }

    #[inline(always)]
    fn widening_mul(self, other: Self) -> (Self, Self) {
        proof {
            lemma_mul_below(self as nat, other as nat, 0x10000);
        }
        let p = (self as u32) * (other as u32);
        let lo = p as u16;
        let hi = (p >> 16) as u16;
        proof {
            lemma2_to64();
            assert(lo == p % 0x10000 && hi == p / 0x10000) by (bit_vector)
                requires
                    lo == p as u16,
                    hi == (p >> 16) as u16,
            ;
            lemma_fundamental_div_mod(p as int, 0x10000);
        }
        (lo, hi)
    }

    #[inline(always)]
    fn shr(self, n: u32) -> Self {
        proof {
            lemma_u16_shr(self, n);
        }
        self >> n
    }
}

impl Arithmetic for u32 {
    open spec fn bits() -> nat {
        32
    }

    open spec fn value(self) -> nat {
        self as nat
    }

    proof fn lemma_value_bound(x: Self) {
        lemma2_to64();
    }

    #[inline(always)]
    fn wrapping_add(self, other: Self) -> Self {
        proof {
            lemma2_to64();
            lemma_wrap_add(self as int, other as int, 0x1_0000_0000);
        }
        self.wrapping_add(other)
    }

    #[inline(always)]
    fn wrapping_sub(self, other: Self) -> Self {
        proof {
            lemma2_to64();
            lemma_wrap_sub(self as int, other as int, 0x1_0000_0000);
        }
        self.wrapping_sub(other)
    }

    #[inline(always)]
    fn wrapping_mul(self, other: Self) -> Self {
        proof {
            lemma2_to64();
        }
        self.wrapping_mul(other)
    }

    #[inline(always)]
    fn widening_mul(self, other: Self) -> (Self, Self) {
        proof {
            lemma_mul_below(self as nat, other as nat, 0x1_0000_0000);
        }
        let p = (self as u64) * (other as u64);
        let lo = p as u32;
        let hi = (p >> 32) as u32;
        proof {
            lemma2_to64();
            assert(lo == p % 0x1_0000_0000 && hi == p / 0x1_0000_0000) by (bit_vector)
                requires
                    lo == p as u32,
                    hi == (p >> 32) as u32,
            ;
            lemma_fundamental_div_mod(p as int, 0x1_0000_0000);
        }
        (lo, hi)
    }

    #[inline(always)]
    fn shr(self, n: u32) -> Self {
        proof {
            lemma_u32_shr(self, n);
        }
        self >> n
    }
}

impl Arithmetic for u64 {
    open spec fn bits() -> nat {
        64
    }

    open spec fn value(self) -> nat {
        self as nat
    }

    proof fn lemma_value_bound(x: Self) {
        lemma2_to64();
    }

    #[inline(always)]
    fn wrapping_add(self, other: Self) -> Self {
        proof {
            lemma2_to64();
            lemma_wrap_add(self as int, other as int, 0x1_0000_0000_0000_0000);
        }
        self.wrapping_add(other)
    }

    #[inline(always)]
    fn wrapping_sub(self, other: Self) -> Self {
        proof {
            lemma2_to64();
            lemma_wrap_sub(self as int, other as int, 0x1_0000_0000_0000_0000);
        }
        self.wrapping_sub(other)
    }

    #[inline(always)]
    fn wrapping_mul(self, other: Self) -> Self {
        proof {
            lemma2_to64();
        }
        self.wrapping_mul(other)
    }

    #[inline(always)]
    fn widening_mul(self, other: Self) -> (Self, Self) {
        proof {
            lemma_mul_below(self as nat, other as nat, 0x1_0000_0000_0000_0000);
        }
        let p = (self as u128) * (other as u128);
        let lo = p as u64;
        let hi = (p >> 64) as u64;
        proof {
            lemma2_to64();
            assert(lo == p % 0x1_0000_0000_0000_0000 && hi == p / 0x1_0000_0000_0000_0000)
                by (bit_vector)
                requires
                    lo == p as u64,
                    hi == (p >> 64) as u64,
            ;
            lemma_fundamental_div_mod(p as int, 0x1_0000_0000_0000_0000);
        }
        (lo, hi)
    }

    #[inline(always)]
    fn shr(self, n: u32) -> Self {
        proof {
            lemma_u64_shr(self, n);
        }
        self >> n
    }
}

proof fn lemma_u16_shr(x: u16, n: u32)
    requires
        n < 16,
    ensures
        x >> n == x as nat / pow2(n as nat),
{
    vstd::bits::lemma_u16_shr_is_div(x, n as u16);
}

proof fn lemma_u32_shr(x: u32, n: u32)
    requires
        n < 32,
    ensures
        x >> n == x as nat / pow2(n as nat),
{
    vstd::bits::lemma_u32_shr_is_div(x, n);
}

proof fn lemma_u64_shr(x: u64, n: u32)
    requires
        n < 64,
    ensures
        x >> n == x as nat / pow2(n as nat),
{
    vstd::bits::lemma_u64_shr_is_div(x, n as u64);
}

/// The base-2 logarithm, rounded down (zero for zero and one).
pub open spec fn floor_log2(n: nat) -> nat
    decreases n,
{
    if n <= 1 {
        0
    } else {
        1 + floor_log2(n / 2)
    }
}

/// `floor_log2(n)` is the exponent of the largest power of two at most `n`.
pub proof fn lemma_floor_log2(n: nat)
    requires
        n >= 1,
    ensures
        pow2(floor_log2(n)) <= n < pow2(floor_log2(n) + 1),
    decreases n,
{
    lemma2_to64();
    if n > 1 {
        lemma_floor_log2(n / 2);
        let l = floor_log2(n / 2);
        lemma_pow2_unfold(l + 1);
        lemma_pow2_unfold(l + 2);
        lemma_fundamental_div_mod(n as int, 2);
    }
}

/// An odd number above one lies strictly between two consecutive powers of
/// two.
pub proof fn lemma_odd_floor_log2(n: nat)
    requires
        n >= 3,
        n % 2 == 1,
    ensures
        pow2(floor_log2(n)) < n < pow2(floor_log2(n) + 1),
        floor_log2(n) >= 1,
{
    lemma_floor_log2(n);
    lemma_floor_log2(n / 2);
    lemma2_to64();
    let l = floor_log2(n);
    assert(l == 1 + floor_log2(n / 2));
    lemma_pow2_unfold(l);
    assert(pow2(l) % 2 == 0) by {
        lemma_mod_multiples_basic(pow2((l - 1) as nat) as int, 2);
    }
}

/// The base-2 logarithm of a positive 64-bit integer, rounded down.
fn log2_u64(d: u64) -> (r: u32)
    requires
        d >= 1,
    ensures
        r == floor_log2(d as nat),
        r < 64,
{
    let mut x = d;
    let mut r: u32 = 0;
    proof {
        lemma_floor_log2(d as nat);
        lemma2_to64();
        if floor_log2(d as nat) >= 64 {
            lemma_pow2_increases(64, floor_log2(d as nat));
        }
    }
    while x > 1
        invariant
            1 <= x <= d,
            r + floor_log2(x as nat) == floor_log2(d as nat),
            floor_log2(d as nat) < 64,
        decreases x,
    {
        x = x / 2;
        r = r + 1;
    }
    r
}

/// `2^e` as a 128-bit integer.
fn pow2_u128(e: u32) -> (r: u128)
    requires
        e < 128,
    ensures
        r == pow2(e as nat),
{
    let mut r: u128 = 1;
    let mut i: u32 = 0;
    proof {
        lemma2_to64();
        lemma_pow2_adds(64, 64);
    }
    while i < e
        invariant
            i <= e < 128,
            r == pow2(i as nat),
            pow2(128) == 0x1_0000_0000_0000_0000_0000_0000_0000_0000,
        decreases e - i,
    {
        proof {
            lemma_pow2_unfold((i + 1) as nat);
            lemma_pow2_increases((i + 1) as nat, 127);
            lemma_pow2_unfold(128);
        }
        r = r * 2;
        i = i + 1;
    }
    r
}

/// The magic multiplier for dividing `bits`-bit integers by `d`, where
/// `2^l < d < 2^(l + 1)` and `l < bits <= 64`, computed from
/// `2^(bits + l) / d` and its remainder.
fn compute_magic(d: u128, bits: u32, l: u32) -> (r: u128)
    requires
        pow2(l as nat) < d < pow2(l as nat + 1),
        l < bits <= 64,
    ensures
        r == magic_multiplier(bits as nat, d as nat, l as nat),
        r < pow2(bits as nat),
{
    let ghost n = bits as nat;
    let ghost ln = l as nat;
    proof {
        lemma_pow2_increases(n + ln, 127);
        lemma_pow2_pos(ln);
        lemma_pow2_adds(n, ln);
        lemma_pow2_adds(n, ln + 1);
        lemma_pow2_adds(n + ln, 1);
        lemma2_to64();
    }
    let k = pow2_u128(bits + l);
    let q0 = k / d;
    let r0 = k % d;
    let ghost kk = k as nat;
    proof {
        lemma_fundamental_div_mod(k as int, d as int);
        lemma_mod_pos_bound(k as int, d as int);
        // q0 < 2^n because d > 2^l
        lemma_pow2_pos(n);
        if q0 >= pow2(n) {
            lemma_mul_inequality(pow2(n) as int, q0 as int, d as int);
            lemma_mul_strict_inequality(pow2(ln) as int, d as int, pow2(n) as int);
            lemma_mul_is_commutative(d as int, q0 as int);
            lemma_mul_is_commutative(pow2(ln) as int, pow2(n) as int);
            lemma_mul_is_commutative(d as int, pow2(n) as int);
        }
        lemma_pow2_increases(n, 64);
        lemma_pow2_increases(ln + 1, 64);
        assert(2 * kk == (2 * q0) * d + 2 * r0) by (nonlinear_arith)
            requires
                kk == d * q0 + r0,
        ;
        assert(pow2(64) == 0x1_0000_0000_0000_0000);
    }
    let extra: u128 = if 2 * r0 >= d { 1 } else { 0 };
    let full = 2 * q0 + extra + 1;
    proof {
        let f = 2 * q0 + extra;
        assert((2 * q0 + 1) * d == (2 * q0) * d + d) by (nonlinear_arith);
        lemma_pow2_unfold(ln + 1);
        // f == floor(2k / d)
        if extra == 1 {
            lemma_fundamental_div_mod_converse((2 * kk) as int, d as int, f as int, (2 * r0 - d) as int);
        } else {
            lemma_fundamental_div_mod_converse((2 * kk) as int, d as int, f as int, (2 * r0) as int);
        }
        assert(pow2(n + ln + 1) == 2 * kk);
        let rem: int = if extra == 1 { 2 * r0 - d } else { 2 * r0 };
        assert(2 * kk == f * d + rem && 0 <= rem < d);
        // 2^n <= f because d < 2^(l + 1)
        assert(pow2(n) <= f) by (nonlinear_arith)
            requires
                2 * kk == f * d + rem,
                0 <= rem < d,
                d < 2 * pow2(ln),
                kk == pow2(n) * pow2(ln),
                pow2(ln) > 0,
        ;
        // f + 1 < 2^(n + 1) because d > 2^l and l < n
        lemma_pow2_increases(ln + 1, n);
        assert(f + 1 < 2 * pow2(n)) by (nonlinear_arith)
            requires
                f * d <= 2 * kk,
                d >= pow2(ln) + 1,
                kk == pow2(n) * pow2(ln),
                pow2(ln) > 0,
                2 * pow2(ln) <= pow2(n),
        ;
    }
    full - pow2_u128(bits)
}

/// The largest power of two below an odd `d` above one, with its exponent,
/// found by doubling `pw == 2^shift`, a power of two below `d`.
pub fn power_of_two_below(d: u32, shift: u32, pw: u32) -> (r: (u32, u32))
    requires
        pw == pow2(shift as nat),
        pw < d <= 0xFFFF,
        d % 2 == 1,
    ensures
        r.1 == pow2(r.0 as nat),
        r.1 < d < 2 * r.1,
{
    let mut s = shift;
    let mut w = pw;
    proof {
        lemma2_to64();
        if shift >= 16 {
            lemma_pow2_increases(16, shift as nat);
        }
    }
    while 2 * w < d
        invariant
            w == pow2(s as nat),
            w < d <= 0xFFFF,
            s < 16,
        decreases d - w,
    {
        proof {
            lemma2_to64();
            lemma_pow2_pos(s as nat);
            lemma_pow2_unfold(s as nat + 1);
            if s + 1 >= 16 {
                lemma_pow2_increases(16, s as nat + 1);
            }
        }
        w = 2 * w;
        s = s + 1;
    }
    proof {
        if w == 0 {
            lemma_pow2_pos(s as nat);
        }
        if s >= 1 {
            lemma_pow2_unfold(s as nat);
        } else {
            assert(w == 1);
        }
        assert(2 * w != d);
    }
    (s, w)
}

/// A candidate multiplier whose full value `f` is the quotient of
/// `2^(bits + shift + 1)` by `d` is the magic multiplier.
proof fn lemma_checked_magic(d: nat, bits: nat, shift: nat, pw: nat, k: nat, f: nat, cand: nat)
    requires
        pw == pow2(shift),
        k == pow2(bits + 1) * pw,
        d > 0,
        d * f <= k,
        k - d * f < d,
        f + 1 == cand + pow2(bits),
    ensures
        magic_multiplier(bits, d, shift) == cand,
{
    lemma_pow2_adds(bits + 1, shift);
    assert(bits + 1 + shift == bits + shift + 1);
    lemma_fundamental_div_mod_converse(k as int, d as int, f as int, (k - d * f) as int);
}

impl OddDivider<u16> {
    /// The divider by an odd `divisor` above one.
    pub fn for_divisor(divisor: u16) -> (r: Self)
        requires
            divisor % 2 == 1,
            divisor >= 3,
        ensures
            r.is_valid(),
            r.divisor == divisor,
            r.shift == floor_log2(divisor as nat),
    {
        proof {
            lemma_odd_floor_log2(divisor as nat);
        }
        let shift = log2_u64(divisor as u64);
        proof {
            lemma2_to64();
            lemma_shift_below_bits(divisor as nat, shift as nat, 16);
        }
        let m = compute_magic(divisor as u128, 16, shift);
        OddDivider { divisor, multiplier: m as u16, shift }
    }

    /// The divider by an odd `divisor` with `pw == 2^shift < divisor < 2 * pw`,
    /// taking `cand` as its multiplier where it is the magic multiplier,
    /// and computing the multiplier where it isn't.
    pub fn with_multiplier(divisor: u16, shift: u32, pw: u32, cand: u16) -> (r: Self)
        requires
            divisor % 2 == 1,
            divisor >= 3,
            pw == pow2(shift as nat),
            pw < divisor < 2 * pw,
            divisor <= 0xFFFF,
        ensures
            r.is_valid(),
            r.divisor == divisor,
    {
        proof {
            lemma2_to64();
            lemma2_to64_rest();
        }
        let k: u128 = 0x2_0000u128 * (pw as u128);
        let f: u128 = cand as u128 + 0xFFFF;
        let d = divisor as u128;
        proof {
            assert(d * f <= 0xFFFF * 0x2_0000) by (nonlinear_arith)
                requires
                    d <= 0xFFFF,
                    f < 0x2_0000,
            ;
        }
        if d * f <= k && k - d * f < d {
            proof {
                lemma_checked_magic(d as nat, 16, shift as nat, pw as nat, k as nat, f as nat, cand as nat);
                lemma_pow2_unfold(shift as nat + 1);
            }
            OddDivider { divisor, multiplier: cand, shift }
        } else {
            Self::for_divisor(divisor)
        }
    }
}

impl OddDivider<u32> {
    /// The divider by an odd `divisor` above one.
    pub fn for_divisor(divisor: u32) -> (r: Self)
        requires
            divisor % 2 == 1,
            divisor >= 3,
        ensures
            r.is_valid(),
            r.divisor == divisor,
            r.shift == floor_log2(divisor as nat),
    {
        proof {
            lemma_odd_floor_log2(divisor as nat);
        }
        let shift = log2_u64(divisor as u64);
        proof {
            lemma2_to64();
            lemma_shift_below_bits(divisor as nat, shift as nat, 32);
        }
        let m = compute_magic(divisor as u128, 32, shift);
        OddDivider { divisor, multiplier: m as u32, shift }
    }

    /// The divider by an odd `divisor` with `pw == 2^shift < divisor < 2 * pw`,
    /// taking `cand` as its multiplier where it is the magic multiplier,
    /// and computing the multiplier where it isn't.
    pub fn with_multiplier(divisor: u32, shift: u32, pw: u32, cand: u32) -> (r: Self)
        requires
            divisor % 2 == 1,
            divisor >= 3,
            pw == pow2(shift as nat),
            pw < divisor < 2 * pw,
            divisor <= 0xFFFF,
        ensures
            r.is_valid(),
            r.divisor == divisor,
    {
        proof {
            lemma2_to64();
            lemma2_to64_rest();
        }
        let k: u128 = 0x2_0000_0000u128 * (pw as u128);
        let f: u128 = cand as u128 + 0xFFFF_FFFF;
        let d = divisor as u128;
        proof {
            assert(d * f <= 0xFFFF * 0x2_0000_0000) by (nonlinear_arith)
                requires
                    d <= 0xFFFF,
                    f < 0x2_0000_0000,
            ;
        }
        if d * f <= k && k - d * f < d {
            proof {
                lemma_checked_magic(d as nat, 32, shift as nat, pw as nat, k as nat, f as nat, cand as nat);
                lemma_pow2_unfold(shift as nat + 1);
            }
            OddDivider { divisor, multiplier: cand, shift }
        } else {
            Self::for_divisor(divisor)
        }
    }
}

impl OddDivider<u64> {
    /// The divider by an odd `divisor` above one.
    pub fn for_divisor(divisor: u64) -> (r: Self)
        requires
            divisor % 2 == 1,
            divisor >= 3,
        ensures
            r.is_valid(),
            r.divisor == divisor,
            r.shift == floor_log2(divisor as nat),
    {
        proof {
            lemma_odd_floor_log2(divisor as nat);
        }
        let shift = log2_u64(divisor);
        proof {
            lemma2_to64();
            lemma_shift_below_bits(divisor as nat, shift as nat, 64);
        }
        let m = compute_magic(divisor as u128, 64, shift);
        OddDivider { divisor, multiplier: m as u64, shift }
    }

    /// The divider by an odd `divisor` with `pw == 2^shift < divisor < 2 * pw`,
    /// taking `cand` as its multiplier where it is the magic multiplier,
    /// and computing the multiplier where it isn't.
    pub fn with_multiplier(divisor: u64, shift: u32, pw: u32, cand: u64) -> (r: Self)
        requires
            divisor % 2 == 1,
            divisor >= 3,
            pw == pow2(shift as nat),
            pw < divisor < 2 * pw,
            divisor <= 0xFFFF,
        ensures
            r.is_valid(),
            r.divisor == divisor,
    {
        proof {
            lemma2_to64();
            lemma2_to64_rest();
            lemma_pow2_unfold(65);
        }
        let k: u128 = 0x2_0000_0000_0000_0000u128 * (pw as u128);
        let f: u128 = cand as u128 + 0xFFFF_FFFF_FFFF_FFFF;
        let d = divisor as u128;
        proof {
            assert(d * f <= 0xFFFF * 0x2_0000_0000_0000_0000) by (nonlinear_arith)
                requires
                    d <= 0xFFFF,
                    f < 0x2_0000_0000_0000_0000,
            ;
        }
        if d * f <= k && k - d * f < d {
            proof {
                lemma_checked_magic(d as nat, 64, shift as nat, pw as nat, k as nat, f as nat, cand as nat);
                lemma_pow2_unfold(shift as nat + 1);
            }
            OddDivider { divisor, multiplier: cand, shift }
        } else {
            Self::for_divisor(divisor)
        }
    }
}

} // verus!
