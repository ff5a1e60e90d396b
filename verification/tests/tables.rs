use smart_big_rational::bignum::Natural;
use smart_big_rational::prime_dividers::{magic_u16_at, magic_u32_at, magic_u64_at};
use smart_big_rational::primes::{
    is_odd_prime, odd_prime_dividers_u16, odd_prime_dividers_u32, odd_prime_dividers_u64,
    odd_primes,
};
use smart_big_rational::util::{power_of_two_below, OddDivider};

#[test]
fn multiplier_tables_match_the_computed_ones() {
    let (m16, m32, m64) = (odd_prime_dividers_u16(), odd_prime_dividers_u32(), odd_prime_dividers_u64());
    assert_eq!(m16.len(), 6541);
    for i in 0..6541 {
        assert_eq!(magic_u16_at(i), m16[i]);
        assert_eq!(magic_u32_at(i), m32[i]);
        assert_eq!(magic_u64_at(i), m64[i]);
    }
    assert_eq!(magic_u64_at(6541), 0);
}

#[test]
fn divider_from_table_divides() {
    let (mut s, mut w) = (1u32, 2u32);
    for (i, &p) in odd_primes().iter().enumerate() {
        let (s2, w2) = power_of_two_below(p as u32, s, w);
        s = s2;
        w = w2;
        assert!(w < p as u32 && (p as u32) < 2 * w && w == 1 << s);
        let d32 = OddDivider::<u32>::with_multiplier(p as u32, s, w, magic_u32_at(i));
        let c32 = OddDivider::<u32>::for_divisor(p as u32);
        assert_eq!((d32.divisor, d32.multiplier, d32.shift), (c32.divisor, c32.multiplier, c32.shift));
        assert_eq!(d32.div_rem(4_000_000_007), (4_000_000_007 / p as u32, 4_000_000_007 % p as u32));
        let d64 = OddDivider::<u64>::with_multiplier(p as u64, s, w, magic_u64_at(i));
        assert_eq!(d64.div_rem(u64::MAX), (u64::MAX / p as u64, u64::MAX % p as u64));
    }
    // A wrong candidate is replaced by the computed multiplier.
    let d = OddDivider::<u16>::with_multiplier(7, 2, 4, 12345);
    let c = OddDivider::<u16>::for_divisor(7);
    assert_eq!((d.divisor, d.multiplier, d.shift), (c.divisor, c.multiplier, c.shift));
    assert_eq!(d.div_rem(1000), (142, 6));
}

#[test]
fn odd_primality_by_trial_division() {
    assert!(is_odd_prime(3));
    assert!(is_odd_prime(8191));
    assert!(is_odd_prime(65521));
    assert!(is_odd_prime(1_000_003));
    assert!(is_odd_prime(4_294_967_291));
    assert!(!is_odd_prime(9));
    assert!(!is_odd_prime(65537 * 3));
    assert!(!is_odd_prime(4_294_967_297));
}

#[test]
fn remainder_by_a_divider() {
    let x = Natural::from_u128(u128::MAX).mul(&Natural::from_u128(12345678901234567890));
    for &p in &[3u64, 5, 7, 65521] {
        let d = OddDivider::<u64>::for_divisor(p);
        let expected = (u128::MAX % p as u128) * (12345678901234567890u128 % p as u128) % p as u128;
        assert_eq!(x.rem_by(&d) as u128, expected);
    }
    assert_eq!(Natural::zero().rem_by(&OddDivider::<u64>::for_divisor(3)), 0);
}
