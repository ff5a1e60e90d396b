use smart_big_rational::primes::{
    known_odd_prime_factor_indices, odd_prime_dividers_u16, odd_prime_dividers_u32,
    odd_prime_dividers_u64, odd_primes,
};
use smart_big_rational::util::OddDivider;

#[test]
fn test_dividers_u16() {
    let primes = odd_primes();
    let multipliers = odd_prime_dividers_u16();
    for (i, &p) in primes.iter().enumerate() {
        let divider = OddDivider {
            divisor: p,
            multiplier: multipliers[i],
            shift: p.ilog2(),
        };
        for x in 0..=u16::MAX {
            let (quo, rem) = divider.div_rem(x);
            assert_eq!(x / p, quo);
            assert_eq!(x % p, rem);
        }
    }
}

#[test]
fn test_dividers_u32() {
    let primes = odd_primes();
    let multipliers = odd_prime_dividers_u32();
    for (i, &p) in primes.iter().enumerate() {
        let p = p as u32;
        let divider = OddDivider {
            divisor: p,
            multiplier: multipliers[i],
            shift: p.ilog2(),
        };
        for x in (0..=u16::MAX as u32)
            .chain((0..=u16::MAX as u32).map(|x| u32::MAX - x))
            .chain((0..32).map(|i| 1 << i))
            .chain((0..32).map(|i| !(1 << i)))
            .chain((0..32).map(|i| (1 << i) - 1))
        {
            let (quo, rem) = divider.div_rem(x);
            assert_eq!(x / p, quo);
            assert_eq!(x % p, rem);
        }
    }
}

#[test]
fn test_dividers_u64() {
    let primes = odd_primes();
    let multipliers = odd_prime_dividers_u64();
    for (i, &p) in primes.iter().enumerate() {
        let p = p as u64;
        let divider = OddDivider {
            divisor: p,
            multiplier: multipliers[i],
            shift: p.ilog2(),
        };
        for x in (0..=u16::MAX as u64)
            .chain((0..=u16::MAX as u64).map(|x| u64::MAX - x))
            .chain((0..64).map(|i| 1 << i))
            .chain((0..64).map(|i| !(1 << i)))
            .chain((0..64).map(|i| (1 << i) - 1))
        {
            let (quo, rem) = divider.div_rem(x);
            assert_eq!(x / p, quo);
            assert_eq!(x % p, rem);
        }
    }
}

#[test]
fn odd_primes_table_starts_and_ends() {
    let primes = odd_primes();
    assert_eq!(primes.len(), 6541);
    assert_eq!(&primes[..10], &[3, 5, 7, 11, 13, 17, 19, 23, 29, 31]);
    assert_eq!(primes[22], 89);
    assert_eq!(*primes.last().unwrap(), 65521);
}

#[test]
fn dividers_tables_match_the_primes() {
    let n = odd_primes().len();
    assert_eq!(odd_prime_dividers_u16().len(), n);
    assert_eq!(odd_prime_dividers_u32().len(), n);
    assert_eq!(odd_prime_dividers_u64().len(), n);
}

#[test]
fn for_divisor_builds_the_table_divider() {
    let primes = odd_primes();
    let multipliers = odd_prime_dividers_u32();
    for i in [0usize, 1, 100, 6540] {
        let p = primes[i] as u32;
        let d = OddDivider::<u32>::for_divisor(p);
        assert_eq!(d.divisor, p);
        assert_eq!(d.shift, p.ilog2());
        assert_eq!(d.multiplier, multipliers[i]);
    }
    let d = OddDivider::<u64>::for_divisor(1_000_000_007);
    assert_eq!(d.div_rem(u64::MAX), (u64::MAX / 1_000_000_007, u64::MAX % 1_000_000_007));
    let d = OddDivider::<u16>::for_divisor(3);
    assert_eq!(d.div_rem(100), (33, 1));
}

#[test]
fn known_factors_of_small_odd_numbers() {
    // 45 = 3^2 * 5: indices 1 (for 3) and 2 (for 5).
    assert_eq!(known_odd_prime_factor_indices(45), Some(vec![(1, 2), (2, 1)]));
    // An even number stands for the next odd one: 44 -> 45.
    assert_eq!(known_odd_prime_factor_indices(44), Some(vec![(1, 2), (2, 1)]));
    assert_eq!(known_odd_prime_factor_indices(1), Some(vec![]));
    assert_eq!(known_odd_prime_factor_indices(8191), Some(vec![(1027, 1)]));
    assert_eq!(known_odd_prime_factor_indices(8192), None);
}
