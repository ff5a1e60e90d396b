use smart_big_rational::bignum::{Integer, Natural};
use smart_big_rational::primes::odd_primes;
use smart_big_rational::{Denom, Denom24, DenomArray};

fn basis_prime(i: usize) -> u64 {
    if i == 0 {
        2
    } else {
        odd_primes()[i - 1] as u64
    }
}

fn counts_with(i: usize, count: u8) -> Vec<u8> {
    (0..24).map(|j| if i == j { count } else { 0 }).collect()
}

#[test]
fn test_decompose_is_correct() {
    for i in 1_u64..=1000 {
        let bigi = Natural::from_u64(i);
        let x = Denom24::from_biguint(&bigi);
        let mut recomposed = x.remainder().unwrap_or_else(Natural::one);
        let primes = x.primes();
        for i in 0..24 {
            let prime = Natural::from_u64(basis_prime(i));
            for _ in 0..primes[i] {
                recomposed = recomposed.mul(&prime);
            }
        }
        assert_eq!(recomposed, bigi);
    }
}

#[test]
fn denom24_test_decompose_known_values() {
    let x = Denom24::from_biguint(&Natural::from_u64(128));
    assert_eq!(
        (x.primes(), x.remainder()),
        (
            vec![7, 0, 0, 0, 0, 0, 0, 0, 0, 0, 0, 0, 0, 0, 0, 0, 0, 0, 0, 0, 0, 0, 0, 0],
            None
        )
    );
    let x = Denom24::from_biguint(&Natural::from_u64(89));
    assert_eq!(
        (x.primes(), x.remainder()),
        (
            vec![0, 0, 0, 0, 0, 0, 0, 0, 0, 0, 0, 0, 0, 0, 0, 0, 0, 0, 0, 0, 0, 0, 0, 1],
            None
        )
    );
    let x = Denom24::from_biguint(&Natural::from_u64(97));
    assert_eq!(
        (x.primes(), x.remainder()),
        (
            vec![0, 0, 0, 0, 0, 0, 0, 0, 0, 0, 0, 0, 0, 0, 0, 0, 0, 0, 0, 0, 0, 0, 0, 0],
            Some(Natural::from_u64(97))
        )
    );
    let x = Denom24::from_biguint(&Natural::from_u64(97000));
    assert_eq!(
        (x.primes(), x.remainder()),
        (
            vec![3, 0, 3, 0, 0, 0, 0, 0, 0, 0, 0, 0, 0, 0, 0, 0, 0, 0, 0, 0, 0, 0, 0, 0],
            Some(Natural::from_u64(97))
        )
    );
}

#[test]
fn test_decompose_prime_powers() {
    for i in 0..24 {
        let p = Natural::from_u64(basis_prime(i));
        for power in 1..=255u8 {
            let x = Denom24::from_biguint(&p.pow(power as u32));
            assert_eq!((x.primes(), x.remainder()), (counts_with(i, power), None));
        }
        for power in 1..=64u32 {
            let x = Denom24::from_biguint(&p.pow(255 + power));
            assert_eq!(
                (x.primes(), x.remainder()),
                (counts_with(i, 255), Some(p.pow(power)))
            );
        }
    }
}

#[test]
fn test_mul_prime_powers() {
    let p = Natural::from_u64(2);
    for a in 1..=256 {
        let denom_a = Denom24::from_biguint(&p.pow(a));
        for b in 1..=256 {
            let denom_b = Denom24::from_biguint(&p.pow(b));
            let denom_ab = Denom24::from_biguint(&p.pow(a + b));
            assert_eq!(denom_a.mul(&denom_b), denom_ab);
        }
    }
}

#[test]
fn test_div_prime_powers() {
    let p = Natural::from_u64(2);
    for a in 1..=256 {
        let denom_a = Denom24::from_biguint(&p.pow(a));
        for b in 1..=256 {
            let denom_b = Denom24::from_biguint(&p.pow(b));
            let denom_ab = Denom24::from_biguint(&p.pow(a + b));
            assert_eq!(denom_ab.div(&denom_b), denom_a);
        }
    }
}

#[test]
fn test_to_biguint() {
    for i in 1_u64..=1000 {
        let bigi = Natural::from_u64(i);
        let x = Denom24::from_biguint(&bigi);
        assert_eq!(x.to_natural(), bigi);
    }
}

#[test]
fn test_product() {
    let values = (100..200u64)
        .map(|i| Denom24::from_biguint(&Natural::from_u64(i)))
        .collect::<Vec<_>>();
    for (i, x) in values.iter().enumerate().map(|(i, x)| (i as u64 + 100, x)) {
        for (j, y) in values.iter().enumerate().map(|(j, y)| (j as u64 + 100, y)) {
            let z = x.mul(y);
            assert_eq!(z, Denom24::from_biguint(&Natural::from_u64(i * j)));
            let (zp, xp, yp) = (z.primes(), x.primes(), y.primes());
            for k in 0..24 {
                assert_eq!(zp[k], xp[k] + yp[k]);
            }
        }
    }
}

#[test]
fn test_normalize() {
    let values = (100..200u64)
        .map(|i| Denom24::from_biguint(&Natural::from_u64(i)))
        .collect::<Vec<_>>();
    for x in &values {
        for y in &values {
            let mut xnum = Integer::one();
            let mut ynum = Integer::one();
            let lcm = Denom24::normalize(&mut xnum, &mut ynum, x, y);
            let lcm_bigint = lcm.to_natural();
            assert!(!xnum.negative() && !ynum.negative());
            let xnum = xnum.magnitude();
            let ynum = ynum.magnitude();

            assert_eq!(xnum.mul(&x.to_natural()), lcm_bigint);
            assert_eq!(ynum.mul(&y.to_natural()), lcm_bigint);
            let (lp, xp, yp) = (lcm.primes(), x.primes(), y.primes());
            for k in 0..24 {
                assert_eq!(lp[k], std::cmp::max(xp[k], yp[k]));
            }
        }
    }
}

#[test]
fn test_gcd_reduce() {
    let mut num = Integer::from_i128(-3 * 97);
    let mut denom = Denom24::from_biguint(&Natural::from_u64(3 * 5 * 97));
    denom.gcd_reduce(&mut num);
    assert_eq!(num, Integer::from_i128(-1));
    assert_eq!(denom, Denom24::from_biguint(&Natural::from_u64(5)));
}

#[test]
fn from_each_integer_type_agrees() {
    for v in [1u64, 2, 6, 97, 255, 1000, 65535] {
        let expected = Denom24::from_biguint(&Natural::from_u64(v));
        if v <= 255 {
            assert_eq!(Denom24::from_u8(v as u8), expected);
        }
        assert_eq!(Denom24::from_u16(v as u16), expected);
        assert_eq!(Denom24::from_u32(v as u32), expected);
        assert_eq!(Denom24::from_u64(v), expected);
        assert_eq!(Denom24::from_u128(v as u128), expected);
        assert_eq!(Denom24::from_usize(v as usize), expected);
    }
    let big = u128::MAX;
    assert_eq!(Denom24::from_u128(big).to_natural(), Natural::from_u128(big));
}

#[test]
fn one_is_the_empty_product() {
    let one = Denom24::one();
    assert_eq!(one.primes(), vec![0; 24]);
    assert_eq!(one.remainder(), None);
    assert_eq!(one.to_natural(), Natural::one());
}

#[test]
fn pow_raises_counts_and_remainder() {
    let x = Denom24::from_biguint(&Natural::from_u64(2 * 97));
    let y = x.pow(200);
    assert_eq!(y.to_natural(), Natural::from_u64(2 * 97).pow(200));
    let yp = y.primes();
    assert_eq!(yp[0], 200);
    let z = x.pow(300);
    assert_eq!(z.primes()[0], 255);
    assert_eq!(z.to_natural(), Natural::from_u64(2 * 97).pow(300));
    assert_eq!(x.pow(0), Denom24::one());
}

#[test]
fn mul_integer_multiplies_by_the_value() {
    let x = Denom24::from_biguint(&Natural::from_u64(12 * 97));
    let n = Integer::from_i128(-5);
    assert_eq!(x.mul_integer(&n), Integer::from_i128(-5 * 12 * 97));
}

#[test]
fn normalize_with_remainders() {
    let x = Denom24::from_u64(97 * 4);
    let y = Denom24::from_u64(101 * 3);
    let mut xnum = Integer::from_i128(1);
    let mut ynum = Integer::from_i128(-1);
    let lcm = Denom24::normalize(&mut xnum, &mut ynum, &x, &y);
    assert_eq!(lcm.to_natural(), Natural::from_u64(97 * 101 * 12));
    assert_eq!(xnum, Integer::from_i128(101 * 3));
    assert_eq!(ynum, Integer::from_i128(-97 * 4));
    let mut a = Integer::from_i128(7);
    let mut b = Integer::from_i128(9);
    let same = Denom24::normalize(&mut a, &mut b, &x, &x);
    assert_eq!(same, x);
    assert_eq!((a, b), (Integer::from_i128(7), Integer::from_i128(9)));
}

#[test]
fn normalize_remainders_sharing_a_factor() {
    let x = Denom24::from_u32(97 * 101);
    let y = Denom24::from_u32(97 * 103);
    let mut xnum = Integer::from_i128(1);
    let mut ynum = Integer::from_i128(1);
    let lcm = Denom24::normalize(&mut xnum, &mut ynum, &x, &y);
    assert_eq!(lcm.to_natural(), Natural::from_u64(97 * 101 * 103));
    assert_eq!(xnum, Integer::from_i128(103));
    assert_eq!(ynum, Integer::from_i128(101));
}

#[test]
fn div_with_remainders_and_assign() {
    let x = Denom24::from_u64(97 * 97 * 6);
    let y = Denom24::from_u64(97 * 2);
    assert_eq!(x.div(&y), Denom24::from_u64(97 * 3));
    let mut z = x.div(&Denom24::from_u64(97 * 97 * 6));
    assert_eq!(z, Denom24::one());
    z.mul_assign(&y);
    assert_eq!(z, y);
    z.div_assign(&y);
    assert_eq!(z, Denom24::one());
}

#[test]
fn gcd_reduce_over_primes_and_remainder() {
    let mut num = Integer::from_i128(2 * 2 * 7 * 101);
    let mut denom = Denom24::from_u64(2 * 3 * 101 * 103);
    denom.gcd_reduce(&mut num);
    assert_eq!(num, Integer::from_i128(2 * 7));
    assert_eq!(denom, Denom24::from_u64(3 * 103));
}

#[test]
fn wider_arrays_decompose_further() {
    let x = DenomArray::<100>::from_u64(97 * 541);
    assert_eq!(x.remainder(), None);
    let p = x.primes();
    assert_eq!(p.len(), 100);
    assert_eq!(p[24], 1);
    assert_eq!(p[99], 1);
}

#[test]
fn gcd_reduce_of_a_saturated_count_keeps_canonical_form() {
    let two = Natural::from_u64(2);
    let mut num = Integer::from_natural(false, two.pow(50));
    let mut denom = Denom24::from_biguint(&two.pow(300));
    assert_eq!(denom.primes()[0], 255);
    assert_eq!(denom.remainder(), Some(two.pow(45)));
    denom.gcd_reduce(&mut num);
    assert_eq!(num, Integer::from_i128(1));
    assert_eq!(denom.primes()[0], 250);
    assert_eq!(denom.remainder(), None);
    assert_eq!(denom, Denom24::from_biguint(&two.pow(250)));
}

#[test]
fn div_of_a_saturated_count_moves_the_remainder_back() {
    let two = Natural::from_u64(2);
    let x = Denom24::from_biguint(&two.pow(300));
    let y = Denom24::from_biguint(&two.pow(100));
    let q = x.div(&y);
    assert_eq!(q.primes()[0], 200);
    assert_eq!(q.remainder(), None);
    assert_eq!(q, Denom24::from_biguint(&two.pow(200)));
}

#[test]
fn mul_assign_adds_counts() {
    let mut x = Denom24::from_u64(2);
    x.mul_assign(&Denom24::from_u64(4));
    assert_eq!(x.primes()[0], 3);
    assert_eq!(x.remainder(), None);
    assert_eq!(x, Denom24::from_u64(8));
}
