use smart_big_rational::bignum::{Integer, Natural};
use smart_big_rational::primes::odd_primes;
use smart_big_rational::{Denom, DenomSparse6542, DenomSparseU16};

fn product(factors: &[u64]) -> Natural {
    let mut r = Natural::one();
    for &f in factors {
        r = r.mul(&Natural::from_u64(f));
    }
    r
}

fn basis_primes(n: usize) -> Vec<u16> {
    std::iter::once(2).chain(odd_primes()).take(n).collect()
}

#[test]
fn test_decompose_no_remainder() {
    for i in 1_u64..=65536 {
        let bigi = Natural::from_u64(i);
        let x = DenomSparse6542::from_biguint(&bigi);
        assert_eq!(x.remainder(), None, "Remainder for {i}");
    }
}

#[test]
fn denom_sparse_test_decompose_known_values() {
    let x = DenomSparse6542::from_u16(0xfff1_u16);
    assert_eq!((x.primes(), x.remainder()), (vec![(0xfff1, 1)], None));
    let x = DenomSparse6542::from_u32(0xffff_fffb_u32);
    assert_eq!((x.primes(), x.remainder()), (vec![], Some(Natural::from_u128(0xffff_fffb))));
    let x = DenomSparse6542::from_u64(0xffff_ffff_ffff_ffc5_u64);
    assert_eq!((x.primes(), x.remainder()), (vec![], Some(Natural::from_u128(0xffff_ffff_ffff_ffc5))));
    let x = DenomSparse6542::from_u128(0xffff_ffff_ffff_ffff_ffff_ffff_ffff_ff61_u128);
    assert_eq!((x.primes(), x.remainder()), (vec![], Some(Natural::from_u128(0xffff_ffff_ffff_ffff_ffff_ffff_ffff_ff61))));
    let x = DenomSparse6542::from_biguint(&Natural::from_slice(&[
                0xffff_ff43,
                0xffff_ffff,
                0xffff_ffff,
                0xffff_ffff,
                0xffff_ffff,
                0xffff_ffff,
                0xffff_ffff,
                0xffff_ffff,
            ]));
    assert_eq!((x.primes(), x.remainder()), (vec![], Some(Natural::from_slice(&[ 0xffff_ff43, 0xffff_ffff, 0xffff_ffff, 0xffff_ffff, 0xffff_ffff, 0xffff_ffff, 0xffff_ffff, 0xffff_ffff, ]))));
    let x = DenomSparse6542::from_u8(2u8 * 3 * 5 * 7);
    assert_eq!((x.primes(), x.remainder()), (vec![(2, 1), (3, 1), (5, 1), (7, 1)], None));
    let x = DenomSparse6542::from_u16(2u16 * 3 * 5 * 7 * 11 * 13);
    assert_eq!((x.primes(), x.remainder()), (vec![(2, 1), (3, 1), (5, 1), (7, 1), (11, 1), (13, 1)], None));
    let x = DenomSparse6542::from_u32(2u32 * 3 * 5 * 7 * 11 * 13 * 17 * 19 * 23);
    assert_eq!((x.primes(), x.remainder()), (vec![ (2, 1), (3, 1), (5, 1), (7, 1), (11, 1), (13, 1), (17, 1), (19, 1), (23, 1) ], None));
    let x = DenomSparse6542::from_u64(2u64 * 3 * 5 * 7 * 11 * 13 * 17 * 19 * 23 * 31 * 37 * 41 * 43 * 47 * 53);
    assert_eq!((x.primes(), x.remainder()), (vec![ (2, 1), (3, 1), (5, 1), (7, 1), (11, 1), (13, 1), (17, 1), (19, 1), (23, 1), (31, 1), (37, 1), (41, 1), (43, 1), (47, 1), (53, 1) ], None));
    let x = DenomSparse6542::from_u128(2u128 * 3 * 5 * 7 * 11 * 13 * 17 * 19 * 23 * 31 * 37 * 41 * 43 * 47 * 53 * 59 * 61 * 67 * 71 * 73 * 79 * 83 * 89 * 97 * 101);
    assert_eq!((x.primes(), x.remainder()), (vec![ (2, 1), (3, 1), (5, 1), (7, 1), (11, 1), (13, 1), (17, 1), (19, 1), (23, 1), (31, 1), (37, 1), (41, 1), (43, 1), (47, 1), (53, 1), (59, 1), (61, 1), (67, 1), (71, 1), (73, 1), (79, 1), (83, 1), (89, 1), (97, 1), (101, 1), ], None));
    let x = DenomSparse6542::from_biguint(&product(&[2, 3, 5, 7, 11, 13, 17, 19, 23, 31, 37, 41, 43, 47, 53, 59, 61, 67, 71, 73, 79, 83, 89, 97, 101, 103, 107, 109, 113, 127, 131, 137, 139, 149, 151, 157, 163, 167, 173, 179, 181, 191, 193, 197, 199, 211, 223, 227, 229, 233]));
    assert_eq!((x.primes(), x.remainder()), (vec![ (2, 1), (3, 1), (5, 1), (7, 1), (11, 1), (13, 1), (17, 1), (19, 1), (23, 1), (31, 1), (37, 1), (41, 1), (43, 1), (47, 1), (53, 1), (59, 1), (61, 1), (67, 1), (71, 1), (73, 1), (79, 1), (83, 1), (89, 1), (97, 1), (101, 1), (103, 1), (107, 1), (109, 1), (113, 1), (127, 1), (131, 1), (137, 1), (139, 1), (149, 1), (151, 1), (157, 1), (163, 1), (167, 1), (173, 1), (179, 1), (181, 1), (191, 1), (193, 1), (197, 1), (199, 1), (211, 1), (223, 1), (227, 1), (229, 1), (233, 1), ], None));
    let x = DenomSparse6542::from_u16(0xfb_u16 * 0xf1);
    assert_eq!((x.primes(), x.remainder()), (vec![(0xf1, 1), (0xfb, 1)], None));
    let x = DenomSparse6542::from_u32(0xfff1_u32 * 0xffef);
    assert_eq!((x.primes(), x.remainder()), (vec![(0xffef, 1), (0xfff1, 1)], None));
    let x = DenomSparse6542::from_u64(0xfff1_u64 * 0xffef * 0xffd9 * 0xffc7);
    assert_eq!((x.primes(), x.remainder()), (vec![(0xffc7, 1), (0xffd9, 1), (0xffef, 1), (0xfff1, 1)], None));
    let x = DenomSparse6542::from_u128(0xfff1_u128 * 0xffef * 0xffd9 * 0xffc7 * 0xffa9 * 0xffa7 * 0xff9d * 0xff8f);
    assert_eq!((x.primes(), x.remainder()), (vec![ (0xff8f, 1), (0xff9d, 1), (0xffa7, 1), (0xffa9, 1), (0xffc7, 1), (0xffd9, 1), (0xffef, 1), (0xfff1, 1) ], None));
    let x = DenomSparse6542::from_biguint(&product(&[0xfff1, 0xffef, 0xffd9, 0xffc7, 0xffa9, 0xffa7, 0xff9d, 0xff8f, 0xff8b, 0xff85, 0xff7f, 0xff71, 0xff65, 0xff5b, 0xff4d, 0xff49]));
    assert_eq!((x.primes(), x.remainder()), (vec![ (0xff49, 1), (0xff4d, 1), (0xff5b, 1), (0xff65, 1), (0xff71, 1), (0xff7f, 1), (0xff85, 1), (0xff8b, 1), (0xff8f, 1), (0xff9d, 1), (0xffa7, 1), (0xffa9, 1), (0xffc7, 1), (0xffd9, 1), (0xffef, 1), (0xfff1, 1) ], None));
    let x = DenomSparse6542::from_biguint(&Natural::from_u64(128));
    assert_eq!((x.primes(), x.remainder()), (vec![(2, 7)], None));
    let x = DenomSparse6542::from_biguint(&Natural::from_u64(89));
    assert_eq!((x.primes(), x.remainder()), (vec![(89, 1)], None));
    let x = DenomSparse6542::from_biguint(&Natural::from_u64(97));
    assert_eq!((x.primes(), x.remainder()), (vec![(97, 1)], None));
    let x = DenomSparse6542::from_biguint(&Natural::from_u64(97000));
    assert_eq!((x.primes(), x.remainder()), (vec![(2, 3), (5, 3), (97, 1)], None));
}

fn decompose_to_biguint<const N: usize>(up_to: u64) {
    for i in 1_u64..=up_to {
        let bigi = Natural::from_u64(i);
        let x = DenomSparseU16::<N>::from_biguint(&bigi);
        assert_eq!(x.to_natural(), bigi);
    }
}

fn decompose_small_prime_power<const N: usize>() {
    for p in basis_primes(N) {
        let bigp = Natural::from_u64(p as u64);
        let x = DenomSparseU16::<N>::from_biguint(&bigp.pow(100));
        assert_eq!((x.primes(), x.remainder()), (vec![(p, 100)], None));
    }
}

fn mul_prime_powers<const N: usize>() {
    let p = Natural::from_u64(2);
    for a in 1..=256 {
        let denom_a = DenomSparseU16::<N>::from_biguint(&p.pow(a));
        for b in 1..=256 {
            let denom_b = DenomSparseU16::<N>::from_biguint(&p.pow(b));
            let denom_ab = DenomSparseU16::<N>::from_biguint(&p.pow(a + b));
            assert_eq!(denom_a.mul(&denom_b), denom_ab);
        }
    }
}

fn div_prime_powers<const N: usize>() {
    let p = Natural::from_u64(2);
    for a in 1..=256 {
        let denom_a = DenomSparseU16::<N>::from_biguint(&p.pow(a));
        for b in 1..=256 {
            let denom_b = DenomSparseU16::<N>::from_biguint(&p.pow(b));
            let denom_ab = DenomSparseU16::<N>::from_biguint(&p.pow(a + b));
            assert_eq!(denom_ab.div(&denom_b), denom_a);
        }
    }
}

fn count_of(pairs: &[(u16, u16)], p: u16) -> u16 {
    pairs.iter().find(|(q, _)| *q == p).map(|(_, c)| *c).unwrap_or(0)
}

fn sparse_product<const N: usize>() {
    let values = (100..200u64)
        .map(|i| DenomSparseU16::<N>::from_biguint(&Natural::from_u64(i)))
        .collect::<Vec<_>>();
    for (i, x) in values.iter().enumerate().map(|(i, x)| (i as u64 + 100, x)) {
        for (j, y) in values.iter().enumerate().map(|(j, y)| (j as u64 + 100, y)) {
            let z = x.mul(y);
            assert_eq!(z, DenomSparseU16::<N>::from_biguint(&Natural::from_u64(i * j)));
            let (zp, xp, yp) = (z.primes(), x.primes(), y.primes());
            for &(p, zcount) in &zp {
                assert_eq!(zcount, count_of(&xp, p) + count_of(&yp, p), "for {p}");
            }
        }
    }
}

fn sparse_normalize<const N: usize>() {
    let values = (100..200u64)
        .map(|i| DenomSparseU16::<N>::from_biguint(&Natural::from_u64(i)))
        .collect::<Vec<_>>();
    for x in &values {
        for y in &values {
            let mut xnum = Integer::one();
            let mut ynum = Integer::one();
            let lcm = DenomSparseU16::<N>::normalize(&mut xnum, &mut ynum, x, y);
            let lcm_bigint = lcm.to_natural();
            assert!(!xnum.negative() && !ynum.negative());
            assert_eq!(xnum.magnitude().mul(&x.to_natural()), lcm_bigint);
            assert_eq!(ynum.magnitude().mul(&y.to_natural()), lcm_bigint);
            let (lp, xp, yp) = (lcm.primes(), x.primes(), y.primes());
            for &(p, lcount) in &lp {
                assert_eq!(
                    lcount,
                    std::cmp::max(count_of(&xp, p), count_of(&yp, p)),
                    "for {p}"
                );
            }
        }
    }
}

fn sparse_gcd_reduce<const N: usize>() {
    let mut num = Integer::from_i128(-3 * 97);
    let mut denom = DenomSparseU16::<N>::from_biguint(&Natural::from_u64(3 * 5 * 97));
    denom.gcd_reduce(&mut num);
    assert_eq!(num, Integer::from_i128(-1));
    assert_eq!(denom, DenomSparseU16::<N>::from_biguint(&Natural::from_u64(5)));
}

#[test]
fn sparse24_decompose_to_biguint() {
    decompose_to_biguint::<24>(1 << 20);
}

#[test]
fn sparse6542_decompose_to_biguint() {
    decompose_to_biguint::<6542>(1 << 20);
}

#[test]
fn sparse24_decompose_small_prime_power() {
    decompose_small_prime_power::<24>();
}

#[test]
fn sparse6542_decompose_small_prime_power() {
    decompose_small_prime_power::<6542>();
}

#[test]
fn sparse24_mul_prime_powers() {
    mul_prime_powers::<24>();
}

#[test]
fn sparse6542_mul_prime_powers() {
    mul_prime_powers::<6542>();
}

#[test]
fn sparse24_div_prime_powers() {
    div_prime_powers::<24>();
}

#[test]
fn sparse6542_div_prime_powers() {
    div_prime_powers::<6542>();
}

#[test]
fn sparse24_product() {
    sparse_product::<24>();
}

#[test]
fn sparse6542_product() {
    sparse_product::<6542>();
}

#[test]
fn sparse24_normalize() {
    sparse_normalize::<24>();
}

#[test]
fn sparse6542_normalize() {
    sparse_normalize::<6542>();
}

#[test]
fn sparse24_gcd_reduce() {
    sparse_gcd_reduce::<24>();
}

#[test]
fn sparse6542_gcd_reduce() {
    sparse_gcd_reduce::<6542>();
}

#[test]
fn sparse_from_each_integer_type_agrees() {
    for v in [1u64, 2, 6, 97, 255, 1000, 65535, 8191 * 3] {
        let expected = DenomSparse6542::from_biguint(&Natural::from_u64(v));
        if v <= 255 {
            assert_eq!(DenomSparse6542::from_u8(v as u8), expected);
        }
        if v <= 65535 {
            assert_eq!(DenomSparse6542::from_u16(v as u16), expected);
        }
        assert_eq!(DenomSparse6542::from_u32(v as u32), expected);
        assert_eq!(DenomSparse6542::from_u64(v), expected);
        assert_eq!(DenomSparse6542::from_u128(v as u128), expected);
        assert_eq!(DenomSparse6542::from_usize(v as usize), expected);
    }
}

#[test]
fn sparse_primes_beyond_the_array_go_to_the_remainder() {
    // 97 is the 25th prime: not among the first 24.
    let x = DenomSparseU16::<24>::from_u64(97 * 89 * 4);
    assert_eq!(x.primes(), vec![(2, 2), (89, 1)]);
    assert_eq!(x.remainder(), Some(Natural::from_u64(97)));
    let y = DenomSparseU16::<24>::from_biguint(&product(&[97, 97, 3]).pow(10));
    assert_eq!(y.primes(), vec![(3, 10)]);
    assert_eq!(y.remainder(), Some(Natural::from_u64(97 * 97).pow(10)));
}

#[test]
fn sparse_pow_mul_integer_and_one() {
    let x = DenomSparse6542::from_u64(12 * 101);
    let y = x.pow(3);
    assert_eq!(y.to_natural(), Natural::from_u64(12 * 101).pow(3));
    assert_eq!(y.primes(), vec![(2, 6), (3, 3), (101, 3)]);
    assert_eq!(x.pow(0), DenomSparse6542::one());
    assert_eq!(DenomSparse6542::one().to_natural(), Natural::one());
    assert_eq!(
        x.mul_integer(&Integer::from_i128(-7)),
        Integer::from_i128(-7 * 12 * 101)
    );
    let big = DenomSparse6542::from_u64(2).pow(70000);
    assert_eq!(big.primes(), vec![(2, 0xFFFF)]);
    assert_eq!(big.remainder(), Some(Natural::from_u64(2).pow(70000 - 0xFFFF)));
}

#[test]
fn sparse_div_and_assign() {
    let x = DenomSparse6542::from_u64(97 * 97 * 6);
    let y = DenomSparse6542::from_u64(97 * 2);
    assert_eq!(x.div(&y), DenomSparse6542::from_u64(97 * 3));
    let mut z = x.div(&x);
    assert_eq!(z, DenomSparse6542::one());
    z.mul_assign(&y);
    assert_eq!(z, y);
    z.div_assign(&y);
    assert_eq!(z, DenomSparse6542::one());
    // Saturated exponents come back out of the remainder.
    let two = Natural::from_u64(2);
    let big = DenomSparse6542::from_biguint(&two.pow(70000));
    let small = DenomSparse6542::from_biguint(&two.pow(10));
    assert_eq!(big.div(&small), DenomSparse6542::from_biguint(&two.pow(69990)));
}

#[test]
fn sparse_div_of_a_saturated_exponent_moves_the_remainder_back() {
    let two = Natural::from_u64(2);
    let x = DenomSparse6542::from_biguint(&two.pow(70000));
    assert_eq!(x.primes(), vec![(2, 0xFFFF)]);
    assert_eq!(x.remainder(), Some(two.pow(70000 - 0xFFFF)));
    let y = DenomSparse6542::from_biguint(&two.pow(10000));
    let q = x.div(&y);
    assert_eq!(q.primes(), vec![(2, 60000)]);
    assert_eq!(q.remainder(), None);
    assert_eq!(q, DenomSparse6542::from_biguint(&two.pow(60000)));
    let one = x.div(&x);
    assert_eq!(one.primes(), vec![]);
    assert_eq!(one.remainder(), None);
    assert_eq!(one, DenomSparse6542::one());
}

#[test]
fn sparse_gcd_reduce_of_a_saturated_exponent_keeps_canonical_form() {
    let two = Natural::from_u64(2);
    let mut num = Integer::from_natural(false, two.pow(70000 - 0xFFFF + 5));
    let mut denom = DenomSparse6542::from_biguint(&two.pow(70000));
    denom.gcd_reduce(&mut num);
    assert_eq!(num, Integer::from_i128(1));
    assert_eq!(denom.primes(), vec![(2, 0xFFFF - 5)]);
    assert_eq!(denom.remainder(), None);
    assert_eq!(denom, DenomSparse6542::from_biguint(&two.pow(0xFFFF - 5)));
}
