use smart_big_rational::bignum::{Integer, Natural};

fn n(x: u128) -> Natural {
    Natural::from_u128(x)
}

fn i(x: i128) -> Integer {
    Integer::from_i128(x)
}

#[test]
fn natural_construction_and_digits() {
    assert_eq!(n(0), Natural::zero());
    assert_eq!(n(1), Natural::one());
    assert_eq!(Natural::from_u64(u64::MAX).to_u128(), u64::MAX as u128);
    assert_eq!(n(u128::MAX).to_u128(), u128::MAX);
    let x = Natural::from_slice(&[1, 2, 0, 0]);
    assert_eq!(x.to_u128(), 1 + (2u128 << 32));
    assert_eq!(x.to_u32_digits(), vec![1, 2]);
    assert_eq!(x.copy(), x);
}

#[test]
fn natural_arithmetic() {
    assert_eq!(n(7).add(&n(5)), n(12));
    assert_eq!(n(7).mul(&n(5)), n(35));
    assert_eq!(n(3).pow(5), n(243));
    assert_eq!(n(3).pow(0), n(1));
    assert_eq!(n(17).div_rem(&n(5)), (n(3), n(2)));
    assert_eq!(n(17).div(&n(5)), n(3));
    assert_eq!(n(12).gcd(&n(18)), n(6));
    assert_eq!(n(12).gcd(&n(0)), n(12));
    assert_eq!(n(u128::MAX).add(&n(1)).to_u32_digits(), vec![0, 0, 0, 0, 1]);
}

#[test]
fn natural_comparisons_and_bits() {
    assert!(n(5).equals(&n(5)));
    assert!(!n(5).equals(&n(6)));
    assert!(n(5).less_than(&n(6)));
    assert!(!n(6).less_than(&n(6)));
    assert!(n(0).is_zero() && !n(1).is_zero());
    assert!(n(1).is_one() && !n(2).is_one());
    assert_eq!(n(40).trailing_zeros(), 3);
    assert_eq!(n(40).shr(3), n(5));
    assert_eq!(n(5).shl(3), n(40));
    assert_eq!(n(255).bits(), 8);
    assert_eq!(n(256).bits(), 9);
    assert_eq!(n(0).bits(), 0);
}

#[test]
fn integer_sign_and_magnitude() {
    let x = Integer::from_natural(true, n(5));
    assert_eq!(x, i(-5));
    assert_eq!(Integer::from_natural(true, n(0)), Integer::zero());
    assert!(x.negative());
    assert_eq!(x.magnitude(), n(5));
    assert_eq!(x.neg(), i(5));
    assert!(i(-1).is_unit() && i(1).is_unit() && !i(2).is_unit());
    assert!(Integer::zero().is_zero() && !Integer::one().is_zero());
    assert_eq!(i(i128::MIN).magnitude(), n(1u128 << 127));
    assert_eq!(x.copy(), x);
}

#[test]
fn integer_arithmetic() {
    assert_eq!(i(-7).add(&i(5)), i(-2));
    assert_eq!(i(-7).sub(&i(5)), i(-12));
    assert_eq!(i(-7).mul(&i(5)), i(-35));
    assert_eq!(i(-7).mul_natural(&n(5)), i(-35));
    assert_eq!(i(-2).pow(3), i(-8));
    assert_eq!(i(-2).pow(4), i(16));
    assert_eq!(i(-17).div_rem_natural(&n(5)), (i(-3), i(-2)));
    assert_eq!(i(17).div_rem_natural(&n(5)), (i(3), i(2)));
    assert_eq!(i(-17).div_natural(&n(5)), i(-3));
}
