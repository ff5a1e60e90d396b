use smart_big_rational::bignum::{Integer, Natural};
use smart_big_rational::{Denom, DenomArray24, SmartBigRational};
use std::cmp::Ordering;

type Rational = SmartBigRational<DenomArray24>;

fn ratio(num: i128, denom: u32) -> Rational {
    SmartBigRational::ratio(Integer::from_i128(num), DenomArray24::from_u32(denom))
}

fn zero() -> Rational {
    SmartBigRational::zero()
}

fn one() -> Rational {
    SmartBigRational::one()
}

fn get_positive_test_values() -> Vec<Rational> {
    let mut result = Vec::new();
    for i in 0..=30 {
        result.push(ratio(1 << i, 1u32));
    }
    for i in 0..=30 {
        result.push(ratio(1, 1u32 << i));
    }
    for i in 0..=30 {
        result.push(ratio(0x7FFF_FFFF - (1 << i), 1u32));
    }
    for i in 0..=30 {
        result.push(ratio(1, 0x7FFF_FFFF - (1u32 << i)));
    }
    result
}

fn loop_check1<T>(test_values: &[T], f: impl Fn(&T)) {
    for a in test_values {
        f(a);
    }
}

fn loop_check2<T>(test_values: &[T], f: impl Fn(&T, &T)) {
    for a in test_values {
        for b in test_values {
            f(a, b);
        }
    }
}

fn loop_check3<T>(test_values: &[T], f: impl Fn(&T, &T, &T)) {
    for a in test_values {
        for b in test_values {
            for c in test_values {
                f(a, b, c);
            }
        }
    }
}

#[test]
fn test_is_zero() {
    let test_values = get_positive_test_values();
    assert!(zero().is_zero());
    assert!(!one().is_zero());
    loop_check1(&test_values, |a| {
        assert!(!a.is_zero(), "{a:?} is zero");
    });
}

#[test]
fn test_zero_is_add_neutral() {
    let test_values = get_positive_test_values();
    loop_check1(&test_values, |a| {
        assert_eq!(&a.add(&zero()), a, "a + 0 != a for {a:?}");
        assert_eq!(&zero().add(a), a, "0 + a != a for {a:?}");
        assert_eq!(&a.sub(&zero()), a, "a - 0 != a for {a:?}");
    })
}

#[test]
fn test_add_is_commutative() {
    let test_values = get_positive_test_values();
    loop_check2(&test_values, |a, b| {
        assert_eq!(a.add(b), b.add(a), "a + b != b + a for {a:?}, {b:?}");
    })
}

#[test]
fn test_add_is_associative() {
    let test_values = get_positive_test_values();
    loop_check3(&test_values, |a, b, c| {
        assert_eq!(
            a.add(b).add(c),
            a.add(&b.add(c)),
            "(a + b) + c != a + (b + c) for {a:?}, {b:?}, {c:?}"
        );
    })
}

#[test]
fn test_opposite() {
    let test_values = get_positive_test_values();
    loop_check1(&test_values, |a| {
        assert_eq!(&a.neg().neg(), a, "-(-a) != a for {a:?}");
        assert_eq!(&zero().sub(&zero().sub(a)), a, "0 - (0 - a) != a for {a:?}");
    });
}

#[test]
fn test_sub_self() {
    let test_values = get_positive_test_values();
    loop_check1(&test_values, |a| {
        assert_eq!(a.sub(a), zero(), "a - a != 0 for {a:?}");
    });
}

#[test]
fn test_add_sub() {
    let test_values = get_positive_test_values();
    loop_check2(&test_values, |a, b| {
        assert_eq!(&a.add(b).sub(b), a, "(a + b) - b != a for {a:?}, {b:?}");
    });
}

#[test]
fn test_sub_add() {
    let test_values = get_positive_test_values();
    loop_check2(&test_values, |a, b| {
        assert_eq!(&a.sub(b).add(b), a, "(a - b) + b != a for {a:?}, {b:?}");
    });
}

#[test]
fn test_one_is_mul_neutral() {
    let test_values = get_positive_test_values();
    loop_check1(&test_values, |a| {
        assert_eq!(&a.mul(&one()), a, "a * 1 != a for {a:?}");
        assert_eq!(&one().mul(a), a, "1 * a != a for {a:?}");
    })
}

#[test]
fn test_mul_is_commutative() {
    let test_values = get_positive_test_values();
    loop_check2(&test_values, |a, b| {
        assert_eq!(a.mul(b), b.mul(a), "a * b != b * a for {a:?}, {b:?}");
    })
}

#[test]
fn test_mul_is_associative() {
    let test_values = get_positive_test_values();
    loop_check3(&test_values, |a, b, c| {
        assert_eq!(
            a.mul(b).mul(c),
            a.mul(&b.mul(c)),
            "(a * b) * c != a * (b * c) for {a:?}, {b:?}, {c:?}"
        );
    })
}

#[test]
fn test_mul_is_distributive() {
    let test_values = get_positive_test_values();
    loop_check3(&test_values, |a, b, c| {
        assert_eq!(
            a.mul(&b.add(c)),
            a.mul(b).add(&a.mul(c)),
            "a * (b + c) != (a * b) + (a * c) for {a:?}, {b:?}, {c:?}"
        );
    })
}

#[test]
fn test_one_is_div_neutral() {
    let test_values = get_positive_test_values();
    loop_check1(&test_values, |a| {
        assert_eq!(&a.div(&one()), a, "a / 1 != a for {a:?}");
    })
}

#[test]
fn test_div_self() {
    let test_values = get_positive_test_values();
    loop_check1(&test_values, |a| {
        assert_eq!(a.div(a), one(), "a / a != 1 for {a:?}");
    });
}

#[test]
fn test_mul_div() {
    let test_values = get_positive_test_values();
    loop_check2(&test_values, |a, b| {
        assert_eq!(&a.mul(b).div(b), a, "(a * b) / b != a for {a:?}, {b:?}");
    });
}

#[test]
fn to_big_rational_reduces_to_lowest_terms() {
    let x = ratio(2, 3u32);
    assert_eq!(x.to_big_rational(), (Integer::from_i128(2), Natural::from_u64(3)));
    let y = ratio(-6, 4u32);
    assert_eq!(y.to_big_rational(), (Integer::from_i128(-3), Natural::from_u64(2)));
    let z = ratio(0, 12u32);
    assert_eq!(z.into_big_rational(), (Integer::from_i128(0), Natural::from_u64(1)));
    let w = ratio(12, 12u32);
    assert_eq!(w.to_big_rational(), (Integer::from_i128(1), Natural::from_u64(1)));
}

#[test]
fn raw_parts_are_kept_without_reduction() {
    let x = ratio(6, 4u32);
    assert_eq!(x.numer(), &Integer::from_i128(6));
    assert_eq!(x.denom(), &DenomArray24::from_u32(4));
    let (n, d) = x.into_raw();
    assert_eq!(n, Integer::from_i128(6));
    assert_eq!(d, DenomArray24::from_u32(4));
}

#[test]
fn reduce_divides_common_factors() {
    let mut x = ratio(-6 * 97, 4 * 97);
    x.reduce();
    assert_eq!(x.numer(), &Integer::from_i128(-3));
    assert_eq!(x.denom(), &DenomArray24::from_u32(2));
    assert_eq!(x, ratio(-3, 2));
}

#[test]
fn comparisons_follow_the_values() {
    let a = ratio(1, 3);
    let b = ratio(1, 2);
    let c = ratio(-1, 2);
    assert_eq!(a.cmp(&b), Ordering::Less);
    assert_eq!(b.cmp(&a), Ordering::Greater);
    assert_eq!(c.cmp(&a), Ordering::Less);
    assert_eq!(a.cmp(&ratio(2, 6)), Ordering::Equal);
    assert!(a < b);
    assert!(c < zero());
    assert_eq!(zero().partial_cmp(&ratio(0, 5)), Some(Ordering::Equal));
    assert!(ratio(2, 4) == ratio(1, 2));
    assert!(ratio(2, 4) != ratio(-1, 2));
}

#[test]
fn integer_operations() {
    let x = ratio(1, 3);
    assert_eq!(x.add_integer(&Integer::from_i128(2)), ratio(7, 3));
    assert_eq!(x.sub_integer(&Integer::from_i128(2)), ratio(-5, 3));
    assert_eq!(x.mul_integer(&Integer::from_i128(-6)), ratio(-2, 1));
    assert_eq!(x.div_natural(&Natural::from_u64(5)), ratio(1, 15));
    let mut y = x.copy();
    y.add_assign_integer(&Integer::from_i128(1));
    y.sub_assign_integer(&Integer::from_i128(2));
    y.mul_assign_integer(&Integer::from_i128(3));
    y.div_assign_natural(&Natural::from_u64(2));
    assert_eq!(y, ratio(-1, 1));
    assert_eq!(
        Rational::from_integer(Integer::from_i128(-4)),
        ratio(-8, 2)
    );
    assert_eq!(
        Rational::from_big_rational(Integer::from_i128(5), &Natural::from_u64(7)),
        ratio(10, 14)
    );
}

#[test]
fn assign_operations_and_pow() {
    let mut x = ratio(1, 2);
    x.add_assign(&ratio(1, 3));
    assert_eq!(x, ratio(5, 6));
    x.sub_assign(&ratio(1, 6));
    assert_eq!(x, ratio(2, 3));
    x.mul_assign(&ratio(-3, 4));
    assert_eq!(x, ratio(-1, 2));
    x.div_assign(&ratio(-1, 4));
    assert_eq!(x, ratio(2, 1));
    assert_eq!(ratio(-2, 3).pow(3), ratio(-8, 27));
    assert_eq!(ratio(5, 7).pow(0), one());
}

#[test]
fn sum_and_product_of_values() {
    let values = vec![ratio(1, 2), ratio(1, 3), ratio(1, 6)];
    assert_eq!(Rational::sum(&values), one());
    assert_eq!(Rational::product(&values), ratio(1, 36));
    assert_eq!(Rational::sum(&vec![]), zero());
    assert_eq!(Rational::product(&vec![]), one());
}

#[test]
fn division_moves_the_sign_to_the_numerator() {
    let x = ratio(3, 4).div(&ratio(-2, 5));
    assert!(x.numer().negative());
    assert_eq!(x, ratio(-15, 8));
}

#[test]
fn equal_values_give_equal_results() {
    // 1/2 and 2/4 are the same number: every operation agrees on them.
    let (a, c) = (ratio(1, 2), ratio(2, 4));
    let (b, d) = (ratio(-1, 3), ratio(-3, 9));
    assert_eq!(a, c);
    assert_eq!(a.add(&b), c.add(&d));
    assert_eq!(a.sub(&b), c.sub(&d));
    assert_eq!(a.mul(&b), c.mul(&d));
    assert_eq!(a.div(&b), c.div(&d));
    assert_eq!(a.neg(), c.neg());
    assert_eq!(a.cmp(&b), c.cmp(&d));
    // The order is transitive and reverses with the operands.
    let e = ratio(3, 4);
    assert!(b < a && a < e && b < e);
    assert_eq!(a.cmp(&e), Ordering::Less);
    assert_eq!(e.cmp(&a), Ordering::Greater);
}

#[test]
fn reduce_leaves_no_listed_common_factor() {
    let mut x = ratio(2 * 3 * 97 * 101, 4 * 3 * 97);
    x.reduce();
    assert_eq!(x.to_big_rational(), (Integer::from_i128(101), Natural::from_u64(2)));
    assert_eq!(x.numer(), &Integer::from_i128(101));
}

#[test]
fn div_moves_the_sign_and_denominator_of_the_divisor() {
    let x = ratio(7, 3);
    let y = ratio(-2, 5);
    let q = x.div(&y);
    assert_eq!(*q.numer(), Integer::from_i128(-35));
    assert_eq!(q.denom().to_natural(), Natural::from_u64(6));
    let mut z = ratio(7, 3);
    z.div_assign(&ratio(2, 5));
    assert_eq!(*z.numer(), Integer::from_i128(35));
    assert_eq!(z.denom().to_natural(), Natural::from_u64(6));
}
