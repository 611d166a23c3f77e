use curta::cubic::CubicValue;
use curta::field::{Fp, FIELD_ORDER};

#[test]
fn test_field_add_wraps_at_order() {
    let a = Fp::from_u64(FIELD_ORDER - 1);
    let b = Fp::one();
    let s = a.add(b);
    assert_eq!(s.v, 0);
}

#[test]
fn test_field_mul_known_value() {
    let a = Fp::from_u64(1 << 32);
    let b = Fp::from_u64(1 << 32);
    let prod = a.mul(b);
    // 2^64 mod (2^64 - 2^32 + 1) == 2^32 - 1.
    assert_eq!(prod.v, (1u64 << 32) - 1);
}

#[test]
fn test_field_sub_and_neg_agree() {
    let a = Fp::from_u64(5);
    let b = Fp::from_u64(9);
    let d = a.sub(b);
    let expected = b.sub(a).neg();
    assert_eq!(d, expected);
    assert_eq!(d.v, FIELD_ORDER - 4);
}

#[test]
fn test_field_inverse() {
    let a = Fp::from_u64(5);
    let inv = a.try_inverse().expect("5 is invertible");
    assert_eq!(a.mul(inv).v, 1);
    assert!(Fp::zero().try_inverse().is_none());
}

#[test]
fn test_cubic_mul_by_one() {
    let a = CubicValue { c0: Fp::from_u64(17), c1: Fp::from_u64(29), c2: Fp::from_u64(31) };
    let one = CubicValue::one();
    assert_eq!(a.mul(one), a);
    assert_eq!(one.mul(a), a);
}

#[test]
fn test_cubic_nonresidue_reduction() {
    // X * X^2 == X^3 == 2 in the extension.
    let x = CubicValue { c0: Fp::zero(), c1: Fp::one(), c2: Fp::zero() };
    let x2 = CubicValue { c0: Fp::zero(), c1: Fp::zero(), c2: Fp::one() };
    let prod = x.mul(x2);
    assert_eq!(prod.c0.v, 2);
    assert_eq!(prod.c1.v, 0);
    assert_eq!(prod.c2.v, 0);
}

#[test]
fn test_cubic_inverse() {
    let a = CubicValue { c0: Fp::from_u64(3), c1: Fp::from_u64(11), c2: Fp::from_u64(200) };
    let inv = a.try_inverse().expect("nonzero element is invertible");
    let prod = a.mul(inv);
    assert_eq!(prod, CubicValue::one());
    assert!(CubicValue::zero().try_inverse().is_none());
}

#[test]
fn test_cubic_sub_add_round_trip() {
    let a = CubicValue { c0: Fp::from_u64(77), c1: Fp::from_u64(1), c2: Fp::from_u64(0) };
    let b = CubicValue { c0: Fp::from_u64(99), c1: Fp::from_u64(12345), c2: Fp::from_u64(6) };
    let d = a.sub(b);
    assert_eq!(d.add(b), a);
}

#[test]
fn test_field_pow_known_values() {
    let two = Fp::from_u64(2);
    assert_eq!(two.pow(10).v, 1024);
    // 2^64 mod (2^64 - 2^32 + 1) == 2^32 - 1.
    assert_eq!(two.pow(64).v, (1u64 << 32) - 1);
    assert_eq!(two.pow(0).v, 1);
}

#[test]
fn test_cubic_pow_known_values() {
    // X^3 == 2 in the extension, so X^6 == 4.
    let x = CubicValue { c0: Fp::zero(), c1: Fp::one(), c2: Fp::zero() };
    let x3 = x.cpow_u64(3);
    assert_eq!(x3, CubicValue { c0: Fp::from_u64(2), c1: Fp::zero(), c2: Fp::zero() });
    let x6 = x.cpow_u64(6);
    assert_eq!(x6, CubicValue { c0: Fp::from_u64(4), c1: Fp::zero(), c2: Fp::zero() });
    assert_eq!(x.cpow_u64(0), CubicValue::one());
}
