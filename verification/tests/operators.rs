use whitenoise::error::Error;
use whitenoise::operators::{
    bool_binary, bool_unary, checked_pow_i64, int_binary, int_bounds, int_unary, int_unary_bounds, str_binary,
    BoolBinaryOp, BoolUnaryOp, IntBinaryOp, IntBoundsOp, IntUnaryBoundsOp, IntUnaryOp, StrBinaryOp,
};
use whitenoise::transforms::{BinaryBounds, UnaryBounds};

#[test]
fn checked_pow_exact_values() {
    assert_eq!(checked_pow_i64(2, 10), Some(1024));
    assert_eq!(checked_pow_i64(-3, 3), Some(-27));
    assert_eq!(checked_pow_i64(7, 0), Some(1));
    assert_eq!(checked_pow_i64(0, 0), Some(1));
    assert_eq!(checked_pow_i64(0, 5), Some(0));
    assert_eq!(checked_pow_i64(1, u32::MAX), Some(1));
    assert_eq!(checked_pow_i64(-1, u32::MAX), Some(-1));
    assert_eq!(checked_pow_i64(-1, 4_000_000_000), Some(1));
    assert_eq!(checked_pow_i64(2, 62), Some(1i64 << 62));
    assert_eq!(checked_pow_i64(-2, 63), Some(i64::MIN));
}

#[test]
fn checked_pow_overflow() {
    assert_eq!(checked_pow_i64(2, 63), None);
    assert_eq!(checked_pow_i64(10, 19), None);
    assert_eq!(checked_pow_i64(3, u32::MAX), None);
}

#[test]
fn checked_pow_agrees_with_std() {
    for base in -12i64..=12 {
        for exp in 0u32..=70 {
            assert_eq!(checked_pow_i64(base, exp), base.checked_pow(exp), "{}^{}", base, exp);
        }
    }
}

#[test]
fn integer_operators() {
    assert_eq!(int_binary(IntBinaryOp::Add, &2, &3), Ok(5));
    assert_eq!(int_binary(IntBinaryOp::Add, &i64::MAX, &1), Err(Error::AdditionOverflow));
    assert_eq!(int_binary(IntBinaryOp::Subtract, &2, &3), Ok(-1));
    assert_eq!(int_binary(IntBinaryOp::Subtract, &i64::MIN, &1), Err(Error::SubtractionOverflow));
    assert_eq!(int_binary(IntBinaryOp::Multiply, &-4, &3), Ok(-12));
    assert_eq!(int_binary(IntBinaryOp::Multiply, &i64::MAX, &2), Err(Error::MultiplicationOverflow));
    assert_eq!(int_binary(IntBinaryOp::Divide, &-7, &2), Ok(-3));
    assert_eq!(int_binary(IntBinaryOp::Divide, &7, &0), Err(Error::IntegerDivisionInvalid));
    assert_eq!(int_binary(IntBinaryOp::Divide, &i64::MIN, &-1), Err(Error::IntegerDivisionInvalid));
    assert_eq!(int_binary(IntBinaryOp::Power, &3, &4), Ok(81));
    assert_eq!(int_binary(IntBinaryOp::Power, &3, &200), Err(Error::PowerOverflow));
    assert_eq!(int_binary(IntBinaryOp::Modulo, &-7, &3), Ok(2));
    assert_eq!(int_binary(IntBinaryOp::Modulo, &7, &-3), Ok(1));
}

#[test]
fn power_takes_exponent_as_u32() {
    // 2^32 + 3 is taken as the exponent 3
    assert_eq!(int_binary(IntBinaryOp::Power, &2, &((1i64 << 32) + 3)), Ok(8));
}

#[test]
fn boolean_and_string_operators() {
    assert!(bool_binary(BoolBinaryOp::And, &true, &true));
    assert!(!bool_binary(BoolBinaryOp::And, &true, &false));
    assert!(bool_binary(BoolBinaryOp::Or, &false, &true));
    assert!(!bool_binary(BoolBinaryOp::Or, &false, &false));
    assert!(!bool_unary(BoolUnaryOp::Not, &true));
    assert_eq!(str_binary(StrBinaryOp::Concat, &"ab".to_string(), &"cd".to_string()), "abcd".to_string());
    assert_eq!(int_unary(IntUnaryOp::Negate, &5), -5);
}

#[test]
fn integer_bounds_operators() {
    let (a, b, c, d) = (Some(1i64), Some(5i64), Some(10i64), Some(20i64));
    let bounds = BinaryBounds { left_min: &a, left_max: &b, right_min: &c, right_max: &d };
    assert_eq!(int_bounds(IntBoundsOp::Add, bounds), Ok((Some(11), Some(25))));
    let bounds = BinaryBounds { left_min: &a, left_max: &b, right_min: &c, right_max: &d };
    assert_eq!(int_bounds(IntBoundsOp::Subtract, bounds), Ok((Some(-9), Some(-15))));
    let bounds = BinaryBounds { left_min: &a, left_max: &b, right_min: &c, right_max: &d };
    assert_eq!(int_bounds(IntBoundsOp::Modulo, bounds), Ok((Some(0), Some(19))));
    let none: Option<i64> = None;
    let bounds = BinaryBounds { left_min: &none, left_max: &b, right_min: &c, right_max: &d };
    assert_eq!(int_bounds(IntBoundsOp::Add, bounds), Ok((None, Some(25))));
    let big = Some(i64::MAX);
    let bounds = BinaryBounds { left_min: &a, left_max: &big, right_min: &c, right_max: &d };
    assert_eq!(int_bounds(IntBoundsOp::Add, bounds), Err(Error::AdditionOverflow));
    let bounds = UnaryBounds { min: &a, max: &b };
    assert_eq!(int_unary_bounds(IntUnaryBoundsOp::Negate, bounds), (Some(-5), Some(-1)));
}

#[test]
fn sum_bounds_contain_sums() {
    for x in 1i64..=5 {
        for y in 10i64..=20 {
            let (a, b, c, d) = (Some(1i64), Some(5i64), Some(10i64), Some(20i64));
            let bounds = BinaryBounds { left_min: &a, left_max: &b, right_min: &c, right_max: &d };
            let (lo, hi) = int_bounds(IntBoundsOp::Add, bounds).unwrap();
            let z = int_binary(IntBinaryOp::Add, &x, &y).unwrap();
            assert!(lo.unwrap() <= z && z <= hi.unwrap());
            let bounds = BinaryBounds { left_min: &a, left_max: &b, right_min: &c, right_max: &d };
            let (lo, hi) = int_bounds(IntBoundsOp::Modulo, bounds).unwrap();
            let z = int_binary(IntBinaryOp::Modulo, &x, &y).unwrap();
            assert!(lo.unwrap() <= z && z <= hi.unwrap());
        }
    }
}

#[test]
fn negated_bounds_contain_negations() {
    for x in -3i64..=4 {
        let (a, b) = (Some(-3i64), Some(4i64));
        let (lo, hi) = int_unary_bounds(IntUnaryBoundsOp::Negate, UnaryBounds { min: &a, max: &b });
        let z = int_unary(IntUnaryOp::Negate, &x);
        assert!(lo.unwrap() <= z && z <= hi.unwrap());
    }
}
