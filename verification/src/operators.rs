use vstd::prelude::*;
use vstd::arithmetic::power::pow;
use crate::error::Error;
use crate::transforms::{BinaryBounds, UnaryBounds};

verus! {

// ---------------------------------------------------------------------------
// Integer powers
// ---------------------------------------------------------------------------

/// `base` to the power `exp`, when it fits in an `i64`.
pub open spec fn checked_pow_spec(base: i64, exp: u32) -> Option<i64> {
    let p = pow(base as int, exp as nat);
    if i64::MIN <= p <= i64::MAX {
        Some(p as i64)
    } else {
        None
    }
}

pub open spec fn abs(x: int) -> int {
    if x < 0 { -x } else { x }
}

proof fn lemma_pow_zero(e: nat)
    requires
        e > 0,
    ensures
        pow(0, e) == 0,
{
    reveal(pow);
    assert(pow(0, e) == 0 * pow(0, (e - 1) as nat));
}

proof fn lemma_pow_one(e: nat)
    ensures
        pow(1, e) == 1,
    decreases e,
{
    reveal(pow);
    if e > 0 {
        lemma_pow_one((e - 1) as nat);
    }
}

proof fn lemma_pow_minus_one(e: nat)
    ensures
        pow(-1, e) == (if e % 2 == 0 { 1int } else { -1int }),
    decreases e,
{
    reveal(pow);
    if e > 0 {
        lemma_pow_minus_one((e - 1) as nat);
    }
}

proof fn lemma_abs_mul(a: int, b: int)
    ensures
        abs(a * b) == abs(a) * abs(b),
{
    assert(abs(a * b) == abs(a) * abs(b)) by (nonlinear_arith);
}

/// Powers of a base of magnitude at least two at least double with each step.
proof fn lemma_pow_grows(b: int, k: nat, e: nat)
    requires
        abs(b) >= 2,
        k <= e,
    ensures
        abs(pow(b, e)) >= abs(pow(b, k)),
        k < e ==> abs(pow(b, e)) >= 2 * abs(pow(b, k)),
    decreases e,
{
    reveal(pow);
    if k < e {
        let e1 = (e - 1) as nat;
        lemma_pow_grows(b, k, e1);
        lemma_abs_mul(b, pow(b, e1));
        let x = abs(pow(b, e1));
        let y = abs(pow(b, k));
        let a = abs(b);
        assert(a * x >= 2 * x) by (nonlinear_arith)
            requires
                a >= 2,
                x >= 0,
        ;
        assert(2 * x >= 2 * y);
    }
}

/// `base` to the power `exp`, or `None` when the power does not fit.
pub fn checked_pow_i64(base: i64, exp: u32) -> (r: Option<i64>)
    ensures
        r == checked_pow_spec(base, exp),
{
    proof {
        reveal(pow);
    }
    if base == 0 {
        if exp == 0 {
            return Some(1);
        }
        proof {
            lemma_pow_zero(exp as nat);
        }
        return Some(0);
    }
    if base == 1 {
        proof {
            lemma_pow_one(exp as nat);
        }
        return Some(1);
    }
    if base == -1 {
        proof {
            lemma_pow_minus_one(exp as nat);
        }
        return if exp % 2 == 0 { Some(1) } else { Some(-1) };
    }
    let mut acc: i64 = 1;
    let mut k: u32 = 0;
    while k < exp
        invariant
            k <= exp,
            abs(base as int) >= 2,
            acc as int == pow(base as int, k as nat),
        decreases exp - k,
    {
        proof {
            reveal(pow);
        }
        let ghost next = pow(base as int, (k + 1) as nat);
        assert(next == base * pow(base as int, k as nat));
        assert(acc * base == base * acc) by (nonlinear_arith);
        match acc.checked_mul(base) {
            Some(v) => {
                acc = v;
                k = k + 1;
            },
            None => {
                proof {
                    assert(next > i64::MAX || next < i64::MIN);
                    assert(abs(next) >= 0x8000_0000_0000_0000);
                    lemma_pow_grows(base as int, (k + 1) as nat, exp as nat);
                }
                return None;
            },
        }
    }
    Some(acc)
}

// ---------------------------------------------------------------------------
// Operators on categories
// ---------------------------------------------------------------------------

/// An element-wise operator on integers.
#[derive(Debug, Clone, Copy, PartialEq, Eq, Structural)]
pub enum IntBinaryOp {
    Add,
    Subtract,
    Multiply,
    Divide,
    /// raises to the power of the right operand taken as a `u32`
    Power,
    /// the Euclidean remainder
    Modulo,
}

/// The inputs on which an integer operator is defined (the others make the
/// operator panic).
pub open spec fn int_binary_defined(op: IntBinaryOp, l: i64, r: i64) -> bool {
    op == IntBinaryOp::Modulo ==> (r != 0 && !(l == i64::MIN && r == -1))
}

pub open spec fn in_range(x: int) -> bool {
    i64::MIN <= x <= i64::MAX
}

pub open spec fn int_binary_spec(op: IntBinaryOp, l: i64, r: i64) -> Result<i64, Error> {
    match op {
        IntBinaryOp::Add => if in_range(l + r) { Ok((l + r) as i64) } else { Err(Error::AdditionOverflow) },
        IntBinaryOp::Subtract => if in_range(l - r) { Ok((l - r) as i64) } else { Err(Error::SubtractionOverflow) },
        IntBinaryOp::Multiply => if in_range(l * r) { Ok((l * r) as i64) } else { Err(Error::MultiplicationOverflow) },
        IntBinaryOp::Divide => match l.checked_div(r) {
            Some(v) => Ok(v),
            None => Err(Error::IntegerDivisionInvalid),
        },
        IntBinaryOp::Power => match checked_pow_spec(l, r as u32) {
            Some(v) => Ok(v),
            None => Err(Error::PowerOverflow),
        },
        IntBinaryOp::Modulo => Ok((l % r) as i64),
    }
}

pub fn int_binary(op: IntBinaryOp, l: &i64, r: &i64) -> (res: Result<i64, Error>)
    requires
        int_binary_defined(op, *l, *r),
    ensures
        res == int_binary_spec(op, *l, *r),
{
    let l = *l;
    let r = *r;
    match op {
        IntBinaryOp::Add => match l.checked_add(r) {
            Some(v) => Ok(v),
            None => Err(Error::AdditionOverflow),
        },
        IntBinaryOp::Subtract => match l.checked_sub(r) {
            Some(v) => Ok(v),
            None => Err(Error::SubtractionOverflow),
        },
        IntBinaryOp::Multiply => match l.checked_mul(r) {
            Some(v) => Ok(v),
            None => Err(Error::MultiplicationOverflow),
        },
        IntBinaryOp::Divide => match l.checked_div(r) {
            Some(v) => Ok(v),
            None => Err(Error::IntegerDivisionInvalid),
        },
        IntBinaryOp::Power => match checked_pow_i64(l, r as u32) {
            Some(v) => Ok(v),
            None => Err(Error::PowerOverflow),
        },
        IntBinaryOp::Modulo => match l.checked_rem_euclid(r) {
            Some(v) => Ok(v),
            None => Err(Error::IntegerDivisionInvalid),
        },
    }
}

/// An element-wise operator on booleans.
#[derive(Debug, Clone, Copy, PartialEq, Eq, Structural)]
pub enum BoolBinaryOp {
    And,
    Or,
}

pub open spec fn bool_binary_spec(op: BoolBinaryOp, l: bool, r: bool) -> bool {
    match op {
        BoolBinaryOp::And => l && r,
        BoolBinaryOp::Or => l || r,
    }
}

pub fn bool_binary(op: BoolBinaryOp, l: &bool, r: &bool) -> (res: bool)
    ensures
        res == bool_binary_spec(op, *l, *r),
{
    match op {
        BoolBinaryOp::And => *l && *r,
        BoolBinaryOp::Or => *l || *r,
    }
}

/// An element-wise operator on strings.
#[derive(Debug, Clone, Copy, PartialEq, Eq, Structural)]
pub enum StrBinaryOp {
    /// the left string followed by the right one
    Concat,
}

pub open spec fn str_binary_spec(op: StrBinaryOp, l: Seq<char>, r: Seq<char>) -> Seq<char> {
    match op {
        StrBinaryOp::Concat => l + r,
    }
}

pub fn str_binary(op: StrBinaryOp, l: &String, r: &String) -> (res: String)
    ensures
        res@ == str_binary_spec(op, l@, r@),
{
    match op {
        StrBinaryOp::Concat => {
            let mut s = l.clone();
            s.append(r.as_str());
            s
        },
    }
}

/// An element-wise operator on one integer.
#[derive(Debug, Clone, Copy, PartialEq, Eq, Structural)]
pub enum IntUnaryOp {
    /// the negation, defined everywhere but on `i64::MIN`
    Negate,
}

pub open spec fn int_unary_defined(op: IntUnaryOp, v: i64) -> bool {
    v != i64::MIN
}

pub open spec fn int_unary_spec(op: IntUnaryOp, v: i64) -> i64 {
    match op {
        IntUnaryOp::Negate => (-v) as i64,
    }
}

pub fn int_unary(op: IntUnaryOp, v: &i64) -> (res: i64)
    requires
        int_unary_defined(op, *v),
    ensures
        res == int_unary_spec(op, *v),
{
    match op {
        IntUnaryOp::Negate => -*v,
    }
}

/// An element-wise operator on one boolean.
#[derive(Debug, Clone, Copy, PartialEq, Eq, Structural)]
pub enum BoolUnaryOp {
    Not,
}

pub open spec fn bool_unary_spec(op: BoolUnaryOp, v: bool) -> bool {
    match op {
        BoolUnaryOp::Not => !v,
    }
}

pub fn bool_unary(op: BoolUnaryOp, v: &bool) -> (res: bool)
    ensures
        res == bool_unary_spec(op, *v),
{
    match op {
        BoolUnaryOp::Not => !*v,
    }
}

// ---------------------------------------------------------------------------
// Operators on integer bounds
// ---------------------------------------------------------------------------

/// How the bounds of the output of a binary operator on integers follow from
/// the bounds of its operands.
#[derive(Debug, Clone, Copy, PartialEq, Eq, Structural)]
pub enum IntBoundsOp {
    /// sums of the lower bounds and of the upper bounds
    Add,
    /// differences of the lower bounds and of the upper bounds
    Subtract,
    /// from zero to one less than the divisor's upper bound
    Modulo,
}

pub open spec fn int_bounds_defined(op: IntBoundsOp, right_max: Option<i64>) -> bool {
    op == IntBoundsOp::Modulo ==> right_max != Some(i64::MIN)
}

/// A checked combination of two optional bounds.
pub open spec fn combine_bounds(op: IntBinaryOp, a: Option<i64>, b: Option<i64>) -> Result<Option<i64>, Error> {
    match (a, b) {
        (Some(x), Some(y)) => match int_binary_spec(op, x, y) {
            Ok(v) => Ok(Some(v)),
            Err(e) => Err(e),
        },
        _ => Ok(None),
    }
}

pub open spec fn int_bounds_spec(
    op: IntBoundsOp,
    left_min: Option<i64>,
    left_max: Option<i64>,
    right_min: Option<i64>,
    right_max: Option<i64>,
) -> Result<(Option<i64>, Option<i64>), Error> {
    match op {
        IntBoundsOp::Add | IntBoundsOp::Subtract => {
            let arith = if op == IntBoundsOp::Add { IntBinaryOp::Add } else { IntBinaryOp::Subtract };
            match combine_bounds(arith, left_min, right_min) {
                Err(e) => Err(e),
                Ok(min) => match combine_bounds(arith, left_max, right_max) {
                    Err(e) => Err(e),
                    Ok(max) => Ok((min, max)),
                },
            }
        },
        IntBoundsOp::Modulo => Ok((Some(0i64), match right_max {
            Some(v) => Some((v - 1) as i64),
            None => None,
        })),
    }
}

/// How the bounds of the output of a unary operator on integers follow from
/// the bounds of its operand.
#[derive(Debug, Clone, Copy, PartialEq, Eq, Structural)]
pub enum IntUnaryBoundsOp {
    /// the negated upper bound below the negated lower bound
    Negate,
}

pub open spec fn negate_option(v: Option<i64>) -> Option<i64> {
    match v {
        Some(x) => Some((-x) as i64),
        None => None,
    }
}

pub open spec fn int_unary_bounds_defined(op: IntUnaryBoundsOp, min: Option<i64>, max: Option<i64>) -> bool {
    min != Some(i64::MIN) && max != Some(i64::MIN)
}

pub open spec fn int_unary_bounds_spec(op: IntUnaryBoundsOp, min: Option<i64>, max: Option<i64>) -> (Option<i64>, Option<i64>) {
    match op {
        IntUnaryBoundsOp::Negate => (negate_option(max), negate_option(min)),
    }
}


pub fn int_unary_bounds(op: IntUnaryBoundsOp, bounds: UnaryBounds<i64>) -> (res: (Option<i64>, Option<i64>))
    requires
        int_unary_bounds_defined(op, *bounds.min, *bounds.max),
    ensures
        res == int_unary_bounds_spec(op, *bounds.min, *bounds.max),
{
    match op {
        IntUnaryBoundsOp::Negate => {
            let min = match bounds.max {
                Some(v) => Some(-*v),
                None => None,
            };
            let max = match bounds.min {
                Some(v) => Some(-*v),
                None => None,
            };
            (min, max)
        },
    }
}


pub fn int_bounds(op: IntBoundsOp, bounds: BinaryBounds<i64>) -> (res: Result<(Option<i64>, Option<i64>), Error>)
    requires
        int_bounds_defined(op, *bounds.right_max),
    ensures
        res == int_bounds_spec(op, *bounds.left_min, *bounds.left_max, *bounds.right_min, *bounds.right_max),
{
    match op {
        IntBoundsOp::Add | IntBoundsOp::Subtract => {
            let arith = match op {
                IntBoundsOp::Add => IntBinaryOp::Add,
                _ => IntBinaryOp::Subtract,
            };
            let min = match (bounds.left_min, bounds.right_min) {
                (Some(a), Some(b)) => Some(int_binary(arith, a, b)?),
                _ => None,
            };
            let max = match (bounds.left_max, bounds.right_max) {
                (Some(a), Some(b)) => Some(int_binary(arith, a, b)?),
                _ => None,
            };
            Ok((min, max))
        },
        IntBoundsOp::Modulo => {
            let max = match bounds.right_max {
                Some(v) => Some(*v - 1),
                None => None,
            };
            Ok((Some(0), max))
        },
    }
}

} // verus!
