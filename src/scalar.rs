use vstd::prelude::*;

verus! {

/// Integer width of the interpreted language: declared once, never widened.
#[derive(Clone, Copy, Debug, PartialEq, Eq, Structural)]
pub enum Width {
    W32,
    W64,
}

/// A scalar runtime value. Strings are immutable and held by their index
/// in the program's table of string literals.
#[derive(Clone, Copy, Debug, PartialEq, Eq, Structural)]
pub enum Scalar {
    Int { width: Width, v: i64 },
    Str { id: usize },
    Unit,
}

/// What evaluation can fail with once a program has been accepted.
#[derive(Clone, Copy, Debug, PartialEq, Eq, Structural)]
pub enum RuntimeError {
    TypeMismatch,
    OutOfBounds,
    NoSuchField,
    DivideByZero,
    Unprintable,
    StackOverflow,
    Overflow,
    UndefinedVariable,
    StepLimit,
}

/// Built-in arithmetic operators.
#[derive(Clone, Copy, Debug, PartialEq, Eq, Structural)]
pub enum ArithOp {
    Add,
    Sub,
    Mul,
    Div,
}

/// Built-in comparison operators.
#[derive(Clone, Copy, Debug, PartialEq, Eq, Structural)]
pub enum CmpOp {
    Lt,
    Gt,
    Le,
    Ge,
    Eq,
    Ne,
}

/// Whether `v` is representable in width `w`.
pub open spec fn in_width(w: Width, v: int) -> bool {
    match w {
        Width::W32 => i32::MIN <= v <= i32::MAX,
        Width::W64 => i64::MIN <= v <= i64::MAX,
    }
}

/// Magnitude of an integer.
pub open spec fn magnitude(a: int) -> int {
    if a < 0 {
        -a
    } else {
        a
    }
}

/// Quotient rounded toward zero.
pub open spec fn quot_toward_zero(a: int, b: int) -> int {
    if (a < 0) == (b < 0) {
        magnitude(a) / magnitude(b)
    } else {
        -(magnitude(a) / magnitude(b))
    }
}

/// The mathematical result of an arithmetic operator, before the width check.
pub open spec fn arith_value(op: ArithOp, a: int, b: int) -> int {
    match op {
        ArithOp::Add => a + b,
        ArithOp::Sub => a - b,
        ArithOp::Mul => a * b,
        ArithOp::Div => quot_toward_zero(a, b),
    }
}

/// What applying a built-in arithmetic operator to two scalars gives.
pub open spec fn arith_result(op: ArithOp, a: Scalar, b: Scalar) -> Result<Scalar, RuntimeError> {
    match (a, b) {
        (Scalar::Int { width: wa, v: x }, Scalar::Int { width: wb, v: y }) => {
            if wa != wb {
                Err(RuntimeError::TypeMismatch)
            } else if op == ArithOp::Div && y == 0 {
                Err(RuntimeError::DivideByZero)
            } else if !in_width(wa, arith_value(op, x as int, y as int)) {
                Err(RuntimeError::Overflow)
            } else {
                Ok(Scalar::Int { width: wa, v: arith_value(op, x as int, y as int) as i64 })
            }
        },
        _ => Err(RuntimeError::TypeMismatch),
    }
}

/// The truth of a comparison between two integers.
pub open spec fn cmp_value(op: CmpOp, a: int, b: int) -> bool {
    match op {
        CmpOp::Lt => a < b,
        CmpOp::Gt => a > b,
        CmpOp::Le => a <= b,
        CmpOp::Ge => a >= b,
        CmpOp::Eq => a == b,
        CmpOp::Ne => a != b,
    }
}

/// What applying a built-in comparison to two scalars gives.
pub open spec fn cmp_result(op: CmpOp, a: Scalar, b: Scalar) -> Result<bool, RuntimeError> {
    match (a, b) {
        (Scalar::Int { width: wa, v: x }, Scalar::Int { width: wb, v: y }) => {
            if wa != wb {
                Err(RuntimeError::TypeMismatch)
            } else {
                Ok(cmp_value(op, x as int, y as int))
            }
        },
        _ => Err(RuntimeError::TypeMismatch),
    }
}

/// Whether `v` fits width `w`.
pub fn fits(w: Width, v: i128) -> (r: bool)
    ensures
        r == in_width(w, v as int),
{
    match w {
        Width::W32 => -2147483648i128 <= v && v <= 2147483647i128,
        Width::W64 => -9223372036854775808i128 <= v && v <= 9223372036854775807i128,
    }
}

/// Division of two 64-bit integers rounded toward zero, computed in 128 bits.
pub fn div_toward_zero(a: i64, b: i64) -> (r: i128)
    requires
        b != 0,
    ensures
        r == quot_toward_zero(a as int, b as int),
{
    let ua: u64 = if a < 0 { (-(a as i128)) as u64 } else { a as u64 };
    let ub: u64 = if b < 0 { (-(b as i128)) as u64 } else { b as u64 };
    let q: u64 = ua / ub;
    if (a < 0) == (b < 0) {
        q as i128
    } else {
        -(q as i128)
    }
}

/// Applies a built-in arithmetic operator to two scalars.
pub fn apply_arith(op: ArithOp, a: Scalar, b: Scalar) -> (r: Result<Scalar, RuntimeError>)
    ensures
        r == arith_result(op, a, b),
{
    match (a, b) {
        (Scalar::Int { width: wa, v: x }, Scalar::Int { width: wb, v: y }) => {
            if wa != wb {
                return Err(RuntimeError::TypeMismatch);
            }
            if op == ArithOp::Div && y == 0 {
                return Err(RuntimeError::DivideByZero);
            }
            let (xw, yw) = (x as i128, y as i128);
            proof {
                assert(-0x8000_0000_0000_0000 * 0x8000_0000_0000_0000 <= xw * yw
                    <= 0x8000_0000_0000_0000 * 0x8000_0000_0000_0000) by (nonlinear_arith)
                    requires
                        -0x8000_0000_0000_0000 <= xw < 0x8000_0000_0000_0000,
                        -0x8000_0000_0000_0000 <= yw < 0x8000_0000_0000_0000,
                ;
            }
            let full: i128 = match op {
                ArithOp::Add => xw + yw,
                ArithOp::Sub => xw - yw,
                ArithOp::Mul => xw * yw,
                ArithOp::Div => div_toward_zero(x, y),
            };
            if fits(wa, full) {
                Ok(Scalar::Int { width: wa, v: full as i64 })
            } else {
                Err(RuntimeError::Overflow)
            }
        },
        _ => Err(RuntimeError::TypeMismatch),
    }
}

/// Applies a built-in comparison to two scalars.
pub fn apply_cmp(op: CmpOp, a: Scalar, b: Scalar) -> (r: Result<bool, RuntimeError>)
    ensures
        r == cmp_result(op, a, b),
{
    match (a, b) {
        (Scalar::Int { width: wa, v: x }, Scalar::Int { width: wb, v: y }) => {
            if wa != wb {
                return Err(RuntimeError::TypeMismatch);
            }
            Ok(match op {
                CmpOp::Lt => x < y,
                CmpOp::Gt => x > y,
                CmpOp::Le => x <= y,
                CmpOp::Ge => x >= y,
                CmpOp::Eq => x == y,
                CmpOp::Ne => x != y,
            })
        },
        _ => Err(RuntimeError::TypeMismatch),
    }
}

} // verus!
