//! Arithmetic on the integers of the language: 32 bits, with errors in place of overflow.
use vstd::prelude::*;
use crate::errors::{Error, ErrorKind};

verus! {

/// The binary operators that compute a value from two values.
#[derive(Clone, Copy, PartialEq, Eq, Structural, Debug)]
pub enum BinaryOp {
    Subtract,
    Add,
    Multiply,
    Percent,
    FloorDivide,
    BitAnd,
    BitOr,
    BitXor,
    LeftShift,
    RightShift,
}

/// The quotient of `x` by `y`, rounded towards negative infinity. For `y` other than zero.
pub open spec fn floor_div(x: int, y: int) -> int {
    if y > 0 {
        x / y
    } else {
        (-x) / (-y)
    }
}

/// The remainder that goes with [`floor_div`]: it is zero or has the sign of `y`.
pub open spec fn floor_mod(x: int, y: int) -> int {
    x - y * floor_div(x, y)
}

/// `v` as a 32-bit integer, or the error for a result that does not fit.
pub open spec fn fit(v: int) -> Result<i32, ErrorKind> {
    if i32::MIN <= v <= i32::MAX {
        Ok(v as i32)
    } else {
        Err(ErrorKind::UserFail)
    }
}

/// The result of a binary operator on two integers. Division and remainder by zero, a
/// negative shift count and a result beyond 32 bits are errors.
pub open spec fn int_binary(op: BinaryOp, x: i32, y: i32) -> Result<i32, ErrorKind> {
    match op {
        BinaryOp::Add => fit(x + y),
        BinaryOp::Subtract => fit(x - y),
        BinaryOp::Multiply => fit(x * y),
        BinaryOp::FloorDivide => if y == 0 {
            Err(ErrorKind::UserFail)
        } else {
            fit(floor_div(x as int, y as int))
        },
        BinaryOp::Percent => if y == 0 {
            Err(ErrorKind::UserFail)
        } else {
            fit(floor_mod(x as int, y as int))
        },
        BinaryOp::BitAnd => Ok(x & y),
        BinaryOp::BitOr => Ok(x | y),
        BinaryOp::BitXor => Ok(x ^ y),
        BinaryOp::LeftShift => if y < 0 {
            Err(ErrorKind::UserFail)
        } else if x == 0 {
            Ok(0)
        } else if y >= 32 {
            Err(ErrorKind::UserFail)
        } else {
            fit(x * vstd::arithmetic::power2::pow2(y as nat))
        },
        BinaryOp::RightShift => if y < 0 {
            Err(ErrorKind::UserFail)
        } else if y >= 31 {
            Ok(if x < 0 { -1i32 } else { 0i32 })
        } else {
            Ok((x as int / vstd::arithmetic::power2::pow2(y as nat) as int) as i32)
        },
    }
}

/// The name of a binary operator, as error messages show it.
pub open spec fn op_text(op: BinaryOp) -> Seq<char> {
    match op {
        BinaryOp::Add => "+"@,
        BinaryOp::Subtract => "-"@,
        BinaryOp::Multiply => "*"@,
        BinaryOp::FloorDivide => "//"@,
        BinaryOp::Percent => "%"@,
        BinaryOp::BitAnd => "&"@,
        BinaryOp::BitOr => "|"@,
        BinaryOp::BitXor => "^"@,
        BinaryOp::LeftShift => "<<"@,
        BinaryOp::RightShift => ">>"@,
    }
}

/// The name of a binary operator, as error messages show it.
pub fn op_name(op: BinaryOp) -> (r: &'static str)
    ensures
        r@ == op_text(op),
{
    match op {
        BinaryOp::Add => "+",
        BinaryOp::Subtract => "-",
        BinaryOp::Multiply => "*",
        BinaryOp::FloorDivide => "//",
        BinaryOp::Percent => "%",
        BinaryOp::BitAnd => "&",
        BinaryOp::BitOr => "|",
        BinaryOp::BitXor => "^",
        BinaryOp::LeftShift => "<<",
        BinaryOp::RightShift => ">>",
    }
}

fn overflow() -> (e: Error)
    ensures
        e.kind == ErrorKind::UserFail,
        e.span is None,
{
    Error::new(ErrorKind::UserFail, "Integer overflow")
}

fn fit_exec(v: i64) -> (r: Result<i32, Error>)
    ensures
        crate::errors::agrees(r, fit(v as int)),
{
    if v >= -0x8000_0000 && v <= 0x7fff_ffff {
        Ok(v as i32)
    } else {
        Err(overflow())
    }
}

/// `2^k` for `k` below 32.
fn pow2_exec(k: u32) -> (r: i64)
    requires
        k < 32,
    ensures
        r == vstd::arithmetic::power2::pow2(k as nat),
        1 <= r <= 0x8000_0000,
{
    let mut r: i64 = 1;
    let mut i: u32 = 0;
    proof {
        vstd::arithmetic::power2::lemma2_to64();
    }
    while i < k
        invariant
            i <= k,
            k < 32,
            r == vstd::arithmetic::power2::pow2(i as nat),
            1 <= r,
            r <= vstd::arithmetic::power2::pow2(31),
            vstd::arithmetic::power2::pow2(31) == 0x8000_0000,
        decreases k - i,
    {
        proof {
            vstd::arithmetic::power2::lemma_pow2_unfold((i + 1) as nat);
            if i + 1 < 31 {
                vstd::arithmetic::power2::lemma_pow2_strictly_increases((i + 1) as nat, 31);
            }
        }
        r = r * 2;
        i += 1;
    }
    r
}

/// The floor of `a / b`, for a positive `b`.
fn floor_div_pos(a: i64, b: i64) -> (q: i64)
    requires
        b > 0,
        -0x1_0000_0000 <= a <= 0x1_0000_0000,
        b <= 0x1_0000_0000,
    ensures
        q == a as int / b as int,
        -0x1_0000_0000 <= q <= 0x1_0000_0000,
{
    if a >= 0 {
        let q = ((a as u64) / (b as u64)) as i64;
        assert(a as int / b as int <= a) by (nonlinear_arith)
            requires
                a >= 0,
                b > 0,
        ;
        q
    } else {
        let m: u64 = (-a) as u64;
        let q: u64 = (m + (b as u64) - 1) / (b as u64);
        proof {
            let mi = m as int;
            let bi = b as int;
            let qi = (mi + bi - 1) / bi;
            vstd::arithmetic::div_mod::lemma_fundamental_div_mod(mi + bi - 1, bi);
            let ri = (mi + bi - 1) % bi;
            assert(0 <= ri < bi);
            assert(bi * qi + ri == mi + bi - 1);
            // a == b * (-qi) + (bi - 1 - ri), and 0 <= bi - 1 - ri < bi.
            assert(a as int == bi * (-qi) + (bi - 1 - ri)) by (nonlinear_arith)
                requires
                    bi * qi + ri == mi + bi - 1,
                    a as int == -mi,
            ;
            vstd::arithmetic::div_mod::lemma_fundamental_div_mod_converse(
                a as int,
                bi,
                -qi,
                bi - 1 - ri,
            );
            assert(qi <= mi + bi - 1) by (nonlinear_arith)
                requires
                    bi * qi + ri == mi + bi - 1,
                    ri >= 0,
                    bi >= 1,
                    qi >= 0,
            ;
            assert(qi >= 0) by (nonlinear_arith)
                requires
                    bi * qi + ri == mi + bi - 1,
                    ri < bi,
                    bi >= 1,
                    mi >= 0,
            ;
            assert(qi <= mi) by (nonlinear_arith)
                requires
                    bi * qi + ri == mi + bi - 1,
                    ri >= 0,
                    bi >= 1,
                    qi >= 0,
                    mi >= 1,
            ;
        }
        -(q as i64)
    }
}

/// The result of a binary operator on two integers.
pub fn int_binary_exec(op: BinaryOp, x: i32, y: i32) -> (r: Result<i32, Error>)
    ensures
        crate::errors::agrees(r, int_binary(op, x, y)),
{
    match op {
        BinaryOp::Add => fit_exec(x as i64 + y as i64),
        BinaryOp::Subtract => fit_exec(x as i64 - y as i64),
        BinaryOp::Multiply => {
            assert(-0x4000_0000_0000_0000 <= x * y <= 0x4000_0000_0000_0000) by (nonlinear_arith)
                requires
                    -0x8000_0000 <= x <= 0x7fff_ffff,
                    -0x8000_0000 <= y <= 0x7fff_ffff,
            ;
            fit_exec((x as i64) * (y as i64))
        },
        BinaryOp::FloorDivide => {
            if y == 0 {
                Err(Error::new(ErrorKind::UserFail, "Division by zero"))
            } else if y > 0 {
                fit_exec(floor_div_pos(x as i64, y as i64))
            } else {
                fit_exec(floor_div_pos(-(x as i64), -(y as i64)))
            }
        },
        BinaryOp::Percent => {
            if y == 0 {
                Err(Error::new(ErrorKind::UserFail, "Division by zero"))
            } else {
                let q: i64 = if y > 0 {
                    floor_div_pos(x as i64, y as i64)
                } else {
                    floor_div_pos(-(x as i64), -(y as i64))
                };
                assert(-0x2_0000_0000_0000_0000 <= y * q <= 0x2_0000_0000_0000_0000)
                    by (nonlinear_arith)
                    requires
                        -0x8000_0000 <= y <= 0x7fff_ffff,
                        -0x1_0000_0000 <= q <= 0x1_0000_0000,
                ;
                let m: i128 = (x as i128) - (y as i128) * (q as i128);
                if m >= -0x8000_0000 && m <= 0x7fff_ffff {
                    Ok(m as i32)
                } else {
                    Err(overflow())
                }
            }
        },
        BinaryOp::BitAnd => Ok(x & y),
        BinaryOp::BitOr => Ok(x | y),
        BinaryOp::BitXor => Ok(x ^ y),
        BinaryOp::LeftShift => {
            if y < 0 {
                Err(Error::new(ErrorKind::UserFail, "Negative shift count"))
            } else if x == 0 {
                Ok(0)
            } else if y >= 32 {
                Err(overflow())
            } else {
                let p = pow2_exec(y as u32);
                assert(-0x4000_0000_0000_0000 <= x * p <= 0x4000_0000_0000_0000)
                    by (nonlinear_arith)
                    requires
                        -0x8000_0000 <= x <= 0x7fff_ffff,
                        1 <= p <= 0x8000_0000,
                ;
                fit_exec((x as i64) * p)
            }
        },
        BinaryOp::RightShift => {
            if y < 0 {
                Err(Error::new(ErrorKind::UserFail, "Negative shift count"))
            } else if y >= 31 {
                Ok(if x < 0 {
                    -1
                } else {
                    0
                })
            } else {
                let p = pow2_exec(y as u32);
                let q = floor_div_pos(x as i64, p);
                assert(-0x8000_0000 <= q <= 0x7fff_ffff) by (nonlinear_arith)
                    requires
                        q == x as int / p as int,
                        p >= 1,
                        -0x8000_0000 <= x <= 0x7fff_ffff,
                ;
                Ok(q as i32)
            }
        },
    }
}

/// The negation of an integer; an error for the one integer that has none.
pub open spec fn int_minus(x: i32) -> Result<i32, ErrorKind> {
    fit(-(x as int))
}

/// The negation of an integer.
pub fn int_minus_exec(x: i32) -> (r: Result<i32, Error>)
    ensures
        crate::errors::agrees(r, int_minus(x)),
{
    fit_exec(-(x as i64))
}

/// The absolute value of an integer; an error for the one integer that has none.
pub open spec fn int_abs(x: i32) -> Result<i32, ErrorKind> {
    if x < 0 {
        fit(-(x as int))
    } else {
        Ok(x)
    }
}

/// The absolute value of an integer.
pub fn int_abs_exec(x: i32) -> (r: Result<i32, Error>)
    ensures
        crate::errors::agrees(r, int_abs(x)),
{
    if x < 0 {
        fit_exec(-(x as i64))
    } else {
        Ok(x)
    }
}

} // verus!
