//! Saturating integer arithmetic: the only arithmetic the core uses.
//!
//! Every addition, subtraction and multiplication is clamped to the range of
//! its type; division truncates toward zero. The spec functions here give the
//! clamped operations a mathematical definition that the rest of the crate's
//! contracts are written against.

use vstd::prelude::*;

verus! {

/// `a + b` clamped to `u128`.
pub open spec fn sat_add_u128(a: u128, b: u128) -> u128 {
    if a + b > u128::MAX {
        u128::MAX
    } else {
        (a + b) as u128
    }
}

/// `a - b` clamped below at zero.
pub open spec fn sat_sub_u128(a: u128, b: u128) -> u128 {
    if a < b {
        0
    } else {
        (a - b) as u128
    }
}

/// `a * b` clamped to `u128`.
pub open spec fn sat_mul_u128(a: u128, b: u128) -> u128 {
    if a * b > u128::MAX {
        u128::MAX
    } else {
        (a * b) as u128
    }
}

/// `a + b` clamped to `u64`.
pub open spec fn sat_add_u64(a: u64, b: u64) -> u64 {
    if a + b > u64::MAX {
        u64::MAX
    } else {
        (a + b) as u64
    }
}

/// `a - b` clamped below at zero.
pub open spec fn sat_sub_u64(a: u64, b: u64) -> u64 {
    if a < b {
        0
    } else {
        (a - b) as u64
    }
}

/// `a + b` clamped to `u32`.
pub open spec fn sat_add_u32(a: u32, b: u32) -> u32 {
    if a + b > u32::MAX {
        u32::MAX
    } else {
        (a + b) as u32
    }
}

/// An unbounded sum clamped into `u128`. Used to state what the executable
/// saturating folds return.
pub open spec fn clamp_u128(x: int) -> u128 {
    if x < 0 {
        0
    } else if x > u128::MAX {
        u128::MAX
    } else {
        x as u128
    }
}

/// Saturating `u128` addition.
pub fn add_sat_u128(a: u128, b: u128) -> (r: u128)
    ensures
        r == sat_add_u128(a, b),
{
    if a > u128::MAX - b {
        u128::MAX
    } else {
        a + b
    }
}

/// Saturating `u128` subtraction.
pub fn sub_sat_u128(a: u128, b: u128) -> (r: u128)
    ensures
        r == sat_sub_u128(a, b),
{
    if a < b {
        0
    } else {
        a - b
    }
}

/// Saturating `u128` multiplication.
pub fn mul_sat_u128(a: u128, b: u128) -> (r: u128)
    ensures
        r == sat_mul_u128(a, b),
{
    if b == 0 {
        0
    } else if a > u128::MAX / b {
        proof {
            lemma_div_mul_bound(a, b);
        }
        u128::MAX
    } else {
        proof {
            lemma_mul_le_div_bound(a, b);
        }
        a * b
    }
}

/// Saturating `u64` addition.
pub fn add_sat_u64(a: u64, b: u64) -> (r: u64)
    ensures
        r == sat_add_u64(a, b),
{
    if a > u64::MAX - b {
        u64::MAX
    } else {
        a + b
    }
}

/// Saturating `u64` subtraction.
pub fn sub_sat_u64(a: u64, b: u64) -> (r: u64)
    ensures
        r == sat_sub_u64(a, b),
{
    if a < b {
        0
    } else {
        a - b
    }
}

/// Saturating `u32` addition.
pub fn add_sat_u32(a: u32, b: u32) -> (r: u32)
    ensures
        r == sat_add_u32(a, b),
{
    if a > u32::MAX - b {
        u32::MAX
    } else {
        a + b
    }
}

/// `a > MAX / b` implies the product overflows (`b > 0`).
proof fn lemma_div_mul_bound(a: u128, b: u128)
    requires
        b > 0,
        a > u128::MAX / b,
    ensures
        a * b > u128::MAX,
{
    assert(a >= u128::MAX / b + 1);
    assert((u128::MAX / b + 1) * b == (u128::MAX / b) * b + b) by (nonlinear_arith);
    assert((u128::MAX / b) * b + b > u128::MAX) by {
        vstd::arithmetic::div_mod::lemma_fundamental_div_mod(u128::MAX as int, b as int);
        vstd::arithmetic::div_mod::lemma_mod_bound(u128::MAX as int, b as int);
    }
    vstd::arithmetic::mul::lemma_mul_inequality((u128::MAX / b + 1) as int, a as int, b as int);
}

/// `a <= MAX / b` implies the product fits (`b > 0`).
proof fn lemma_mul_le_div_bound(a: u128, b: u128)
    requires
        b > 0,
        a <= u128::MAX / b,
    ensures
        a * b <= u128::MAX,
{
    assert((u128::MAX / b) * b <= u128::MAX) by {
        vstd::arithmetic::div_mod::lemma_fundamental_div_mod(u128::MAX as int, b as int);
        vstd::arithmetic::div_mod::lemma_mod_bound(u128::MAX as int, b as int);
    }
    vstd::arithmetic::mul::lemma_mul_inequality(a as int, (u128::MAX / b) as int, b as int);
}

} // verus!
