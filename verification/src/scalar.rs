//! The arbitrary-precision real scalar, taken on trust from the outside
//! numeric substrate. Every value is opaque here, but every operation is a
//! pure function of its arguments: the rounding mode is fixed to round to
//! even inside each wrapper, and the bit precision is an explicit argument.
//! So each operation's result carries an uninterpreted name, and everything
//! built on top is pinned to compositions of those names.

use vstd::prelude::*;
use astro_float::BigFloat;
use std::cmp::Ordering;

verus! {

/// Declares astro_float::BigFloat, the arbitrary-precision real scalar;
/// its values stay opaque to the verifier.
#[verifier::external_type_specification]
#[verifier::external_body]
pub struct ExBigFloat(BigFloat);

/// What BigFloat::from_i64 returns: the integer `v` at precision `p`.
pub uninterp spec fn int_of(v: i64, p: usize) -> BigFloat;

/// What BigFloat::add returns at precision `p`, rounded to even.
pub uninterp spec fn add_of(x: BigFloat, y: BigFloat, p: usize) -> BigFloat;

/// What BigFloat::sub returns at precision `p`, rounded to even.
pub uninterp spec fn sub_of(x: BigFloat, y: BigFloat, p: usize) -> BigFloat;

/// What BigFloat::mul returns at precision `p`, rounded to even.
pub uninterp spec fn mul_of(x: BigFloat, y: BigFloat, p: usize) -> BigFloat;

/// What BigFloat::div returns at precision `p`, rounded to even.
pub uninterp spec fn div_of(x: BigFloat, y: BigFloat, p: usize) -> BigFloat;

/// What BigFloat::sqrt returns at precision `p`, rounded to even: the
/// non-negative root, NaN on a negative argument.
pub uninterp spec fn sqrt_of(x: BigFloat, p: usize) -> BigFloat;

/// What BigFloat::neg returns.
pub uninterp spec fn neg_of(x: BigFloat) -> BigFloat;

/// What BigFloat's partial_cmp returns: None exactly when an operand is NaN.
pub uninterp spec fn cmp_of(x: BigFloat, y: BigFloat) -> Option<Ordering>;

/// What BigFloat::is_zero returns.
pub uninterp spec fn is_zero_of(x: BigFloat) -> bool;

/// Relies on astro_float::BigFloat::from_i64: an exact integer at
/// precision `p`, a function of `v` and `p` alone.
#[verifier::external_body]
pub fn r_from_i64(v: i64, p: usize) -> (r: BigFloat)
    ensures
        r == int_of(v, p),
{
    BigFloat::from_i64(v, p)
}

/// Relies on astro_float::BigFloat::clone: the same value back.
#[verifier::external_body]
pub fn r_clone(x: &BigFloat) -> (r: BigFloat)
    ensures
        r == *x,
{
    x.clone()
}

/// Relies on astro_float::BigFloat::add, rounded to even at `p` bits:
/// a function of the operands and the precision alone.
#[verifier::external_body]
pub fn r_add(x: &BigFloat, y: &BigFloat, p: usize) -> (r: BigFloat)
    ensures
        r == add_of(*x, *y, p),
{
    x.add(y, p, astro_float::RoundingMode::ToEven)
}

/// Relies on astro_float::BigFloat::sub, rounded to even at `p` bits.
#[verifier::external_body]
pub fn r_sub(x: &BigFloat, y: &BigFloat, p: usize) -> (r: BigFloat)
    ensures
        r == sub_of(*x, *y, p),
{
    x.sub(y, p, astro_float::RoundingMode::ToEven)
}

/// Relies on astro_float::BigFloat::mul, rounded to even at `p` bits.
#[verifier::external_body]
pub fn r_mul(x: &BigFloat, y: &BigFloat, p: usize) -> (r: BigFloat)
    ensures
        r == mul_of(*x, *y, p),
{
    x.mul(y, p, astro_float::RoundingMode::ToEven)
}

/// Relies on astro_float::BigFloat::div, rounded to even at `p` bits.
#[verifier::external_body]
pub fn r_div(x: &BigFloat, y: &BigFloat, p: usize) -> (r: BigFloat)
    ensures
        r == div_of(*x, *y, p),
{
    x.div(y, p, astro_float::RoundingMode::ToEven)
}

/// Relies on astro_float::BigFloat::sqrt, rounded to even at `p` bits:
/// the non-negative root, NaN on a negative argument.
#[verifier::external_body]
pub fn r_sqrt(x: &BigFloat, p: usize) -> (r: BigFloat)
    ensures
        r == sqrt_of(*x, p),
{
    x.sqrt(p, astro_float::RoundingMode::ToEven)
}

/// Relies on astro_float::BigFloat::neg.
#[verifier::external_body]
pub fn r_neg(x: &BigFloat) -> (r: BigFloat)
    ensures
        r == neg_of(*x),
{
    x.neg()
}

/// Relies on astro_float::BigFloat::partial_cmp: None exactly when an
/// operand is NaN.
#[verifier::external_body]
pub fn r_cmp(x: &BigFloat, y: &BigFloat) -> (r: Option<Ordering>)
    ensures
        r == cmp_of(*x, *y),
{
    x.partial_cmp(y)
}

/// Relies on astro_float::BigFloat::is_zero.
#[verifier::external_body]
pub fn r_is_zero(x: &BigFloat) -> (r: bool)
    ensures
        r == is_zero_of(*x),
{
    x.is_zero()
}

} // verus!
