//! Complex arithmetic over the arbitrary-precision real scalar. The
//! component formulas — including the principal branch of the square root
//! and the conjugate form of division and reciprocal — are this library's
//! own code; only the real operations underneath are taken on trust. Each
//! operation's contract pins both components to the named results of those
//! real operations, so every complex value in the pipeline is a function
//! of the inputs alone.

use vstd::prelude::*;
use astro_float::BigFloat;
use std::cmp::Ordering;
use crate::scalar::{
    int_of, add_of, sub_of, mul_of, div_of, sqrt_of, neg_of, cmp_of, is_zero_of, r_from_i64,
    r_clone, r_add, r_sub, r_mul, r_div, r_sqrt, r_neg, r_cmp, r_is_zero,
};

verus! {

/// A complex number as a pair of arbitrary-precision reals. Immutable once
/// constructed; every operation returns a new value at the precision it is
/// given.
pub struct CNum {
    pub re: BigFloat,
    pub im: BigFloat,
}

impl Clone for CNum {
    fn clone(&self) -> (r: Self)
        ensures
            r == *self,
    {
        CNum { re: r_clone(&self.re), im: r_clone(&self.im) }
    }
}

impl CNum {
    /// The value of `from_i64`.
    pub open spec fn spec_from_i64(re: i64, im: i64, p: usize) -> CNum {
        CNum { re: int_of(re, p), im: int_of(im, p) }
    }

    /// The value of `add`: componentwise sum.
    pub open spec fn spec_add(self, other: Self, p: usize) -> CNum {
        CNum { re: add_of(self.re, other.re, p), im: add_of(self.im, other.im, p) }
    }

    /// The value of `sub`: componentwise difference.
    pub open spec fn spec_sub(self, other: Self, p: usize) -> CNum {
        CNum { re: sub_of(self.re, other.re, p), im: sub_of(self.im, other.im, p) }
    }

    /// The value of `neg`: componentwise negation.
    pub open spec fn spec_neg(self) -> CNum {
        CNum { re: neg_of(self.re), im: neg_of(self.im) }
    }

    /// The value of `mul`: `(ac - bd) + (ad + bc)·i`.
    pub open spec fn spec_mul(self, other: Self, p: usize) -> CNum {
        CNum {
            re: sub_of(mul_of(self.re, other.re, p), mul_of(self.im, other.im, p), p),
            im: add_of(mul_of(self.re, other.im, p), mul_of(self.im, other.re, p), p),
        }
    }

    /// The value of `mag2`: `re² + im²`.
    pub open spec fn spec_mag2(self, p: usize) -> BigFloat {
        add_of(mul_of(self.re, self.re, p), mul_of(self.im, self.im, p), p)
    }

    /// The value of `div`: multiply by the conjugate, divide by `|other|²`.
    pub open spec fn spec_div(self, other: Self, p: usize) -> CNum {
        let den = other.spec_mag2(p);
        CNum {
            re: div_of(add_of(mul_of(self.re, other.re, p), mul_of(self.im, other.im, p), p), den, p),
            im: div_of(sub_of(mul_of(self.im, other.re, p), mul_of(self.re, other.im, p), p), den, p),
        }
    }

    /// The value of `recip`: the conjugate divided by `|self|²`.
    pub open spec fn spec_recip(self, p: usize) -> CNum {
        let den = self.spec_mag2(p);
        CNum { re: div_of(self.re, den, p), im: div_of(neg_of(self.im), den, p) }
    }

    /// The value of `sqrt`: the principal branch. On the real axis the
    /// root is real for non-negative values and purely imaginary
    /// otherwise; off the axis the real part is non-negative and the
    /// imaginary part follows the sign of `im`.
    pub open spec fn spec_sqrt(self, p: usize) -> CNum {
        let zero = int_of(0, p);
        let two = int_of(2, p);
        if is_zero_of(self.im) {
            if cmp_of(self.re, zero) == Some(Ordering::Less) {
                CNum { re: zero, im: sqrt_of(neg_of(self.re), p) }
            } else {
                CNum { re: sqrt_of(self.re, p), im: zero }
            }
        } else {
            let r = sqrt_of(self.spec_mag2(p), p);
            let t = sqrt_of(div_of(add_of(r, self.re, p), two, p), p);
            let u = sqrt_of(div_of(sub_of(r, self.re, p), two, p), p);
            if cmp_of(self.im, zero) == Some(Ordering::Less) {
                CNum { re: t, im: neg_of(u) }
            } else {
                CNum { re: t, im: u }
            }
        }
    }

    /// The value of `cmp_abs`: the order of the squared magnitudes.
    pub open spec fn spec_cmp_abs(self, other: Self, p: usize) -> Option<Ordering> {
        cmp_of(self.spec_mag2(p), other.spec_mag2(p))
    }

    /// The value of `is_zero`: both components exactly zero.
    pub open spec fn spec_is_zero(self) -> bool {
        is_zero_of(self.re) && is_zero_of(self.im)
    }

    /// The complex number `re + im·i`, both components exact integers at
    /// precision `p`.
    pub fn from_i64(re: i64, im: i64, p: usize) -> (r: Self)
        ensures
            r == Self::spec_from_i64(re, im, p),
    {
        CNum { re: r_from_i64(re, p), im: r_from_i64(im, p) }
    }

    /// Componentwise sum.
    pub fn add(&self, other: &Self, p: usize) -> (r: Self)
        ensures
            r == self.spec_add(*other, p),
    {
        CNum { re: r_add(&self.re, &other.re, p), im: r_add(&self.im, &other.im, p) }
    }

    /// Componentwise difference.
    pub fn sub(&self, other: &Self, p: usize) -> (r: Self)
        ensures
            r == self.spec_sub(*other, p),
    {
        CNum { re: r_sub(&self.re, &other.re, p), im: r_sub(&self.im, &other.im, p) }
    }

    /// Componentwise negation.
    pub fn neg(&self) -> (r: Self)
        ensures
            r == self.spec_neg(),
    {
        CNum { re: r_neg(&self.re), im: r_neg(&self.im) }
    }

    /// The product `(ac - bd) + (ad + bc)·i`.
    pub fn mul(&self, other: &Self, p: usize) -> (r: Self)
        ensures
            r == self.spec_mul(*other, p),
    {
        let ac = r_mul(&self.re, &other.re, p);
        let bd = r_mul(&self.im, &other.im, p);
        let ad = r_mul(&self.re, &other.im, p);
        let bc = r_mul(&self.im, &other.re, p);
        CNum { re: r_sub(&ac, &bd, p), im: r_add(&ad, &bc, p) }
    }

    /// The square of the number.
    pub fn square(&self, p: usize) -> (r: Self)
        ensures
            r == self.spec_mul(*self, p),
    {
        self.mul(self, p)
    }

    /// The squared magnitude `re² + im²`, a real scalar.
    pub fn mag2(&self, p: usize) -> (r: BigFloat)
        ensures
            r == self.spec_mag2(p),
    {
        let rr = r_mul(&self.re, &self.re, p);
        let ii = r_mul(&self.im, &self.im, p);
        r_add(&rr, &ii, p)
    }

    /// Quotient by the conjugate form: `z/w = z·conj(w) / |w|²`.
    pub fn div(&self, other: &Self, p: usize) -> (r: Self)
        ensures
            r == self.spec_div(*other, p),
    {
        let den = other.mag2(p);
        let ac = r_mul(&self.re, &other.re, p);
        let bd = r_mul(&self.im, &other.im, p);
        let bc = r_mul(&self.im, &other.re, p);
        let ad = r_mul(&self.re, &other.im, p);
        let nre = r_add(&ac, &bd, p);
        let nim = r_sub(&bc, &ad, p);
        CNum { re: r_div(&nre, &den, p), im: r_div(&nim, &den, p) }
    }

    /// Reciprocal by the conjugate form: `1/z = conj(z) / |z|²`.
    pub fn recip(&self, p: usize) -> (r: Self)
        ensures
            r == self.spec_recip(p),
    {
        let den = self.mag2(p);
        let nim = r_neg(&self.im);
        CNum { re: r_div(&self.re, &den, p), im: r_div(&nim, &den, p) }
    }

    /// Principal square root: the branch with non-negative real part and
    /// the imaginary part following the sign of `im`. A consistent branch
    /// here is what keeps every generator matrix at determinant one.
    pub fn sqrt(&self, p: usize) -> (r: Self)
        ensures
            r == self.spec_sqrt(p),
    {
        let zero = r_from_i64(0, p);
        let two = r_from_i64(2, p);
        if r_is_zero(&self.im) {
            match r_cmp(&self.re, &zero) {
                Some(Ordering::Less) => {
                    let mre = r_neg(&self.re);
                    CNum { re: zero, im: r_sqrt(&mre, p) }
                },
                _ => CNum { re: r_sqrt(&self.re, p), im: zero },
            }
        } else {
            let r = r_sqrt(&self.mag2(p), p);
            let rpre = r_add(&r, &self.re, p);
            let rmre = r_sub(&r, &self.re, p);
            let t = r_sqrt(&r_div(&rpre, &two, p), p);
            let u = r_sqrt(&r_div(&rmre, &two, p), p);
            match r_cmp(&self.im, &zero) {
                Some(Ordering::Less) => CNum { re: t, im: r_neg(&u) },
                _ => CNum { re: t, im: u },
            }
        }
    }

    /// Compare magnitudes through the squared form; None only when a
    /// component has become NaN, a sign of lost precision.
    pub fn cmp_abs(&self, other: &Self, p: usize) -> (r: Option<Ordering>)
        ensures
            r == self.spec_cmp_abs(*other, p),
    {
        let m1 = self.mag2(p);
        let m2 = other.mag2(p);
        r_cmp(&m1, &m2)
    }

    /// Both components exactly zero.
    pub fn is_zero(&self) -> (r: bool)
        ensures
            r == self.spec_is_zero(),
    {
        r_is_zero(&self.re) && r_is_zero(&self.im)
    }
}

} // verus!
