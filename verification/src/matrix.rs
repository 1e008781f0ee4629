//! 2×2 complex matrices labelled by the group word they evaluate. Every
//! operation is pinned twice over: the word label is tracked exactly —
//! multiplication concatenates words, inversion reverses and inverts
//! them — and each numeric entry equals the named composition of the
//! scalar operations that computes it, so equal inputs give equal
//! matrices throughout.

use vstd::prelude::*;
use std::cmp::Ordering;
use crate::complex::CNum;

verus! {

/// A symbol of the free group: the two generators and their inverses.
#[derive(Clone, Copy, PartialEq, Eq, Structural, Debug)]
pub enum Sym {
    A,
    B,
    AInv,
    BInv,
}

/// The inverse symbol.
pub open spec fn sym_inverse(s: Sym) -> Sym {
    match s {
        Sym::A => Sym::AInv,
        Sym::B => Sym::BInv,
        Sym::AInv => Sym::A,
        Sym::BInv => Sym::B,
    }
}

/// The inverse word: reversed, with every symbol inverted.
pub open spec fn word_inverse(w: Seq<Sym>) -> Seq<Sym>
    decreases w.len(),
{
    if w.len() == 0 {
        Seq::empty()
    } else {
        seq![sym_inverse(w.last())] + word_inverse(w.drop_last())
    }
}

/// A 2×2 complex matrix [[a, b], [c, d]] together with the word it stands
/// for. The entries approximate the representation of that word at the
/// working precision; the word itself is tracked exactly.
pub struct M {
    pub a: CNum,
    pub b: CNum,
    pub c: CNum,
    pub d: CNum,
    pub word: Ghost<Seq<Sym>>,
}

/// The concatenation of the words of a sequence of matrices.
pub open spec fn words_of(ms: Seq<M>) -> Seq<Sym>
    decreases ms.len(),
{
    if ms.len() == 0 {
        Seq::empty()
    } else {
        words_of(ms.drop_last()) + ms.last().word@
    }
}

/// The value of `identity`.
pub open spec fn spec_identity(p: usize) -> M {
    M {
        a: CNum::spec_from_i64(1, 0, p),
        b: CNum::spec_from_i64(0, 0, p),
        c: CNum::spec_from_i64(0, 0, p),
        d: CNum::spec_from_i64(1, 0, p),
        word: Ghost(Seq::empty()),
    }
}

/// The value of `mul`: the row-by-column product, under the concatenated
/// word.
pub open spec fn spec_mul_m(x: M, y: M, p: usize) -> M {
    M {
        a: x.a.spec_mul(y.a, p).spec_add(x.b.spec_mul(y.c, p), p),
        b: x.a.spec_mul(y.b, p).spec_add(x.b.spec_mul(y.d, p), p),
        c: x.c.spec_mul(y.a, p).spec_add(x.d.spec_mul(y.c, p), p),
        d: x.c.spec_mul(y.b, p).spec_add(x.d.spec_mul(y.d, p), p),
        word: Ghost(x.word@ + y.word@),
    }
}

/// The value of `inv`: the adjugate scaled by the reciprocal determinant,
/// under the inverse word.
pub open spec fn spec_inv_m(x: M, p: usize) -> M {
    let rd = x.a.spec_mul(x.d, p).spec_sub(x.b.spec_mul(x.c, p), p).spec_recip(p);
    M {
        a: rd.spec_mul(x.d, p),
        b: rd.spec_mul(x.b.spec_neg(), p),
        c: rd.spec_mul(x.c.spec_neg(), p),
        d: rd.spec_mul(x.a, p),
        word: Ghost(word_inverse(x.word@)),
    }
}

/// The value of `product`: the left fold of `spec_mul_m`, seeded with the
/// first element.
pub open spec fn spec_product(ms: Seq<M>, p: usize) -> M
    decreases ms.len(),
{
    if ms.len() <= 1 {
        ms[0]
    } else {
        spec_mul_m(spec_product(ms.drop_last(), p), ms.last(), p)
    }
}

impl Clone for M {
    fn clone(&self) -> (r: Self)
        ensures
            r == *self,
    {
        M {
            a: self.a.clone(),
            b: self.b.clone(),
            c: self.c.clone(),
            d: self.d.clone(),
            word: Ghost(self.word@),
        }
    }
}

/// Raised when the dominant eigenpair cannot be separated from the noise
/// at the working precision.
#[derive(Clone, Copy, PartialEq, Eq, Structural, Debug)]
pub enum EigenError {
    PrecisionInsufficient,
}

impl M {
    /// The identity matrix, standing for the empty word.
    pub fn identity(p: usize) -> (r: Self)
        ensures
            r.word@ == Seq::<Sym>::empty(),
            r == spec_identity(p),
    {
        M {
            a: CNum::from_i64(1, 0, p),
            b: CNum::from_i64(0, 0, p),
            c: CNum::from_i64(0, 0, p),
            d: CNum::from_i64(1, 0, p),
            word: Ghost(Seq::empty()),
        }
    }

    /// A matrix given directly by its entries, for analysis on its own:
    /// it stands for no generator word and carries the empty label.
    pub fn from_entries(a: CNum, b: CNum, c: CNum, d: CNum) -> (r: Self)
        ensures
            r.a == a && r.b == b && r.c == c && r.d == d,
            r.word@ == Seq::<Sym>::empty(),
    {
        M { a, b, c, d, word: Ghost(Seq::empty()) }
    }

    /// The determinant `a·d - b·c`.
    pub fn det(&self, p: usize) -> (r: CNum)
        ensures
            r == self.a.spec_mul(self.d, p).spec_sub(self.b.spec_mul(self.c, p), p),
    {
        let ad = self.a.mul(&self.d, p);
        let bc = self.b.mul(&self.c, p);
        ad.sub(&bc, p)
    }

    /// The trace `a + d`.
    pub fn trace(&self, p: usize) -> (r: CNum)
        ensures
            r == self.a.spec_add(self.d, p),
    {
        self.a.add(&self.d, p)
    }

    /// Matrix product; the result stands for the concatenated word, and
    /// each entry is the row-by-column composition of the operands'.
    pub fn mul(&self, other: &Self, p: usize) -> (r: Self)
        ensures
            r.word@ == self.word@ + other.word@,
            r == spec_mul_m(*self, *other, p),
    {
        let a1 = &self.a;
        let b1 = &self.b;
        let c1 = &self.c;
        let d1 = &self.d;
        let a2 = &other.a;
        let b2 = &other.b;
        let c2 = &other.c;
        let d2 = &other.d;
        M {
            a: a1.mul(a2, p).add(&b1.mul(c2, p), p),
            b: a1.mul(b2, p).add(&b1.mul(d2, p), p),
            c: c1.mul(a2, p).add(&d1.mul(c2, p), p),
            d: c1.mul(b2, p).add(&d1.mul(d2, p), p),
            word: Ghost(self.word@ + other.word@),
        }
    }

    /// Inverse by the adjugate scaled with the reciprocal determinant;
    /// stands for the inverse word. The determinant must not be zero —
    /// never the case for matrices derived from the generators.
    pub fn inv(&self, p: usize) -> (r: Self)
        ensures
            r.word@ == word_inverse(self.word@),
            r == spec_inv_m(*self, p),
    {
        let det = self.det(p);
        let rd = det.recip(p);
        M {
            a: rd.mul(&self.d, p),
            b: rd.mul(&self.b.neg(), p),
            c: rd.mul(&self.c.neg(), p),
            d: rd.mul(&self.a, p),
            word: Ghost(word_inverse(self.word@)),
        }
    }

    /// Left fold of `mul` over a non-empty sequence, first element as seed;
    /// the result stands for the concatenation of all the words.
    pub fn product(ms: &Vec<M>, p: usize) -> (r: Self)
        requires
            ms@.len() >= 1,
        ensures
            r.word@ == words_of(ms@),
            r == spec_product(ms@, p),
            ms@.len() == 1 ==> r == ms@[0],
    {
        let mut res = ms[0].clone();
        proof {
            let s = ms@;
            assert(s.take(1).len() == 1);
            assert(s.take(1).drop_last() =~= Seq::<M>::empty());
            assert(words_of(Seq::<M>::empty()) == Seq::<Sym>::empty());
            assert(s.take(1).last() == s[0]);
            assert(words_of(s.take(1)) == words_of(s.take(1).drop_last()) + s.take(1).last().word@);
            assert(Seq::<Sym>::empty() + s[0].word@ =~= s[0].word@);
        }
        let mut i: usize = 1;
        while i < ms.len()
            invariant
                1 <= i <= ms@.len(),
                res.word@ == words_of(ms@.take(i as int)),
                res == spec_product(ms@.take(i as int), p),
                ms@.len() == 1 ==> res == ms@[0],
            decreases ms@.len() - i,
        {
            res = res.mul(&ms[i], p);
            proof {
                assert(ms@.take(i as int + 1).drop_last() =~= ms@.take(i as int));
                assert(ms@.take(i as int + 1).last() == ms@[i as int]);
            }
            i += 1;
        }
        proof {
            assert(ms@.take(ms@.len() as int) =~= ms@);
        }
        res
    }

    /// The eigenvalue of larger magnitude and an associated eigenvector,
    /// for a unit-determinant matrix: the roots of λ² - (a+d)·λ + 1. Ties
    /// of magnitude resolve to the minus branch. The winning branch's
    /// candidate row — (λ - d, c) for the minus branch, (b, λ - a) for the
    /// plus branch — is the eigenvector; if it collapses to zero, the
    /// other candidate row for the same eigenvalue takes its place, and
    /// if both rows are zero, or the magnitudes cannot be compared, the
    /// working precision is insufficient: a zero vector is never handed
    /// back as if valid.
    pub fn dominant_eigenvector(&self, p: usize) -> (r: Result<(CNum, (CNum, CNum)), EigenError>)
        ensures
            ({
                let two = CNum::spec_from_i64(2, 0, p);
                let four = CNum::spec_from_i64(4, 0, p);
                let tr = self.a.spec_add(self.d, p);
                let x = tr.spec_mul(tr, p).spec_sub(four, p).spec_sqrt(p);
                let lambda1 = tr.spec_sub(x, p).spec_div(two, p);
                let lambda2 = tr.spec_add(x, p).spec_div(two, p);
                let cmp = lambda1.spec_cmp_abs(lambda2, p);
                if cmp is None {
                    r == Err::<(CNum, (CNum, CNum)), EigenError>(EigenError::PrecisionInsufficient)
                } else if cmp == Some(Ordering::Less) {
                    let row1 = (self.b, lambda2.spec_sub(self.a, p));
                    let row2 = (lambda2.spec_sub(self.d, p), self.c);
                    if !(row1.0.spec_is_zero() && row1.1.spec_is_zero()) {
                        r == Ok::<(CNum, (CNum, CNum)), EigenError>((lambda2, row1))
                    } else if !(row2.0.spec_is_zero() && row2.1.spec_is_zero()) {
                        r == Ok::<(CNum, (CNum, CNum)), EigenError>((lambda2, row2))
                    } else {
                        r == Err::<(CNum, (CNum, CNum)), EigenError>(
                            EigenError::PrecisionInsufficient,
                        )
                    }
                } else {
                    let row1 = (lambda1.spec_sub(self.d, p), self.c);
                    let row2 = (self.b, lambda1.spec_sub(self.a, p));
                    if !(row1.0.spec_is_zero() && row1.1.spec_is_zero()) {
                        r == Ok::<(CNum, (CNum, CNum)), EigenError>((lambda1, row1))
                    } else if !(row2.0.spec_is_zero() && row2.1.spec_is_zero()) {
                        r == Ok::<(CNum, (CNum, CNum)), EigenError>((lambda1, row2))
                    } else {
                        r == Err::<(CNum, (CNum, CNum)), EigenError>(
                            EigenError::PrecisionInsufficient,
                        )
                    }
                }
            }),
    {
        let two = CNum::from_i64(2, 0, p);
        let four = CNum::from_i64(4, 0, p);
        let tr = self.trace(p);
        let x = tr.square(p).sub(&four, p).sqrt(p);
        let lambda1 = tr.sub(&x, p).div(&two, p);
        let lambda2 = tr.add(&x, p).div(&two, p);
        match lambda1.cmp_abs(&lambda2, p) {
            None => Err(EigenError::PrecisionInsufficient),
            Some(Ordering::Less) => {
                let vx = self.b.clone();
                let vy = lambda2.sub(&self.a, p);
                if !(vx.is_zero() && vy.is_zero()) {
                    Ok((lambda2, (vx, vy)))
                } else {
                    let wx = lambda2.sub(&self.d, p);
                    let wy = self.c.clone();
                    if !(wx.is_zero() && wy.is_zero()) {
                        Ok((lambda2, (wx, wy)))
                    } else {
                        Err(EigenError::PrecisionInsufficient)
                    }
                }
            },
            Some(Ordering::Equal) | Some(Ordering::Greater) => {
                let vx = lambda1.sub(&self.d, p);
                let vy = self.c.clone();
                if !(vx.is_zero() && vy.is_zero()) {
                    Ok((lambda1, (vx, vy)))
                } else {
                    let wx = self.b.clone();
                    let wy = lambda1.sub(&self.a, p);
                    if !(wx.is_zero() && wy.is_zero()) {
                        Ok((lambda1, (wx, wy)))
                    } else {
                        Err(EigenError::PrecisionInsufficient)
                    }
                }
            },
        }
    }

    /// Diagnostic self-check: with observed eigenvalue `(Mv)ₓ / x`, the
    /// second component must match within the fixed absolute tolerance
    /// 10⁻⁶, computed as 1/10⁶ at the working precision. Meaningful only
    /// for `x` away from zero, as the dominant eigenpair of a
    /// non-degenerate matrix provides; an incomparable (NaN) difference
    /// counts as a failed check.
    pub fn is_eigenvector(&self, v: &(CNum, CNum), p: usize) -> (r: bool)
        ensures
            ({
                let epsilon = CNum::spec_from_i64(1, 0, p).spec_div(
                    CNum::spec_from_i64(1000000, 0, p),
                    p,
                );
                let ux = self.a.spec_mul(v.0, p).spec_add(self.b.spec_mul(v.1, p), p);
                let uy = self.c.spec_mul(v.0, p).spec_add(self.d.spec_mul(v.1, p), p);
                let diff = ux.spec_div(v.0, p).spec_mul(v.1, p).spec_sub(uy, p);
                r == (diff.spec_cmp_abs(epsilon, p) == Some(Ordering::Less))
            }),
    {
        let one = CNum::from_i64(1, 0, p);
        let million = CNum::from_i64(1000000, 0, p);
        let epsilon = one.div(&million, p);
        let x = &v.0;
        let y = &v.1;
        let ux = self.a.mul(x, p).add(&self.b.mul(y, p), p);
        let uy = self.c.mul(x, p).add(&self.d.mul(y, p), p);
        let observed = ux.div(x, p);
        let diff = observed.mul(y, p).sub(&uy, p);
        match diff.cmp_abs(&epsilon, p) {
            Some(Ordering::Less) => true,
            _ => false,
        }
    }
}

} // verus!
