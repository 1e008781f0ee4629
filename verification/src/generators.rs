//! Construction of the two generator matrices from the complex parameter.
//! Both draw the same branch of the square root of z² - 1, which is what
//! keeps their determinants at one; a parameter with z² - 1 exactly zero
//! has no reciprocal and is rejected as a domain error.

use vstd::prelude::*;
use crate::complex::CNum;
use crate::matrix::{M, Sym, word_inverse, sym_inverse, spec_inv_m};

verus! {

/// The quantity z² - 1 whose square root both constructors draw.
pub open spec fn spec_gap(z: CNum, p: usize) -> CNum {
    z.spec_mul(z, p).spec_sub(CNum::spec_from_i64(1, 0, p), p)
}

/// The value of `rho_a` on a valid parameter.
pub open spec fn spec_rho_a(z: CNum, p: usize) -> M {
    let c = spec_gap(z, p).spec_sqrt(p).spec_recip(p);
    let cz = c.spec_mul(z, p);
    M { a: cz, b: c, c: c, d: cz, word: Ghost(seq![Sym::A]) }
}

/// The value of `rho_b` on a valid parameter.
pub open spec fn spec_rho_b(z: CNum, p: usize) -> M {
    let one = CNum::spec_from_i64(1, 0, p);
    let i = CNum::spec_from_i64(0, 1, p);
    let y = z.spec_neg().spec_div(spec_gap(z, p).spec_sqrt(p), p);
    let c = y.spec_mul(y, p).spec_sub(one, p).spec_sqrt(p).spec_recip(p);
    let cy = c.spec_mul(y, p);
    let ci = c.spec_mul(i, p);
    M { a: cy, b: ci, c: ci.spec_neg(), d: cy, word: Ghost(seq![Sym::B]) }
}

/// The parameter makes z² - 1 exactly zero (z = ±1), so the generator
/// entries, which divide by its square root, are undefined.
#[derive(Clone, Copy, PartialEq, Eq, Structural, Debug)]
pub enum DomainError {
    ParameterUnit,
}

/// First generator: with c = 1/sqrt(z² - 1), the matrix
/// [[c·z, c], [c, c·z]]; it stands for the one-symbol word of the first
/// generator.
pub fn rho_a(z: &CNum, p: usize) -> (r: Result<M, DomainError>)
    ensures
        r is Err <==> spec_gap(*z, p).spec_is_zero(),
        r matches Ok(m) ==> m == spec_rho_a(*z, p) && m.word@ == seq![Sym::A],
{
    let one = CNum::from_i64(1, 0, p);
    let w = z.square(p).sub(&one, p);
    if w.is_zero() {
        return Err(DomainError::ParameterUnit);
    }
    let c = w.sqrt(p).recip(p);
    let cz = c.mul(z, p);
    let ghost w = seq![Sym::A];
    Ok(M { a: cz.clone(), b: c.clone(), c: c, d: cz, word: Ghost(w) })
}

/// Second generator: with y = -z/sqrt(z² - 1) and c = 1/sqrt(y² - 1), the
/// matrix [[c·y, c·i], [-c·i, c·y]]; it stands for the one-symbol word of
/// the second generator.
pub fn rho_b(z: &CNum, p: usize) -> (r: Result<M, DomainError>)
    ensures
        r is Err <==> spec_gap(*z, p).spec_is_zero(),
        r matches Ok(m) ==> m == spec_rho_b(*z, p) && m.word@ == seq![Sym::B],
{
    let i = CNum::from_i64(0, 1, p);
    let one = CNum::from_i64(1, 0, p);
    let w = z.square(p).sub(&one, p);
    if w.is_zero() {
        return Err(DomainError::ParameterUnit);
    }
    let y = z.neg().div(&w.sqrt(p), p);
    let c = y.square(p).sub(&one, p).sqrt(p).recip(p);
    let cy = c.mul(&y, p);
    let ci = c.mul(&i, p);
    let ghost w = seq![Sym::B];
    Ok(M { a: cy.clone(), b: ci.clone(), c: ci.neg(), d: cy, word: Ghost(w) })
}

/// The four matrices every word evaluation draws from: the two generators
/// and their inverses, built once from the resolved parameter and then
/// reused immutably.
pub struct Generators {
    pub a: M,
    pub b: M,
    pub a_inv: M,
    pub b_inv: M,
}

impl Generators {
    /// Each matrix stands for its own one-symbol word.
    pub open spec fn well_formed(self) -> bool {
        &&& self.a.word@ == seq![Sym::A]
        &&& self.b.word@ == seq![Sym::B]
        &&& self.a_inv.word@ == seq![Sym::AInv]
        &&& self.b_inv.word@ == seq![Sym::BInv]
    }

    /// Build the generators and their inverses from the parameter at the
    /// given precision; fails exactly when z² - 1 is zero, the domain
    /// error of both generator constructors.
    pub fn make(z: &CNum, p: usize) -> (r: Result<Generators, DomainError>)
        ensures
            r is Err <==> spec_gap(*z, p).spec_is_zero(),
            r matches Ok(g) ==> {
                &&& g.well_formed()
                &&& g.a == spec_rho_a(*z, p)
                &&& g.b == spec_rho_b(*z, p)
                &&& g.a_inv == spec_inv_m(spec_rho_a(*z, p), p)
                &&& g.b_inv == spec_inv_m(spec_rho_b(*z, p), p)
            },
    {
        let a = match rho_a(z, p) {
            Ok(m) => m,
            Err(e) => {
                return Err(e);
            },
        };
        let b = match rho_b(z, p) {
            Ok(m) => m,
            Err(e) => {
                return Err(e);
            },
        };
        let a_inv = a.inv(p);
        let b_inv = b.inv(p);
        proof {
            let wa = seq![Sym::A];
            let wb = seq![Sym::B];
            assert(word_inverse(Seq::<Sym>::empty()) == Seq::<Sym>::empty());
            assert(wa.drop_last() =~= Seq::<Sym>::empty());
            assert(wb.drop_last() =~= Seq::<Sym>::empty());
            assert(word_inverse(wa) == seq![sym_inverse(Sym::A)] + word_inverse(wa.drop_last()));
            assert(word_inverse(wb) == seq![sym_inverse(Sym::B)] + word_inverse(wb.drop_last()));
            assert(word_inverse(wa) =~= seq![Sym::AInv]);
            assert(word_inverse(wb) =~= seq![Sym::BInv]);
        }
        Ok(Generators { a, b, a_inv, b_inv })
    }
}

} // verus!
