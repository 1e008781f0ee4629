use std::cmp::Ordering;
use astro_float::{BigFloat, RoundingMode};
use wordrep::complex::CNum;
use wordrep::matrix::{M, EigenError};
use wordrep::generators::{rho_a, rho_b, Generators, DomainError};
use wordrep::stern_brocot::stern_brocot_word;
use wordrep::driver::{word_symbols, evaluate_symbols};
use wordrep::rational::ExtendedRational;

const P: usize = 64;
const RM: RoundingMode = RoundingMode::ToEven;

fn eps(bits: usize, p: usize) -> CNum {
    let two = BigFloat::from_i64(2, p);
    let big = two.powi(bits, p, RM);
    CNum { re: big.reciprocal(p, RM), im: BigFloat::from_i64(0, p) }
}

fn close_at(x: &CNum, y: &CNum, bits: usize, p: usize) -> bool {
    let d = x.sub(y, p);
    d.cmp_abs(&eps(bits, p), p) == Some(Ordering::Less)
}

fn close(x: &CNum, y: &CNum) -> bool {
    close_at(x, y, 40, P)
}

fn param() -> CNum {
    CNum::from_i64(2, 0, P)
}

fn gens() -> Generators {
    Generators::make(&param(), P).unwrap()
}

#[test]
fn generator_determinants_are_one() {
    let g = gens();
    let one = CNum::from_i64(1, 0, P);
    assert!(close(&g.a.det(P), &one));
    assert!(close(&g.b.det(P), &one));
}

#[test]
fn generator_determinants_tighten_with_precision() {
    let p = 256;
    let z = CNum::from_i64(2, 0, p);
    let g = Generators::make(&z, p).unwrap();
    let one = CNum::from_i64(1, 0, p);
    assert!(close_at(&g.a.det(p), &one, 200, p));
    assert!(close_at(&g.b.det(p), &one, 200, p));
}

#[test]
fn rho_a_entries_match_the_formula() {
    // z = 2: c = 1/sqrt(3), entries [[2c, c], [c, 2c]].
    let g = rho_a(&param(), P).unwrap();
    let three = BigFloat::from_i64(3, P);
    let c = three.sqrt(P, RM).reciprocal(P, RM);
    let zero = BigFloat::from_i64(0, P);
    let two = BigFloat::from_i64(2, P);
    let cz = c.mul(&two, P, RM);
    let cc = CNum { re: c, im: zero.clone() };
    let ccz = CNum { re: cz, im: zero };
    assert!(close(&g.a, &ccz));
    assert!(close(&g.b, &cc));
    assert!(close(&g.c, &cc));
    assert!(close(&g.d, &ccz));
}

#[test]
fn rho_b_entries_match_the_formula() {
    // z = 2: y = -2/sqrt(3), c = sqrt(3), entries [[-2, sqrt(3)i], [-sqrt(3)i, -2]].
    let g = rho_b(&param(), P).unwrap();
    let zero = BigFloat::from_i64(0, P);
    let s3 = BigFloat::from_i64(3, P).sqrt(P, RM);
    let m2 = BigFloat::from_i64(-2, P);
    let cy = CNum { re: m2, im: zero.clone() };
    let ci = CNum { re: zero.clone(), im: s3.clone() };
    let mci = CNum { re: zero, im: s3.neg() };
    assert!(close(&g.a, &cy));
    assert!(close(&g.b, &ci));
    assert!(close(&g.c, &mci));
    assert!(close(&g.d, &cy));
}

#[test]
fn parameter_one_is_a_domain_error() {
    let one = CNum::from_i64(1, 0, P);
    assert!(matches!(rho_a(&one, P), Err(DomainError::ParameterUnit)));
    assert!(matches!(rho_b(&one, P), Err(DomainError::ParameterUnit)));
    let minus_one = CNum::from_i64(-1, 0, P);
    assert!(matches!(rho_a(&minus_one, P), Err(DomainError::ParameterUnit)));
    assert!(Generators::make(&minus_one, P).is_err());
}

fn matrices_close(x: &M, y: &M) -> bool {
    close(&x.a, &y.a) && close(&x.b, &y.b) && close(&x.c, &y.c) && close(&x.d, &y.d)
}

#[test]
fn generator_times_inverse_is_identity() {
    let g = gens();
    let id = M::identity(P);
    let aai = M::product(&vec![g.a.clone(), g.a_inv.clone()], P);
    assert!(matrices_close(&aai, &id));
    let bbi = M::product(&vec![g.b.clone(), g.b_inv.clone()], P);
    assert!(matrices_close(&bbi, &id));
}

#[test]
fn multiplication_is_associative_within_tolerance() {
    let g = gens();
    let left = g.a.mul(&g.b, P).mul(&g.a_inv, P);
    let right = g.a.mul(&g.b.mul(&g.a_inv, P), P);
    assert!(matrices_close(&left, &right));
}

fn exactly_equal(x: &CNum, y: &CNum) -> bool {
    x.sub(y, P).is_zero()
}

#[test]
fn stern_brocot_of_infinity_is_generator_b() {
    let g = gens();
    let r = stern_brocot_word(ExtendedRational::Infinity, g.a.clone(), g.b.clone(), P);
    assert!(exactly_equal(&r.a, &g.b.a));
    assert!(exactly_equal(&r.b, &g.b.b));
    assert!(exactly_equal(&r.c, &g.b.c));
    assert!(exactly_equal(&r.d, &g.b.d));
}

#[test]
fn stern_brocot_of_one_is_generator_a() {
    let g = gens();
    let r = stern_brocot_word(ExtendedRational::new(1, 1), g.a.clone(), g.b.clone(), P);
    assert!(exactly_equal(&r.a, &g.a.a));
    assert!(exactly_equal(&r.d, &g.a.d));
    // an unreduced spelling of one takes the same early exit
    let r2 = stern_brocot_word(ExtendedRational::new(5, 5), g.a.clone(), g.b.clone(), P);
    assert!(exactly_equal(&r2.b, &g.a.b));
}

#[test]
fn rational_mode_matches_the_explicit_word() {
    // 2/3 sits at the word aabab in the tree.
    let g = gens();
    let by_tree = stern_brocot_word(ExtendedRational::new(2, 3), g.a.clone(), g.b.clone(), P);
    let syms = word_symbols("aabab").unwrap();
    let by_word = evaluate_symbols(&syms, &g, P);
    assert!(matrices_close(&by_tree, &by_word));
}

#[test]
fn dominant_eigenvalue_product_with_its_partner_is_one() {
    let g = gens();
    let syms = word_symbols("ab").unwrap();
    let res = evaluate_symbols(&syms, &g, P);
    let tr = res.trace(P);
    let (lambda, _) = res.dominant_eigenvector(P).unwrap();
    let partner = tr.sub(&lambda, P);
    let prod = lambda.mul(&partner, P);
    let one = CNum::from_i64(1, 0, P);
    assert!(close(&prod, &one));
}

#[test]
fn self_check_holds_for_the_dominant_eigenpair() {
    let g = gens();
    let syms = word_symbols("ab").unwrap();
    let res = evaluate_symbols(&syms, &g, P);
    let (_, v) = res.dominant_eigenvector(P).unwrap();
    assert!(res.is_eigenvector(&v, P));
}

#[test]
fn zero_candidate_row_falls_back_to_the_other_row() {
    // diag(2, 1/2): the plus branch wins with eigenvalue 2, its candidate
    // row (b, lambda - a) is zero, and the other row (lambda - d, c) is a
    // genuine eigenvector; a zero vector must never come back as valid.
    let two = CNum::from_i64(2, 0, P);
    let zero = CNum::from_i64(0, 0, P);
    let one = CNum::from_i64(1, 0, P);
    let half = one.div(&two, P);
    let m = wordrep::matrix::M::from_entries(two, zero.clone(), zero, half);
    let (lambda, v) = m.dominant_eigenvector(P).unwrap();
    assert!(exactly_equal(&lambda, &CNum::from_i64(2, 0, P)));
    let three_halves = CNum::from_i64(3, 0, P).div(&CNum::from_i64(2, 0, P), P);
    assert!(exactly_equal(&v.0, &three_halves));
    assert!(exactly_equal(&v.1, &CNum::from_i64(0, 0, P)));
    assert!(m.is_eigenvector(&v, P));
}

#[test]
fn product_of_one_matrix_is_that_matrix() {
    let g = gens();
    let r = M::product(&vec![g.a.clone()], P);
    assert!(exactly_equal(&r.a, &g.a.a));
    assert!(exactly_equal(&r.b, &g.a.b));
    assert!(exactly_equal(&r.c, &g.a.c));
    assert!(exactly_equal(&r.d, &g.a.d));
}

#[test]
fn identity_has_no_usable_eigenvector() {
    let id = M::identity(P);
    assert!(matches!(id.dominant_eigenvector(P), Err(EigenError::PrecisionInsufficient)));
}

#[test]
fn end_to_end_word_ab_at_precision_64() {
    let g = gens();
    let syms = word_symbols("ab").unwrap();
    let res = evaluate_symbols(&syms, &g, P);
    // the run is deterministic
    let again = evaluate_symbols(&syms, &g, P);
    assert!(exactly_equal(&res.a, &again.a));
    assert!(exactly_equal(&res.b, &again.b));
    assert!(exactly_equal(&res.c, &again.c));
    assert!(exactly_equal(&res.d, &again.d));
    // trace is recoverable as a + d
    let tr = res.trace(P);
    let ad = res.a.add(&res.d, P);
    assert!(exactly_equal(&tr, &ad));
    // the element is hyperbolic: dominant eigenvalue magnitude above one
    let (lambda, v) = res.dominant_eigenvector(P).unwrap();
    let one = CNum::from_i64(1, 0, P);
    assert_eq!(lambda.cmp_abs(&one, P), Some(Ordering::Greater));
    assert!(res.is_eigenvector(&v, P));
}
