//! Exact binary search over the Stern-Brocot tree. The target rational is
//! bracketed by two bounds that are adjacent in the tree (their cross
//! products differ by one); each step replaces a bound by the Farey mediant
//! and multiplies the corresponding bound matrix, so the final matrix is
//! the product of exactly the generator word at the target's position —
//! without ever materializing the symbol sequence. Termination is exact:
//! the coefficients that express the target over the two bounds shrink at
//! every step.

use vstd::prelude::*;
use std::cmp::Ordering;
use crate::rational::{ExtendedRational, gcd};
use crate::matrix::{M, Sym, spec_mul_m};

verus! {

/// The search between bounds n1/d1 < p/q < n2/d2 is well defined when the
/// bounds are adjacent in the tree (unimodular) and bracket the target.
pub open spec fn sb_guard(n1: int, d1: int, n2: int, d2: int, p: int, q: int) -> bool {
    &&& 0 <= n1 && 1 <= d1 && 0 <= n2 && 0 <= d2
    &&& 1 <= p && 1 <= q
    &&& n2 * d1 - n1 * d2 == 1
    &&& n1 * q < p * d1
    &&& p * d2 < n2 * q
}

/// The word reached from bounds n1/d1 and n2/d2 whose matrices carry the
/// words wl and wh, searching for p/q: descend towards the mediant until
/// it hits the target exactly.
pub open spec fn sb_word(
    n1: int,
    d1: int,
    n2: int,
    d2: int,
    wl: Seq<Sym>,
    wh: Seq<Sym>,
    p: int,
    q: int,
) -> Seq<Sym>
    decreases (n2 * q - d2 * p) + (d1 * p - n1 * q)
        when sb_guard(n1, d1, n2, d2, p, q)
        via sb_word_decreases
{
    let ns = n1 + n2;
    let ds = d1 + d2;
    if ns * q < p * ds {
        sb_word(ns, ds, n2, d2, wl + wh, wh, p, q)
    } else if p * ds < ns * q {
        sb_word(n1, d1, ns, ds, wl, wl + wh, p, q)
    } else {
        wl + wh
    }
}

/// The matrix reached from bound matrices lm and hm by the same descent
/// as `sb_word`: each step multiplies the two bounds into the one that
/// moves, so the result is the full numeric product, word label included.
pub open spec fn sb_matrix(
    n1: int,
    d1: int,
    n2: int,
    d2: int,
    lm: M,
    hm: M,
    p: int,
    q: int,
    prec: usize,
) -> M
    decreases (n2 * q - d2 * p) + (d1 * p - n1 * q)
        when sb_guard(n1, d1, n2, d2, p, q)
        via sb_matrix_decreases
{
    let ns = n1 + n2;
    let ds = d1 + d2;
    if ns * q < p * ds {
        sb_matrix(ns, ds, n2, d2, spec_mul_m(lm, hm, prec), hm, p, q, prec)
    } else if p * ds < ns * q {
        sb_matrix(n1, d1, ns, ds, lm, spec_mul_m(lm, hm, prec), p, q, prec)
    } else {
        spec_mul_m(lm, hm, prec)
    }
}

#[via_fn]
proof fn sb_matrix_decreases(
    n1: int,
    d1: int,
    n2: int,
    d2: int,
    lm: M,
    hm: M,
    p: int,
    q: int,
    prec: usize,
) {
    assert(n2 * (d1 + d2) - (n1 + n2) * d2 == n2 * d1 - n1 * d2) by (nonlinear_arith);
    assert((n1 + n2) * d1 - n1 * (d1 + d2) == n2 * d1 - n1 * d2) by (nonlinear_arith);
    assert((n2 * q - d2 * p) + ((d1 + d2) * p - (n1 + n2) * q) == d1 * p - n1 * q)
        by (nonlinear_arith);
    assert(((n1 + n2) * q - (d1 + d2) * p) + (d1 * p - n1 * q) == n2 * q - d2 * p)
        by (nonlinear_arith);
}

#[via_fn]
proof fn sb_word_decreases(
    n1: int,
    d1: int,
    n2: int,
    d2: int,
    wl: Seq<Sym>,
    wh: Seq<Sym>,
    p: int,
    q: int,
) {
    assert(n2 * (d1 + d2) - (n1 + n2) * d2 == n2 * d1 - n1 * d2) by (nonlinear_arith);
    assert((n1 + n2) * d1 - n1 * (d1 + d2) == n2 * d1 - n1 * d2) by (nonlinear_arith);
    assert((n2 * q - d2 * p) + ((d1 + d2) * p - (n1 + n2) * q) == d1 * p - n1 * q)
        by (nonlinear_arith);
    assert(((n1 + n2) * q - (d1 + d2) * p) + (d1 * p - n1 * q) == n2 * q - d2 * p)
        by (nonlinear_arith);
}

/// Locate the target in the Stern-Brocot tree, accumulating the matrix
/// product along the way. The two immediate children of the root come
/// back as the generator matrices themselves: infinity yields `b`, one
/// yields `a`. Every other target yields the matrix standing for exactly
/// the word at its position, with `a`'s word written for each left-hand
/// step and `b`'s for each right-hand step. A finite target must be
/// positive: zero lies outside the tree.
#[verifier::loop_isolation(false)]
#[verifier::rlimit(30)]
pub fn stern_brocot_word(q: ExtendedRational, a: M, b: M, p: usize) -> (r: M)
    requires
        q.well_formed(),
        q is R ==> q.spec_num() >= 1,
    ensures
        q is Infinity ==> r == b,
        q is R && q.spec_num() == q.spec_den() ==> r == a,
        q is R && q.spec_num() != q.spec_den() ==> r.word@ == sb_word(
            0,
            1,
            1,
            0,
            a.word@,
            b.word@,
            q.spec_num(),
            q.spec_den(),
        ),
        q is R && q.spec_num() != q.spec_den() ==> r == sb_matrix(
            0,
            1,
            1,
            0,
            a,
            b,
            q.spec_num(),
            q.spec_den(),
            p,
        ),
{
    match &q {
        ExtendedRational::Infinity => {
            return b;
        },
        ExtendedRational::R { num, den } => {
            if *num == *den {
                return a;
            }
        },
    }
    let ghost wa = a.word@;
    let ghost wb = b.word@;
    let ghost ma = a;
    let ghost mb = b;
    let ghost tp = q.spec_num();
    let ghost tq = q.spec_den();

    let mut low = ExtendedRational::R { num: 0, den: 1 };
    let mut low_m = a;
    let mut high = ExtendedRational::Infinity;
    let mut high_m = b;

    loop
        invariant
            q is R,
            q.well_formed(),
            q.spec_num() >= 1,
            tp == q.spec_num(),
            tq == q.spec_den(),
            tp != tq,
            low is R,
            low.well_formed(),
            high.well_formed(),
            sb_guard(low.spec_num(), low.spec_den(), high.spec_num(), high.spec_den(), tp, tq),
            sb_word(
                low.spec_num(),
                low.spec_den(),
                high.spec_num(),
                high.spec_den(),
                low_m.word@,
                high_m.word@,
                tp,
                tq,
            ) == sb_word(0, 1, 1, 0, wa, wb, tp, tq),
            sb_matrix(
                low.spec_num(),
                low.spec_den(),
                high.spec_num(),
                high.spec_den(),
                low_m,
                high_m,
                tp,
                tq,
                p,
            ) == sb_matrix(0, 1, 1, 0, ma, mb, tp, tq, p),
        decreases (high.spec_num() * tq - high.spec_den() * tp) + (low.spec_den() * tp
            - low.spec_num() * tq),
    {
        let ghost n1 = low.spec_num();
        let ghost d1 = low.spec_den();
        let ghost n2 = high.spec_num();
        let ghost d2 = high.spec_den();
        let ghost ns = n1 + n2;
        let ghost ds = d1 + d2;
        proof {
            let k1 = n2 * tq - tp * d2;
            let k2 = tp * d1 - n1 * tq;
            assert(tp == k1 * n1 + k2 * n2) by (nonlinear_arith)
                requires
                    n2 * d1 - n1 * d2 == 1,
                    k1 == n2 * tq - tp * d2,
                    k2 == tp * d1 - n1 * tq,
            {}
            assert(tq == k1 * d1 + k2 * d2) by (nonlinear_arith)
                requires
                    n2 * d1 - n1 * d2 == 1,
                    k1 == n2 * tq - tp * d2,
                    k2 == tp * d1 - n1 * tq,
            {}
            assert(ns <= tp && ds <= tq) by (nonlinear_arith)
                requires
                    tp == k1 * n1 + k2 * n2,
                    tq == k1 * d1 + k2 * d2,
                    k1 >= 1,
                    k2 >= 1,
                    n1 >= 0,
                    n2 >= 0,
                    d1 >= 0,
                    d2 >= 0,
                    ns == n1 + n2,
                    ds == d1 + d2,
            {}
        }
        let med = low.mediant(&high);
        proof {
            // The mediant of adjacent bounds is already reduced: its
            // reduction factor divides the unimodular cross difference.
            let gm = gcd(ns as nat, ds as nat) as int;
            assert(med.spec_num() * gm == ns && med.spec_den() * gm == ds);
            assert(gm >= 1) by (nonlinear_arith)
                requires
                    med.spec_den() * gm == ds,
                    med.spec_den() >= 1,
                    ds >= 1,
                    gm >= 0,
            {}
            assert(gm * (n2 * med.spec_den() - med.spec_num() * d2) == 1) by (nonlinear_arith)
                requires
                    med.spec_num() * gm == ns,
                    med.spec_den() * gm == ds,
                    ns == n1 + n2,
                    ds == d1 + d2,
                    n2 * d1 - n1 * d2 == 1,
            {}
            assert(gm == 1) by (nonlinear_arith)
                requires
                    gm * (n2 * med.spec_den() - med.spec_num() * d2) == 1,
                    gm >= 1,
            {}
            assert(med.spec_num() * 1 == med.spec_num());
            assert(med.spec_den() * 1 == med.spec_den());
            assert(med.spec_num() == ns && med.spec_den() == ds);
        }
        match med.cmp(&q) {
            Ordering::Less => {
                // target in (mediant, high)
                proof {
                    assert(ns * tq < tp * ds);
                    assert(n2 * ds - ns * d2 == 1) by (nonlinear_arith)
                        requires
                            ns == n1 + n2,
                            ds == d1 + d2,
                            n2 * d1 - n1 * d2 == 1,
                    {}
                    assert((n2 * tq - d2 * tp) + (ds * tp - ns * tq) < (n2 * tq - d2 * tp) + (d1 * tp - n1 * tq)
                        && (n2 * tq - d2 * tp) + (ds * tp - ns * tq) >= 0) by (nonlinear_arith)
                        requires
                            ns == n1 + n2,
                            ds == d1 + d2,
                            tp * d2 < n2 * tq,
                            ns * tq < tp * ds,
                    {}
                    assert(sb_word(n1, d1, n2, d2, low_m.word@, high_m.word@, tp, tq)
                        == sb_word(ns, ds, n2, d2, low_m.word@ + high_m.word@, high_m.word@, tp, tq));
                    assert(sb_matrix(n1, d1, n2, d2, low_m, high_m, tp, tq, p)
                        == sb_matrix(ns, ds, n2, d2, spec_mul_m(low_m, high_m, p), high_m, tp, tq, p));
                }
                low = med;
                let t = low_m.mul(&high_m, p);
                low_m = t;
            },
            Ordering::Greater => {
                // target in (low, mediant)
                proof {
                    assert(tp * ds < ns * tq);
                    assert(ns * d1 - n1 * ds == 1) by (nonlinear_arith)
                        requires
                            ns == n1 + n2,
                            ds == d1 + d2,
                            n2 * d1 - n1 * d2 == 1,
                    {}
                    assert((ns * tq - ds * tp) + (d1 * tp - n1 * tq) < (n2 * tq - d2 * tp) + (d1 * tp - n1 * tq)
                        && (ns * tq - ds * tp) + (d1 * tp - n1 * tq) >= 0) by (nonlinear_arith)
                        requires
                            ns == n1 + n2,
                            ds == d1 + d2,
                            tp * d2 < n2 * tq,
                            n1 * tq < tp * d1,
                            tp * ds < ns * tq,
                    {}
                    assert(sb_word(n1, d1, n2, d2, low_m.word@, high_m.word@, tp, tq)
                        == sb_word(n1, d1, ns, ds, low_m.word@, low_m.word@ + high_m.word@, tp, tq));
                    assert(sb_matrix(n1, d1, n2, d2, low_m, high_m, tp, tq, p)
                        == sb_matrix(n1, d1, ns, ds, low_m, spec_mul_m(low_m, high_m, p), tp, tq, p));
                }
                high = med;
                let t = low_m.mul(&high_m, p);
                high_m = t;
            },
            Ordering::Equal => {
                proof {
                    assert(ns * tq == tp * ds);
                    assert(sb_word(n1, d1, n2, d2, low_m.word@, high_m.word@, tp, tq)
                        == low_m.word@ + high_m.word@);
                    assert(low_m.word@ + high_m.word@ == sb_word(0, 1, 1, 0, wa, wb, tp, tq));
                    assert(wa == a.word@);
                    assert(wb == b.word@);
                    assert(sb_matrix(n1, d1, n2, d2, low_m, high_m, tp, tq, p)
                        == spec_mul_m(low_m, high_m, p));
                    assert(spec_mul_m(low_m, high_m, p) == sb_matrix(0, 1, 1, 0, ma, mb, tp, tq, p));
                    assert(ma == a && mb == b);
                }
                return low_m.mul(&high_m, p);
            },
        }
    }
}

} // verus!
