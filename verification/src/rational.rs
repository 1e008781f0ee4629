//! Exact extended rationals: reduced fractions of machine integers together
//! with a symbolic infinity, totally ordered with infinity as the unique
//! maximum. Infinity counts as the fraction 1/0 for mediants, so every
//! comparison and mediant is a statement about cross products.

use vstd::prelude::*;
use vstd::arithmetic::div_mod::{lemma_fundamental_div_mod, lemma_div_multiples_vanish};
use vstd::arithmetic::mul::lemma_mul_upper_bound;
use std::cmp::Ordering;

verus! {

/// `d` divides `n` over the integers.
pub open spec fn divides(d: int, n: int) -> bool {
    exists|k: int| n == #[trigger] (k * d)
}

/// Greatest common divisor by Euclid's rule.
pub open spec fn gcd(a: nat, b: nat) -> nat
    decreases b,
{
    if b == 0 {
        a
    } else {
        gcd(b, a % b)
    }
}

/// The gcd divides both of its arguments and is positive unless both are zero.
pub proof fn lemma_gcd_divides(a: nat, b: nat)
    ensures
        divides(gcd(a, b) as int, a as int),
        divides(gcd(a, b) as int, b as int),
        a > 0 || b > 0 ==> gcd(a, b) >= 1,
    decreases b,
{
    if b == 0 {
        assert(a as int == 1 * (a as int));
        assert(b as int == 0 * (a as int));
    } else {
        lemma_gcd_divides(b, a % b);
        let g = gcd(b, a % b) as int;
        let kb = choose|k: int| b as int == #[trigger] (k * g);
        let kr = choose|k: int| (a % b) as int == #[trigger] (k * g);
        lemma_fundamental_div_mod(a as int, b as int);
        let q = (a as int) / (b as int);
        assert(a as int == (kb * q + kr) * g) by (nonlinear_arith)
            requires
                a as int == (b as int) * q + ((a % b) as int),
                b as int == kb * g,
                (a % b) as int == kr * g,
        {}
    }
}

/// Product of two machine words, wide enough never to overflow.
fn mul_wide(a: u64, b: u64) -> (r: u128)
    ensures
        r as int == (a as int) * (b as int),
{
    proof {
        lemma_mul_upper_bound(a as int, u64::MAX as int, b as int, u64::MAX as int);
    }
    (a as u128) * (b as u128)
}

/// Every common divisor of the arguments divides their gcd.
pub proof fn lemma_gcd_greatest(a: nat, b: nat, c: nat)
    requires
        c >= 1,
        divides(c as int, a as int),
        divides(c as int, b as int),
    ensures
        divides(c as int, gcd(a, b) as int),
    decreases b,
{
    if b == 0 {
    } else {
        let ka = choose|k: int| a as int == #[trigger] (k * c);
        let kb = choose|k: int| b as int == #[trigger] (k * c);
        lemma_fundamental_div_mod(a as int, b as int);
        let q = (a as int) / (b as int);
        assert((a % b) as int == (ka - kb * q) * c) by (nonlinear_arith)
            requires
                a as int == (b as int) * q + ((a % b) as int),
                a as int == ka * c,
                b as int == kb * c,
        {}
        lemma_gcd_greatest(b, a % b, c);
    }
}

/// Dividing out the gcd leaves a fraction in lowest terms.
proof fn lemma_quotients_coprime(p: nat, q: nat, n: nat, d: nat)
    requires
        q >= 1,
        d >= 1,
        n * gcd(p, q) == p,
        d * gcd(p, q) == q,
    ensures
        gcd(n, d) == 1,
{
    let g = gcd(p, q) as int;
    lemma_gcd_divides(p, q);
    let c = gcd(n, d) as int;
    lemma_gcd_divides(n, d);
    let kn = choose|k: int| n as int == #[trigger] (k * c);
    let kd = choose|k: int| d as int == #[trigger] (k * c);
    assert(p as int == kn * (c * g) && q as int == kd * (c * g)) by (nonlinear_arith)
        requires
            n as int == kn * c,
            d as int == kd * c,
            (n as int) * g == p as int,
            (d as int) * g == q as int,
    {}
    assert(c >= 1) by (nonlinear_arith)
        requires
            d as int == kd * c,
            d >= 1,
            c >= 0,
    {}
    assert(c * g >= 1) by (nonlinear_arith)
        requires
            c >= 1,
            g >= 1,
    {}
    assert(((c * g) as nat) as int == c * g);
    assert(divides(c * g, p as int));
    assert(divides(c * g, q as int));
    lemma_gcd_greatest(p, q, (c * g) as nat);
    let m = choose|k: int| g == #[trigger] (k * (c * g));
    assert(c == 1) by (nonlinear_arith)
        requires
            g == m * (c * g),
            g >= 1,
            c >= 1,
    {}
}

/// Euclid's algorithm.
pub fn gcd_u64(a: u64, b: u64) -> (g: u64)
    ensures
        g as nat == gcd(a as nat, b as nat),
{
    let mut x: u64 = a;
    let mut y: u64 = b;
    while y != 0
        invariant
            gcd(x as nat, y as nat) == gcd(a as nat, b as nat),
        decreases y,
    {
        let r: u64 = x % y;
        x = y;
        y = r;
    }
    x
}

/// A rational number extended with a symbolic infinity. Finite values are
/// kept as reduced fractions with a positive denominator; infinity behaves
/// as 1/0 in mediants and comparisons.
#[derive(Clone, Copy, Debug)]
pub enum ExtendedRational {
    R { num: u64, den: u64 },
    Infinity,
}

impl ExtendedRational {
    /// Finite values carry a positive denominator.
    pub open spec fn well_formed(self) -> bool {
        match self {
            ExtendedRational::R { num, den } => den >= 1,
            ExtendedRational::Infinity => true,
        }
    }

    /// Finite values are in lowest terms.
    pub open spec fn reduced(self) -> bool {
        match self {
            ExtendedRational::R { num, den } => gcd(num as nat, den as nat) == 1,
            ExtendedRational::Infinity => true,
        }
    }

    /// Numerator, with infinity read as 1/0.
    pub open spec fn spec_num(self) -> int {
        match self {
            ExtendedRational::R { num, den } => num as int,
            ExtendedRational::Infinity => 1,
        }
    }

    /// Denominator, with infinity read as 1/0.
    pub open spec fn spec_den(self) -> int {
        match self {
            ExtendedRational::R { num, den } => den as int,
            ExtendedRational::Infinity => 0,
        }
    }

    /// Strict order by cross products; infinity is the unique maximum.
    pub open spec fn lt_val(self, other: Self) -> bool {
        self.spec_num() * other.spec_den() < other.spec_num() * self.spec_den()
    }

    /// What `partial_cmp` and `cmp` return, by explicit case match.
    pub open spec fn cmp_spec(self, other: Self) -> Ordering {
        match (self, other) {
            (ExtendedRational::Infinity, ExtendedRational::Infinity) => Ordering::Equal,
            (ExtendedRational::Infinity, ExtendedRational::R { num, den }) => Ordering::Greater,
            (ExtendedRational::R { num, den }, ExtendedRational::Infinity) => Ordering::Less,
            (
                ExtendedRational::R { num: n1, den: d1 },
                ExtendedRational::R { num: n2, den: d2 },
            ) => {
                if (n1 as int) * (d2 as int) < (n2 as int) * (d1 as int) {
                    Ordering::Less
                } else if (n1 as int) * (d2 as int) == (n2 as int) * (d1 as int) {
                    Ordering::Equal
                } else {
                    Ordering::Greater
                }
            },
        }
    }

    /// Build `p/q` in lowest terms; `q == 0` stands for infinity.
    pub fn new(p: u64, q: u64) -> (r: Self)
        ensures
            r.well_formed(),
            r.reduced(),
            q == 0 ==> r is Infinity,
            q >= 1 ==> r is R,
            q >= 1 ==> r.spec_num() * gcd(p as nat, q as nat) == p,
            q >= 1 ==> r.spec_den() * gcd(p as nat, q as nat) == q,
    {
        if q == 0 {
            ExtendedRational::Infinity
        } else {
            let g = gcd_u64(p, q);
            proof {
                lemma_gcd_divides(p as nat, q as nat);
            }
            let n: u64 = p / g;
            let d: u64 = q / g;
            proof {
                let gi = g as int;
                let kp = choose|k: int| p as int == #[trigger] (k * gi);
                let kq = choose|k: int| q as int == #[trigger] (k * gi);
                lemma_div_multiples_vanish(kp, gi);
                lemma_div_multiples_vanish(kq, gi);
                assert(kp * gi == gi * kp);
                assert(kq * gi == gi * kq);
                assert(n as int == kp);
                assert(d as int == kq);
                assert(kq >= 1) by (nonlinear_arith)
                    requires
                        kq * gi >= 1,
                        gi >= 1,
                {}
                assert((n as nat) * gcd(p as nat, q as nat) == p as nat);
                assert((d as nat) * gcd(p as nat, q as nat) == q as nat);
                lemma_quotients_coprime(p as nat, q as nat, n as nat, d as nat);
            }
            ExtendedRational::R { num: n, den: d }
        }
    }

    /// The numerator, reading infinity as 1/0.
    pub fn numer(&self) -> (n: u64)
        ensures
            n as int == self.spec_num(),
    {
        match self {
            ExtendedRational::R { num, den } => *num,
            ExtendedRational::Infinity => 1,
        }
    }

    /// The denominator, reading infinity as 1/0.
    pub fn denom(&self) -> (d: u64)
        ensures
            d as int == self.spec_den(),
    {
        match self {
            ExtendedRational::R { num, den } => *den,
            ExtendedRational::Infinity => 0,
        }
    }

    /// Total comparison; infinity is the unique maximum.
    pub fn cmp(&self, other: &Self) -> (r: Ordering)
        ensures
            r == self.cmp_spec(*other),
    {
        match (self, other) {
            (ExtendedRational::Infinity, ExtendedRational::Infinity) => Ordering::Equal,
            (ExtendedRational::Infinity, ExtendedRational::R { .. }) => Ordering::Greater,
            (ExtendedRational::R { .. }, ExtendedRational::Infinity) => Ordering::Less,
            (
                ExtendedRational::R { num: n1, den: d1 },
                ExtendedRational::R { num: n2, den: d2 },
            ) => {
                let left: u128 = mul_wide(*n1, *d2);
                let right: u128 = mul_wide(*n2, *d1);
                if left < right {
                    Ordering::Less
                } else if left == right {
                    Ordering::Equal
                } else {
                    Ordering::Greater
                }
            },
        }
    }

    /// The Farey mediant, treating infinity as 1/0; the result is reduced.
    /// Of two bounds in order it falls strictly between them.
    pub fn mediant(&self, other: &Self) -> (r: Self)
        requires
            self.well_formed(),
            other.well_formed(),
            self.spec_num() + other.spec_num() <= u64::MAX,
            self.spec_den() + other.spec_den() <= u64::MAX,
        ensures
            r.well_formed(),
            r.reduced(),
            ({
                let ns = self.spec_num() + other.spec_num();
                let ds = self.spec_den() + other.spec_den();
                &&& (ds == 0 ==> r is Infinity)
                &&& (ds >= 1 ==> r is R)
                &&& (ds >= 1 ==> r.spec_num() * gcd(ns as nat, ds as nat) == ns)
                &&& (ds >= 1 ==> r.spec_den() * gcd(ns as nat, ds as nat) == ds)
            }),
            self.lt_val(*other) ==> self.lt_val(r) && r.lt_val(*other),
    {
        let ns: u64 = self.numer() + other.numer();
        let ds: u64 = self.denom() + other.denom();
        let r = Self::new(ns, ds);
        proof {
            let n1 = self.spec_num();
            let d1 = self.spec_den();
            let n2 = other.spec_num();
            let d2 = other.spec_den();
            if self.lt_val(*other) {
                if ds == 0 {
                    assert(d1 == 0 && d2 == 0);
                    assert(false);
                }
                lemma_gcd_divides(ns as nat, ds as nat);
                let gm = gcd(ns as nat, ds as nat) as int;
                assert(n1 * (r.spec_den() * gm) < (r.spec_num() * gm) * d1
                    && (r.spec_num() * gm) * d2 < n2 * (r.spec_den() * gm)) by (nonlinear_arith)
                    requires
                        n1 * d2 < n2 * d1,
                        r.spec_num() * gm == n1 + n2,
                        r.spec_den() * gm == d1 + d2,
                        gm >= 1,
                {}
                assert(n1 * r.spec_den() < r.spec_num() * d1
                    && r.spec_num() * d2 < n2 * r.spec_den()) by (nonlinear_arith)
                    requires
                        n1 * (r.spec_den() * gm) < (r.spec_num() * gm) * d1,
                        (r.spec_num() * gm) * d2 < n2 * (r.spec_den() * gm),
                        gm >= 1,
                {}
            }
        }
        r
    }
}

impl PartialEq for ExtendedRational {
    /// Structural on the variant, value equality on fractions; since all
    /// constructed fractions are reduced, this is value equality throughout.
    fn eq(&self, other: &Self) -> (r: bool) {
        match (self, other) {
            (ExtendedRational::Infinity, ExtendedRational::Infinity) => true,
            (
                ExtendedRational::R { num: n1, den: d1 },
                ExtendedRational::R { num: n2, den: d2 },
            ) => {
                let left: u128 = mul_wide(*n1, *d2);
                let right: u128 = mul_wide(*n2, *d1);
                left == right
            },
            _ => false,
        }
    }
}

impl vstd::std_specs::cmp::PartialEqSpecImpl for ExtendedRational {
    open spec fn obeys_eq_spec() -> bool {
        true
    }

    open spec fn eq_spec(&self, other: &Self) -> bool {
        match (*self, *other) {
            (ExtendedRational::Infinity, ExtendedRational::Infinity) => true,
            (
                ExtendedRational::R { num: n1, den: d1 },
                ExtendedRational::R { num: n2, den: d2 },
            ) => (n1 as int) * (d2 as int) == (n2 as int) * (d1 as int),
            _ => false,
        }
    }
}

impl PartialOrd for ExtendedRational {
    fn partial_cmp(&self, other: &Self) -> (r: Option<Ordering>) {
        Some(self.cmp(other))
    }
}

impl vstd::std_specs::cmp::PartialOrdSpecImpl for ExtendedRational {
    open spec fn obeys_partial_cmp_spec() -> bool {
        true
    }

    open spec fn partial_cmp_spec(&self, other: &Self) -> Option<Ordering> {
        Some(self.cmp_spec(*other))
    }
}

} // verus!
