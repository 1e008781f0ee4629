//! The word evaluator: turn one of the three word selections — an explicit
//! symbol string, a uniformly random word of a given length, or a rational
//! target in the Stern-Brocot tree — into the matrix it evaluates to. The
//! matrix of an explicit or random word carries exactly that word; the
//! rational mode's contract is stated by the locator itself.

use vstd::prelude::*;
use vstd::string::StrSliceExecFns;
use vstd::string::StringExecFns;
use crate::matrix::{M, Sym, words_of, spec_product};
use crate::generators::Generators;

verus! {

/// The characters that spell a symbol.
pub open spec fn char_is_symbol(ch: char) -> bool {
    ch == 'a' || ch == 'b' || ch == 'A' || ch == 'B'
}

/// The symbol a valid character spells; lower case for the generators,
/// upper case for their inverses.
pub open spec fn sym_of_char(ch: char) -> Sym {
    if ch == 'a' {
        Sym::A
    } else if ch == 'b' {
        Sym::B
    } else if ch == 'A' {
        Sym::AInv
    } else {
        Sym::BInv
    }
}

/// Accept a word if every character spells a symbol; hand it back
/// unchanged, or reject it with a message naming the alphabet.
pub fn parse_word(input: &str) -> (r: Result<String, String>)
    ensures
        r matches Ok(w) ==> w@ == input@ && (forall|i: int|
            0 <= i < input@.len() ==> char_is_symbol(#[trigger] input@[i])),
        r is Err <==> exists|i: int| 0 <= i < input@.len() && !char_is_symbol(#[trigger] input@[i]),
        r matches Err(m) ==> m@ == "Value must contain only the letters 'a', 'b', 'A', 'B'."@,
{
    let n = input.unicode_len();
    let mut i: usize = 0;
    while i < n
        invariant
            n == input@.len(),
            i <= n,
            forall|j: int| 0 <= j < i ==> char_is_symbol(#[trigger] input@[j]),
        decreases n - i,
    {
        let ch = input.get_char(i);
        if !(ch == 'a' || ch == 'b' || ch == 'A' || ch == 'B') {
            return Err(String::from_str("Value must contain only the letters 'a', 'b', 'A', 'B'."));
        }
        i += 1;
    }
    Ok(String::from_str(input))
}

/// The symbols a word spells, or the same rejection as `parse_word`.
pub fn word_symbols(input: &str) -> (r: Result<Vec<Sym>, String>)
    ensures
        r matches Ok(v) ==> v@.len() == input@.len() && (forall|i: int|
            0 <= i < input@.len() ==> char_is_symbol(#[trigger] input@[i]) && v@[i] == sym_of_char(
                input@[i],
            )),
        r is Err <==> exists|i: int| 0 <= i < input@.len() && !char_is_symbol(#[trigger] input@[i]),
        r matches Err(m) ==> m@ == "Value must contain only the letters 'a', 'b', 'A', 'B'."@,
{
    let n = input.unicode_len();
    let mut v: Vec<Sym> = Vec::new();
    let mut i: usize = 0;
    while i < n
        invariant
            n == input@.len(),
            i <= n,
            v@.len() == i,
            forall|j: int|
                0 <= j < i ==> char_is_symbol(#[trigger] input@[j]) && v@[j] == sym_of_char(
                    input@[j],
                ),
        decreases n - i,
    {
        let ch = input.get_char(i);
        if ch == 'a' {
            v.push(Sym::A);
        } else if ch == 'b' {
            v.push(Sym::B);
        } else if ch == 'A' {
            v.push(Sym::AInv);
        } else if ch == 'B' {
            v.push(Sym::BInv);
        } else {
            return Err(String::from_str("Value must contain only the letters 'a', 'b', 'A', 'B'."));
        }
        i += 1;
    }
    Ok(v)
}

/// Declares rand's standard generator, the source of random words; its
/// state stays opaque to the verifier.
#[verifier::external_type_specification]
#[verifier::external_body]
pub struct ExStdRng(rand::rngs::StdRng);

/// Relies on rand's SeedableRng::from_seed for StdRng: a deterministic
/// generator from the given seed.
#[verifier::external_body]
pub fn rng_from_seed(seed: [u8; 32]) -> rand::rngs::StdRng {
    <rand::rngs::StdRng as rand::SeedableRng>::from_seed(seed)
}

/// Relies on rand's Rng::gen_range over 0..4: uniform over the four
/// symbol indices, and always below four.
#[verifier::external_body]
pub fn draw_symbol_index(rng: &mut rand::rngs::StdRng) -> (i: u8)
    ensures
        i < 4,
{
    rand::Rng::gen_range(rng, 0..4u8)
}

/// The symbol of an index drawn for a random word, in the fixed order of
/// the alphabet.
pub fn sym_of_index(i: u8) -> (s: Sym)
    requires
        i < 4,
    ensures
        s == (if i == 0 {
            Sym::A
        } else if i == 1 {
            Sym::B
        } else if i == 2 {
            Sym::AInv
        } else {
            Sym::BInv
        }),
{
    if i == 0 {
        Sym::A
    } else if i == 1 {
        Sym::B
    } else if i == 2 {
        Sym::AInv
    } else {
        Sym::BInv
    }
}

/// A uniformly random (unreduced) word of the given length.
pub fn random_word(rng: &mut rand::rngs::StdRng, n: usize) -> (v: Vec<Sym>)
    ensures
        v@.len() == n,
{
    let mut v: Vec<Sym> = Vec::new();
    let mut i: usize = 0;
    while i < n
        invariant
            i <= n,
            v@.len() == i,
        decreases n - i,
    {
        let idx = draw_symbol_index(rng);
        v.push(sym_of_index(idx));
        i += 1;
    }
    v
}

/// The generator matrix a symbol selects.
pub open spec fn sym_matrix(s: Sym, gens: Generators) -> M {
    match s {
        Sym::A => gens.a,
        Sym::B => gens.b,
        Sym::AInv => gens.a_inv,
        Sym::BInv => gens.b_inv,
    }
}

/// Map each symbol to its generator matrix, leftmost symbol first, and
/// fold the product: the result is that fold, and stands for exactly the
/// given word.
pub fn evaluate_symbols(syms: &Vec<Sym>, gens: &Generators, p: usize) -> (r: M)
    requires
        syms@.len() >= 1,
        gens.well_formed(),
    ensures
        r.word@ == syms@,
        r == spec_product(syms@.map(|i: int, s: Sym| sym_matrix(s, *gens)), p),
{
    let mut ms: Vec<M> = Vec::new();
    let mut i: usize = 0;
    while i < syms.len()
        invariant
            i <= syms@.len(),
            ms@.len() == i,
            gens.well_formed(),
            words_of(ms@) == syms@.take(i as int),
            ms@ =~= syms@.take(i as int).map(|j: int, s: Sym| sym_matrix(s, *gens)),
        decreases syms@.len() - i,
    {
        let ghost old_ms = ms@;
        let m = match syms[i] {
            Sym::A => gens.a.clone(),
            Sym::B => gens.b.clone(),
            Sym::AInv => gens.a_inv.clone(),
            Sym::BInv => gens.b_inv.clone(),
        };
        proof {
            assert(m.word@ =~= seq![syms@[i as int]]);
            assert(m == sym_matrix(syms@[i as int], *gens));
        }
        ms.push(m);
        proof {
            assert(ms@.drop_last() =~= old_ms);
            assert(ms@.last() == m);
            assert(words_of(ms@) == words_of(old_ms) + m.word@);
            assert(syms@.take(i as int + 1) =~= syms@.take(i as int) + seq![syms@[i as int]]);
            assert(ms@ =~= syms@.take(i as int + 1).map(|j: int, s: Sym| sym_matrix(s, *gens)));
        }
        i += 1;
    }
    proof {
        assert(syms@.take(syms@.len() as int) =~= syms@);
        assert(ms@ =~= syms@.map(|j: int, s: Sym| sym_matrix(s, *gens)));
    }
    M::product(&ms, p)
}

} // verus!
