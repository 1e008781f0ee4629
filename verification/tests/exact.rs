use std::cmp::Ordering;
use wordrep::rational::{gcd_u64, ExtendedRational};
use wordrep::driver::{parse_word, word_symbols, random_word, rng_from_seed};
use wordrep::matrix::Sym;

#[test]
fn gcd_small_values() {
    assert_eq!(gcd_u64(12, 18), 6);
    assert_eq!(gcd_u64(0, 5), 5);
    assert_eq!(gcd_u64(7, 0), 7);
    assert_eq!(gcd_u64(35, 64), 1);
}

#[test]
fn new_reduces_fractions() {
    let r = ExtendedRational::new(6, 4);
    assert_eq!(r.numer(), 3);
    assert_eq!(r.denom(), 2);
    let z = ExtendedRational::new(0, 7);
    assert_eq!(z.numer(), 0);
    assert_eq!(z.denom(), 1);
}

#[test]
fn new_zero_denominator_is_infinity() {
    let inf = ExtendedRational::new(5, 0);
    assert_eq!(inf.numer(), 1);
    assert_eq!(inf.denom(), 0);
    assert!(inf == ExtendedRational::Infinity);
}

#[test]
fn equality_is_value_equality() {
    assert!(ExtendedRational::new(2, 4) == ExtendedRational::new(1, 2));
    assert!(ExtendedRational::new(1, 2) != ExtendedRational::new(2, 3));
    assert!(ExtendedRational::Infinity == ExtendedRational::Infinity);
    assert!(ExtendedRational::Infinity != ExtendedRational::new(1, 1));
}

#[test]
fn order_puts_infinity_on_top() {
    assert!(ExtendedRational::new(1, 2) < ExtendedRational::new(2, 3));
    assert!(ExtendedRational::new(1000, 1) < ExtendedRational::Infinity);
    assert!(!(ExtendedRational::Infinity < ExtendedRational::Infinity));
    let a = ExtendedRational::new(1, 2);
    let b = ExtendedRational::new(3, 4);
    assert_eq!(a.cmp(&b), Ordering::Less);
    assert_eq!(b.cmp(&a), Ordering::Greater);
    assert_eq!(a.cmp(&ExtendedRational::new(2, 4)), Ordering::Equal);
}

#[test]
fn mediant_of_root_bounds() {
    let low = ExtendedRational::new(0, 1);
    let m = low.mediant(&ExtendedRational::Infinity);
    assert_eq!(m.numer(), 1);
    assert_eq!(m.denom(), 1);
}

#[test]
fn mediant_lies_strictly_between_bounds() {
    let low = ExtendedRational::new(1, 2);
    let high = ExtendedRational::new(3, 4);
    let m = low.mediant(&high);
    assert_eq!(m.numer(), 2);
    assert_eq!(m.denom(), 3);
    assert!(low < m);
    assert!(m < high);

    let fin = ExtendedRational::new(5, 3);
    let m2 = fin.mediant(&ExtendedRational::Infinity);
    assert_eq!(m2.numer(), 2);
    assert_eq!(m2.denom(), 1);
    assert!(fin < m2);
    assert!(m2 < ExtendedRational::Infinity);
}

#[test]
fn mediant_of_two_infinities_is_infinity() {
    let m = ExtendedRational::Infinity.mediant(&ExtendedRational::Infinity);
    assert!(m == ExtendedRational::Infinity);
}

#[test]
fn parse_word_accepts_the_alphabet() {
    let w = parse_word("abAB").unwrap();
    assert_eq!(w, "abAB");
    assert_eq!(parse_word("").unwrap(), "");
}

#[test]
fn parse_word_rejects_other_letters() {
    let e = parse_word("abc").unwrap_err();
    assert_eq!(e, "Value must contain only the letters 'a', 'b', 'A', 'B'.");
    assert!(parse_word("a b").is_err());
}

#[test]
fn word_symbols_maps_each_character() {
    let v = word_symbols("abAB").unwrap();
    assert_eq!(v, vec![Sym::A, Sym::B, Sym::AInv, Sym::BInv]);
    assert!(word_symbols("ax").is_err());
}

#[test]
fn random_word_has_requested_length_and_is_reproducible() {
    let mut rng = rng_from_seed([2u8; 32]);
    let w1 = random_word(&mut rng, 10);
    assert_eq!(w1.len(), 10);
    let mut rng2 = rng_from_seed([2u8; 32]);
    let w2 = random_word(&mut rng2, 10);
    assert_eq!(w1, w2);
    let mut rng3 = rng_from_seed([2u8; 32]);
    assert_eq!(random_word(&mut rng3, 0).len(), 0);
}
