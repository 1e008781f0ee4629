//! Matrix representatives of words in a free group on two generators.
//!
//! A complex parameter determines two generator matrices; a word over the
//! generators and their inverses evaluates to the product of the matrices
//! of its symbols. A rational target can stand for a word: its position in
//! the Stern-Brocot tree determines the product exactly, and the search for
//! it is carried out over exact rational arithmetic, never floating point.

pub mod rational;
pub mod scalar;
pub mod complex;
pub mod matrix;
pub mod stern_brocot;
pub mod generators;
pub mod driver;
