use vstd::prelude::*;

verus! {

/// The ways in which an operation on encoded numbers can be refused.
#[derive(Clone, Copy, Debug, PartialEq, Eq, Structural)]
pub enum NumbersError {
    /// The digits denote a value that does not fit in 128 bits.
    Overflow,
    /// No discrete-log or exponentiation table exists for the modulus.
    UnsupportedModulus,
    /// The value is not a product of distinct primes of the prime table.
    NonFactorable,
}

} // verus!
