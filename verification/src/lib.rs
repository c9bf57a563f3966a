//! Mixed-radix and residue encodings of integers, with the modular arithmetic
//! they rest on.

pub mod adder;
pub mod arith;
pub mod bignum;
pub mod crt;
pub mod error;
pub mod modular;
pub mod primes;
pub mod radix;
pub mod radix_spec;
pub mod table_spec;
pub mod tables;

pub use adder::{base_q_add, base_q_add_eq};
pub use bignum::{as_mixed_radix_bigint, inv_ref, padded_mixed_radix_bigint, BigNum};
pub use crt::{crt, crt_inv};
pub use error::NumbersError;
pub use modular::{inv, powm};
pub use primes::{
    base_modulus_with_width, factor, modulus_with_width, modulus_with_width_skip2, product,
    NPRIMES, PRIMES, PRIMES_SKIP_2, PRIMITIVE_ROOTS,
};
pub use radix::{
    as_base_q, as_mixed_radix, digits_per_u128, from_base_q, is_power_of_2,
    num_carry_digits_to_add_n_digits, padded_base_q, padded_base_q_128, padded_mixed_radix,
    to_bits, u128_from_bits, u128_to_bits,
};
pub use tables::{dlog_truth_table, exp_truth_table};
