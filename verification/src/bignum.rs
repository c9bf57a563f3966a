use vstd::prelude::*;
use vstd::arithmetic::div_mod::{lemma_fundamental_div_mod, lemma_mod_bound};
use vstd::slice::slice_to_vec;
use crate::arith::coprime;
use crate::modular::{
    euclid_state, is_inverse, lemma_euclid_end, lemma_euclid_start, lemma_euclid_step,
};
use crate::radix_spec::{
    all_positive, digits_fit, lemma_natural_fit, lemma_natural_padded, lemma_natural_round_trip,
    lemma_padded_fit, lemma_padded_value, mixed_radix_value, natural_digits, padded_digits,
    seq_product, zeros,
};

verus! {

/// The integer that the bytes `b` denote in two's complement, least
/// significant byte first. No bytes denote 0.
pub open spec fn bytes_value(b: Seq<u8>) -> int
    decreases b.len(),
{
    if b.len() == 0 {
        0
    } else if b.len() == 1 {
        if b[0] >= 128 {
            b[0] - 256
        } else {
            b[0] as int
        }
    } else {
        b[0] + 256 * bytes_value(b.drop_first())
    }
}

/// An integer of any size, held as its bytes in two's complement, least
/// significant byte first.
#[derive(Clone, Debug)]
pub struct BigNum {
    pub bytes: Vec<u8>,
}

impl BigNum {
    /// The integer that this value stands for.
    pub open spec fn value(&self) -> int {
        bytes_value(self.bytes@)
    }

    /// The big integer with the value of `x`.
    pub fn from_u128(x: u128) -> (r: BigNum)
        ensures
            r.value() == x,
    {
        big_from_u128(x)
    }

    /// The value as a 128-bit word, where it is one.
    pub fn to_u128(&self) -> (r: Option<u128>)
        ensures
            0 <= self.value() <= u128::MAX ==> r == Some(self.value() as u128),
            !(0 <= self.value() <= u128::MAX) ==> r.is_none(),
    {
        big_to_u128(self)
    }

    /// A second value with the same bytes.
    pub fn duplicate(&self) -> (r: BigNum)
        ensures
            r.bytes@ == self.bytes@,
            r.value() == self.value(),
    {
        BigNum { bytes: slice_to_vec(self.bytes.as_slice()) }
    }
}

// The functions below that call num read their arguments with
// `BigInt::from_signed_bytes_le` and write their results with
// `BigInt::to_signed_bytes_le`. `bytes_value` states what these two take bytes
// to mean; none of what the functions claim is proved.

/// `BigInt::from` of num, for a `u128`: the big integer with the value of `x`.
/// The bytes are those that `to_signed_bytes_le` gives for it, which denote
/// that value in two's complement.
#[verifier::external_body]
pub(crate) fn big_from_u128(x: u128) -> (r: BigNum)
    ensures
        r.value() == x,
{
    BigNum { bytes: num::bigint::BigInt::from(x).to_signed_bytes_le() }
}

/// `ToPrimitive::to_u128` of num on the big integer that `from_signed_bytes_le`
/// reads from the bytes: the value, unless it is negative or too large.
#[verifier::external_body]
pub(crate) fn big_to_u128(a: &BigNum) -> (r: Option<u128>)
    ensures
        0 <= a.value() <= u128::MAX ==> r == Some(a.value() as u128),
        !(0 <= a.value() <= u128::MAX) ==> r.is_none(),
{
    num::ToPrimitive::to_u128(&num::bigint::BigInt::from_signed_bytes_le(&a.bytes))
}

/// The sum of two big integers, by `+` of num's `BigInt`.
#[verifier::external_body]
pub(crate) fn big_add(a: &BigNum, b: &BigNum) -> (r: BigNum)
    ensures
        r.value() == a.value() + b.value(),
{
    let x = num::bigint::BigInt::from_signed_bytes_le(&a.bytes);
    let y = num::bigint::BigInt::from_signed_bytes_le(&b.bytes);
    BigNum { bytes: (x + y).to_signed_bytes_le() }
}

/// The difference of two big integers, by `-` of num's `BigInt`.
#[verifier::external_body]
pub(crate) fn big_sub(a: &BigNum, b: &BigNum) -> (r: BigNum)
    ensures
        r.value() == a.value() - b.value(),
{
    let x = num::bigint::BigInt::from_signed_bytes_le(&a.bytes);
    let y = num::bigint::BigInt::from_signed_bytes_le(&b.bytes);
    BigNum { bytes: (x - y).to_signed_bytes_le() }
}

/// The product of two big integers, by `*` of num's `BigInt`.
#[verifier::external_body]
pub(crate) fn big_mul(a: &BigNum, b: &BigNum) -> (r: BigNum)
    ensures
        r.value() == a.value() * b.value(),
{
    let x = num::bigint::BigInt::from_signed_bytes_le(&a.bytes);
    let y = num::bigint::BigInt::from_signed_bytes_le(&b.bytes);
    BigNum { bytes: (x * y).to_signed_bytes_le() }
}

/// The quotient of two big integers, by `/` of num's `BigInt`, which rounds
/// towards 0 and panics on the divisor 0. It is stated for a dividend that is
/// not negative and a positive divisor only, where rounding towards 0 rounds
/// down.
#[verifier::external_body]
pub(crate) fn big_div(a: &BigNum, b: &BigNum) -> (r: BigNum)
    requires
        a.value() >= 0,
        b.value() > 0,
    ensures
        r.value() == a.value() / b.value(),
{
    let x = num::bigint::BigInt::from_signed_bytes_le(&a.bytes);
    let y = num::bigint::BigInt::from_signed_bytes_le(&b.bytes);
    BigNum { bytes: (x / y).to_signed_bytes_le() }
}

/// The remainder of two big integers, by `%` of num's `BigInt`, which has the
/// sign of the dividend and panics on the divisor 0. It is stated for a
/// dividend that is not negative and a positive divisor only.
#[verifier::external_body]
pub(crate) fn big_rem(a: &BigNum, b: &BigNum) -> (r: BigNum)
    requires
        a.value() >= 0,
        b.value() > 0,
    ensures
        r.value() == a.value() % b.value(),
{
    let x = num::bigint::BigInt::from_signed_bytes_le(&a.bytes);
    let y = num::bigint::BigInt::from_signed_bytes_le(&b.bytes);
    BigNum { bytes: (x % y).to_signed_bytes_le() }
}

/// Whether one big integer is below another, by `<` of num's `BigInt`.
#[verifier::external_body]
pub(crate) fn big_lt(a: &BigNum, b: &BigNum) -> (r: bool)
    ensures
        r == (a.value() < b.value()),
{
    let x = num::bigint::BigInt::from_signed_bytes_le(&a.bytes);
    let y = num::bigint::BigInt::from_signed_bytes_le(&b.bytes);
    x < y
}

/// The inverse of `a` modulo `b`, by the extended algorithm of Euclid on big
/// integers.
pub fn inv_ref(inp_a: &BigNum, inp_b: &BigNum) -> (r: BigNum)
    requires
        0 <= inp_a.value(),
        0 < inp_b.value(),
        coprime(inp_a.value(), inp_b.value()),
    ensures
        is_inverse(inp_a.value(), inp_b.value(), r.value()),
{
    let mut a = inp_a.duplicate();
    let mut b = inp_b.duplicate();
    let zero = big_from_u128(0);
    let one = big_from_u128(1);
    let mut x0 = big_from_u128(0);
    let mut x1 = big_from_u128(1);
    if !big_lt(&b, &one) && !big_lt(&one, &b) {
        return one;
    }
    proof {
        lemma_euclid_start(inp_a.value(), inp_b.value());
    }
    while big_lt(&one, &a)
        invariant
            euclid_state(inp_a.value(), inp_b.value(), a.value(), b.value(), x0.value(), x1.value()),
            inp_b.value() > 1,
            one.value() == 1,
        decreases a.value() + b.value(), b.value(),
    {
        proof {
            lemma_euclid_step(
                inp_a.value(),
                inp_b.value(),
                a.value(),
                b.value(),
                x0.value(),
                x1.value(),
            );
            lemma_mod_bound(a.value(), b.value());
            lemma_fundamental_div_mod(a.value(), b.value());
        }
        let q = big_div(&a, &b);
        let rest = big_rem(&a, &b);
        a = b;
        b = rest;
        let y = big_sub(&x1, &big_mul(&q, &x0));
        x1 = x0;
        x0 = y;
    }
    proof {
        lemma_euclid_end(
            inp_a.value(),
            inp_b.value(),
            a.value(),
            b.value(),
            x0.value(),
            x1.value(),
        );
    }
    if big_lt(&x1, &zero) {
        x1 = big_add(&x1, inp_b);
    }
    x1
}

/// The value of a big integer that a 16-bit digit holds.
fn u16_from_bigint(bi: &BigNum) -> (d: u16)
    requires
        0 <= bi.value() < 65536,
    ensures
        d == bi.value(),
{
    let n = bi.bytes.len();
    if n == 0 {
        0
    } else if n == 1 {
        bi.bytes[0] as u16
    } else {
        proof {
            let rest = bi.bytes@.drop_first();
            assert(rest[0] == bi.bytes@[1]);
            assert(bi.value() == bi.bytes@[0] + 256 * bytes_value(rest));
            if n > 2 {
                assert(bytes_value(rest) == rest[0] + 256 * bytes_value(rest.drop_first()));
            }
        }
        bi.bytes[0] as u16 + 256 * (bi.bytes[1] as u16)
    }
}

/// The digits of the big integer `x` under the moduli `ms`, least significant
/// first, ending with the first digit that holds all that is left of `x`.
pub fn as_mixed_radix_bigint(x: &BigNum, ms: &[u16]) -> (ds: Vec<u16>)
    requires
        0 <= x.value(),
        all_positive(ms@),
    ensures
        ds@ == natural_digits(x.value(), ms@),
        digits_fit(ds@, ms@),
        x.value() < seq_product(ms@) ==> mixed_radix_value(ds@, ms@) == x.value(),
{
    proof {
        lemma_natural_fit(x.value(), ms@);
        if x.value() < seq_product(ms@) {
            lemma_natural_round_trip(x.value(), ms@);
        }
    }
    let mut ds: Vec<u16> = Vec::with_capacity(ms.len());
    let mut rest = x.duplicate();
    let mut i: usize = 0;
    assert(ms@.subrange(0, ms.len() as int) =~= ms@);
    assert(Seq::<u16>::empty() + natural_digits(x.value(), ms@) =~= natural_digits(x.value(), ms@));
    while i < ms.len()
        invariant
            i <= ms.len(),
            all_positive(ms@),
            0 <= rest.value(),
            ds@ + natural_digits(rest.value(), ms@.subrange(i as int, ms.len() as int))
                == natural_digits(x.value(), ms@),
            digits_fit(natural_digits(x.value(), ms@), ms@),
            x.value() < seq_product(ms@) ==> mixed_radix_value(
                natural_digits(x.value(), ms@),
                ms@,
            ) == x.value(),
        decreases ms.len() - i,
    {
        let m = big_from_u128(ms[i] as u128);
        let ghost left = ms@.subrange(i as int, ms.len() as int);
        let ghost before = ds@;
        let ghost v = rest.value();
        proof {
            assert(left[0] == ms[i as int]);
            assert(left.drop_first() =~= ms@.subrange(i + 1, ms.len() as int));
            assert(ms[i as int] > 0);
            lemma_fundamental_div_mod(v, m.value());
            lemma_mod_bound(v, m.value());
        }
        if !big_lt(&rest, &m) {
            let d = big_rem(&rest, &m);
            proof {
                assert((v - d.value()) / m.value() == v / m.value()) by (nonlinear_arith)
                    requires
                        v == m.value() * (v / m.value()) + d.value(),
                        0 <= d.value() < m.value(),
                ;
                assert(v / m.value() >= 0) by (nonlinear_arith)
                    requires
                        v == m.value() * (v / m.value()) + d.value(),
                        0 <= d.value() < m.value(),
                        v >= 0,
                ;
            }
            rest = big_div(&big_sub(&rest, &d), &m);
            ds.push(u16_from_bigint(&d));
            assert(ds@ + natural_digits(rest.value(), left.drop_first()) =~= before
                + natural_digits(v, left));
        } else {
            ds.push(u16_from_bigint(&rest));
            assert(ds@ =~= before + natural_digits(v, left));
            return ds;
        }
        i += 1;
    }
    assert(ds@ + Seq::<u16>::empty() =~= ds@);
    ds
}

/// The digits of the big integer `x` under the moduli `ms`, least significant
/// first, one for each modulus.
pub fn padded_mixed_radix_bigint(x: &BigNum, ms: &[u16]) -> (ds: Vec<u16>)
    requires
        0 <= x.value(),
        all_positive(ms@),
    ensures
        ds@ == padded_digits(x.value(), ms@),
        ds@.len() == ms@.len(),
        digits_fit(ds@, ms@),
        mixed_radix_value(ds@, ms@) == x.value() % seq_product(ms@),
{
    proof {
        lemma_padded_fit(x.value(), ms@);
        lemma_padded_value(x.value(), ms@);
    }
    let mut ds = as_mixed_radix_bigint(x, ms);
    let ghost natural = ds@;
    proof {
        lemma_natural_padded(x.value(), ms@);
        assert(ds@ =~= natural + zeros(0));
    }
    while ds.len() < ms.len()
        invariant
            natural.len() <= ds.len() <= ms.len(),
            ds@ == natural + zeros((ds.len() - natural.len()) as nat),
        decreases ms.len() - ds.len(),
    {
        ds.push(0);
        assert(ds@ =~= natural + zeros((ds.len() - natural.len()) as nat));
    }
    ds
}

} // verus!
