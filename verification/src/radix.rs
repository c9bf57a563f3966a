use vstd::prelude::*;
use vstd::arithmetic::div_mod::lemma_fundamental_div_mod;
use vstd::arithmetic::power::{lemma_pow0, pow};
use crate::error::NumbersError;
use crate::radix_spec::{
    all_positive, base_q_value, digits_below, digits_fit, lemma_natural_fit, lemma_natural_padded,
    lemma_natural_count, lemma_natural_round_trip, lemma_padded_fit, lemma_padded_value,
    lemma_product_uniform, lemma_uniform_fit, lemma_uniform_value, mixed_radix_value,
    natural_digits, padded_digits, seq_product, uniform, zeros,
};

verus! {

/// `k` is the logarithm of `v` to the base `q`, rounded up: the least exponent
/// with `q^k >= v`.
pub open spec fn is_ceil_log(q: int, v: int, k: nat) -> bool {
    &&& pow(q, k) >= v
    &&& k > 0 ==> pow(q, (k - 1) as nat) < v
}

/// The logarithm of `m` to the base 2, rounded up; 0 for `m <= 1`.
pub open spec fn ceil_log2(m: int) -> nat
    decreases m,
{
    if m <= 1 {
        0
    } else {
        1 + ceil_log2((m + 1) / 2)
    }
}

/// How many digits in base `modulus` a 128-bit word holds: 128 divided by the
/// bits of one digit. The base 1 has digits of no bits, and the count is the
/// largest there is; the base 0 has no digits.
pub open spec fn digits_per_u128_spec(modulus: u16) -> nat {
    if modulus == 0 {
        0
    } else if modulus == 1 {
        usize::MAX as nat
    } else {
        (128int / (ceil_log2(modulus as int) as int)) as nat
    }
}

/// `ceil_log2(m)` is the least exponent `k` with `2^k >= m`.
pub proof fn lemma_ceil_log2(m: int)
    requires
        m >= 1,
    ensures
        is_ceil_log(2, m, ceil_log2(m)),
        m >= 2 ==> ceil_log2(m) >= 1,
    decreases m,
{
    if m <= 1 {
        lemma_pow0(2);
    } else {
        let h = (m + 1) / 2;
        lemma_ceil_log2(h);
        let k = ceil_log2(h);
        assert(pow(2, k + 1) == 2 * pow(2, k)) by {
            reveal(pow);
        }
        if k > 0 {
            assert(pow(2, k) == 2 * pow(2, (k - 1) as nat)) by {
                reveal(pow);
            }
        } else {
            lemma_pow0(2);
        }
    }
}

/// The number of base-`modulus` digits that a 128-bit word holds.
pub fn digits_per_u128(modulus: u16) -> (r: usize)
    ensures
        r == digits_per_u128_spec(modulus),
        modulus >= 2 ==> 8 <= r <= 128 && is_ceil_log(2, modulus as int, ceil_log2(modulus as int)),
{
    proof {
        if modulus >= 2 {
            lemma_ceil_log2(modulus as int);
        }
    }
    if modulus == 0 {
        return 0;
    }
    if modulus == 1 {
        return usize::MAX;
    }
    let mut v: u16 = modulus;
    let mut k: usize = 0;
    assert(pow(2, 16) == 65536) by {
        reveal_with_fuel(pow, 17);
    }
    while v > 1
        invariant
            1 <= v <= modulus,
            k <= 16,
            ceil_log2(modulus as int) == k + ceil_log2(v as int),
            v as int <= pow(2, (16 - k) as nat),
        decreases v,
    {
        proof {
            assert(pow(2, (16 - k) as nat) == 2 * pow(2, (16 - k - 1) as nat)) by {
                reveal(pow);
            }
            if k == 16 {
                lemma_pow0(2);
            }
        }
        v = (v - 1) / 2 + 1;
        k += 1;
    }
    assert(8 <= 128int / (k as int) <= 128) by (nonlinear_arith)
        requires
            1 <= k <= 16,
    ;
    128 / k
}

/// The digits of `x` under the moduli `ms`, least significant first, ending
/// with the first digit that holds all that is left of `x`.
pub fn as_mixed_radix(x: u128, ms: &[u16]) -> (ds: Vec<u16>)
    requires
        all_positive(ms@),
    ensures
        ds@ == natural_digits(x as int, ms@),
        digits_fit(ds@, ms@),
        x < seq_product(ms@) ==> mixed_radix_value(ds@, ms@) == x,
{
    proof {
        lemma_natural_fit(x as int, ms@);
        if x < seq_product(ms@) {
            lemma_natural_round_trip(x as int, ms@);
        }
    }
    let mut ds: Vec<u16> = Vec::with_capacity(ms.len());
    let mut rest: u128 = x;
    let mut i: usize = 0;
    assert(ms@.subrange(0, ms.len() as int) =~= ms@);
    assert(Seq::<u16>::empty() + natural_digits(x as int, ms@) =~= natural_digits(x as int, ms@));
    while i < ms.len()
        invariant
            i <= ms.len(),
            all_positive(ms@),
            ds@ + natural_digits(rest as int, ms@.subrange(i as int, ms.len() as int))
                == natural_digits(x as int, ms@),
            digits_fit(natural_digits(x as int, ms@), ms@),
            x < seq_product(ms@) ==> mixed_radix_value(natural_digits(x as int, ms@), ms@) == x,
        decreases ms.len() - i,
    {
        let m = ms[i] as u128;
        let ghost left = ms@.subrange(i as int, ms.len() as int);
        let ghost before = ds@;
        proof {
            assert(left[0] == ms[i as int]);
            assert(left.drop_first() =~= ms@.subrange(i + 1, ms.len() as int));
            assert(ms[i as int] > 0);
        }
        if rest >= m {
            let d = rest % m;
            proof {
                lemma_fundamental_div_mod(rest as int, m as int);
                assert((rest - d) / (m as int) == rest / m) by (nonlinear_arith)
                    requires
                        rest == m * (rest / m) + d,
                        0 <= d < m,
                ;
            }
            rest = (rest - d) / m;
            ds.push(d as u16);
            proof {
                assert(ds@ + natural_digits(rest as int, left.drop_first()) =~= before
                    + natural_digits(d + m * rest, left)) by {
                    lemma_fundamental_div_mod(d + m * rest, m as int);
                }
            }
        } else {
            ds.push(rest as u16);
            assert(ds@ =~= before + natural_digits(rest as int, left));
            return ds;
        }
        i += 1;
    }
    assert(ds@ + Seq::<u16>::empty() =~= ds@);
    ds
}

/// The digits of `x` under the moduli `ms`, least significant first, one for
/// each modulus.
pub fn padded_mixed_radix(x: u128, ms: &[u16]) -> (ds: Vec<u16>)
    requires
        all_positive(ms@),
    ensures
        ds@ == padded_digits(x as int, ms@),
        ds@.len() == ms@.len(),
        digits_fit(ds@, ms@),
        mixed_radix_value(ds@, ms@) == (x as int) % seq_product(ms@),
{
    proof {
        lemma_padded_fit(x as int, ms@);
        lemma_padded_value(x as int, ms@);
    }
    let mut ds = as_mixed_radix(x, ms);
    let ghost natural = ds@;
    proof {
        lemma_natural_padded(x as int, ms@);
        assert(ds@ =~= natural + zeros(0));
    }
    while ds.len() < ms.len()
        invariant
            natural.len() <= ds.len() <= ms.len(),
            ds@ == natural + zeros((ds.len() - natural.len()) as nat),
        decreases ms.len() - ds.len(),
    {
        let ghost before = ds@;
        ds.push(0);
        assert(ds@ =~= natural + zeros((ds.len() - natural.len()) as nat));
    }
    ds
}

/// A number denoted by digits is not negative, and no smaller than the number
/// that the digits from position `j` on denote, if the base is at least 1.
pub proof fn lemma_value_suffix(ds: Seq<u16>, q: int, j: int)
    requires
        q >= 1,
        0 <= j <= ds.len(),
    ensures
        0 <= base_q_value(ds.subrange(j, ds.len() as int), q) <= base_q_value(ds, q),
    decreases ds.len(),
{
    if ds.len() == 0 {
        assert(ds.subrange(j, ds.len() as int) =~= ds);
    } else if j == 0 {
        assert(ds.subrange(j, ds.len() as int) =~= ds);
        lemma_value_suffix(ds.drop_first(), q, 0);
        assert(ds.drop_first().subrange(0, ds.len() - 1) =~= ds.drop_first());
        assert(q * base_q_value(ds.drop_first(), q) >= 0) by (nonlinear_arith)
            requires
                q >= 1,
                base_q_value(ds.drop_first(), q) >= 0,
        ;
    } else {
        let rest = ds.drop_first();
        lemma_value_suffix(rest, q, j - 1);
        assert(rest.subrange(j - 1, rest.len() as int) =~= ds.subrange(j, ds.len() as int));
        assert(q * base_q_value(rest, q) >= base_q_value(rest, q)) by (nonlinear_arith)
            requires
                q >= 1,
                base_q_value(rest, q) >= 0,
        ;
    }
}

/// The number that the digits `ds`, least significant first, denote in base
/// `q`; refused where it does not fit in 128 bits.
pub fn from_base_q(ds: &[u16], q: u16) -> (r: Result<u128, NumbersError>)
    ensures
        base_q_value(ds@, q as int) <= u128::MAX ==> r.is_ok() && r.unwrap() == base_q_value(
            ds@,
            q as int,
        ),
        base_q_value(ds@, q as int) > u128::MAX ==> r.is_err() && r.unwrap_err()
            == NumbersError::Overflow,
{
    let mut x: u128 = 0;
    let mut i: usize = ds.len();
    assert(ds@.subrange(ds.len() as int, ds.len() as int) =~= Seq::<u16>::empty());
    while i > 0
        invariant
            i <= ds.len(),
            x == base_q_value(ds@.subrange(i as int, ds.len() as int), q as int),
        decreases i,
    {
        i -= 1;
        let d = ds[i];
        let ghost tail = ds@.subrange(i as int, ds.len() as int);
        proof {
            assert(tail.drop_first() =~= ds@.subrange(i + 1, ds.len() as int));
            assert(tail[0] == d);
            assert(base_q_value(tail, q as int) == d + q * x);
            assert(x * q == q * x && (q == 0 ==> x * q == 0)) by (nonlinear_arith);
            if q >= 1 {
                lemma_value_suffix(ds@, q as int, i as int);
            }
        }
        match x.checked_mul(q as u128) {
            None => {
                return Err(NumbersError::Overflow);
            },
            Some(xq) => {
                match xq.checked_add(d as u128) {
                    None => {
                        return Err(NumbersError::Overflow);
                    },
                    Some(sum) => {
                        x = sum;
                    },
                }
            },
        }
    }
    assert(ds@.subrange(0, ds.len() as int) =~= ds@);
    Ok(x)
}

fn uniform_moduli(q: u16, n: usize) -> (ms: Vec<u16>)
    ensures
        ms@ == uniform(q, n as nat),
{
    let mut ms: Vec<u16> = Vec::with_capacity(n);
    let mut i: usize = 0;
    while i < n
        invariant
            i <= n,
            ms@ == uniform(q, i as nat),
        decreases n - i,
    {
        ms.push(q);
        i += 1;
        assert(ms@ =~= uniform(q, i as nat));
    }
    ms
}

/// The `n` digits of `x` in base `q`, least significant first.
pub fn padded_base_q(x: u128, q: u16, n: usize) -> (ds: Vec<u16>)
    requires
        q > 0 || n == 0,
    ensures
        ds@ == padded_digits(x as int, uniform(q, n as nat)),
        ds@.len() == n,
        digits_below(ds@, q as int),
        base_q_value(ds@, q as int) == (x as int) % pow(q as int, n as nat),
{
    let ms = uniform_moduli(q, n);
    let ds = padded_mixed_radix(x, ms.as_slice());
    proof {
        lemma_uniform_fit(ds@, q, n as nat);
        lemma_uniform_value(ds@, q, n as nat);
        lemma_product_uniform(q, n as nat);
    }
    ds
}

/// The digits of `x` in base `q`, least significant first, as many as a
/// 128-bit word holds in that base.
pub fn padded_base_q_128(x: u128, q: u16) -> (ds: Vec<u16>)
    requires
        q != 1,
    ensures
        ds@ == padded_digits(x as int, uniform(q, digits_per_u128_spec(q))),
        ds@.len() == digits_per_u128_spec(q),
        digits_below(ds@, q as int),
        base_q_value(ds@, q as int) == (x as int) % pow(q as int, digits_per_u128_spec(q)),
{
    let n = digits_per_u128(q);
    let ms = uniform_moduli(q, n);
    let ds = padded_mixed_radix(x, ms.as_slice());
    proof {
        lemma_uniform_fit(ds@, q, n as nat);
        lemma_uniform_value(ds@, q, n as nat);
        lemma_product_uniform(q, n as nat);
    }
    ds
}

/// The digits of `x` in base `q`, least significant first and without zeros
/// at the end, for an `x` that as many digits hold as a 128-bit word has in
/// that base.
pub fn as_base_q(x: u128, q: u16) -> (ds: Vec<u16>)
    requires
        q != 1,
        x < pow(q as int, digits_per_u128_spec(q)),
    ensures
        ds@ == natural_digits(x as int, uniform(q, digits_per_u128_spec(q))),
        digits_below(ds@, q as int),
        base_q_value(ds@, q as int) == x,
{
    let n = digits_per_u128(q);
    let ms = uniform_moduli(q, n);
    let ds = as_mixed_radix(x, ms.as_slice());
    proof {
        lemma_uniform_fit(ds@, q, n as nat);
        lemma_uniform_value(ds@, q, n as nat);
        lemma_product_uniform(q, n as nat);
    }
    ds
}

/// The `n` lowest bits of `x`, lowest first.
pub fn to_bits(x: u128, n: usize) -> (bits: Vec<u16>)
    ensures
        bits@ == padded_digits(x as int, uniform(2, n as nat)),
        bits@.len() == n,
        digits_below(bits@, 2),
        base_q_value(bits@, 2) == (x as int) % pow(2, n as nat),
{
    proof {
        let ms = uniform(2, n as nat);
        let ds = padded_digits(x as int, ms);
        lemma_padded_fit(x as int, ms);
        lemma_padded_value(x as int, ms);
        lemma_uniform_fit(ds, 2, n as nat);
        lemma_uniform_value(ds, 2, n as nat);
        lemma_product_uniform(2, n as nat);
    }
    let mut bits: Vec<u16> = Vec::with_capacity(n);
    let mut y: u128 = x;
    let mut i: usize = 0;
    assert(Seq::<u16>::empty() + padded_digits(x as int, uniform(2, n as nat)) =~= padded_digits(
        x as int,
        uniform(2, n as nat),
    ));
    while i < n
        invariant
            i <= n,
            bits@.len() == i,
            bits@ + padded_digits(y as int, uniform(2, (n - i) as nat)) == padded_digits(
                x as int,
                uniform(2, n as nat),
            ),
        decreases n - i,
    {
        let b = y & 1;
        let ghost left = uniform(2, (n - i) as nat);
        let ghost before = bits@;
        proof {
            assert(b == y % 2) by (bit_vector)
                requires
                    b == y & 1,
            ;
            assert(left[0] == 2);
            assert(left.drop_first() =~= uniform(2, (n - i - 1) as nat));
        }
        bits.push(b as u16);
        y -= b;
        y /= 2;
        i += 1;
        assert(bits@ + padded_digits(y as int, uniform(2, (n - i) as nat)) =~= before
            + padded_digits(2 * y + b, left));
    }
    assert(bits@ + Seq::<u16>::empty() =~= bits@);
    bits
}

/// The `n` lowest bits of `x`, lowest first.
pub fn u128_to_bits(x: u128, n: usize) -> (bits: Vec<u16>)
    ensures
        bits@ == padded_digits(x as int, uniform(2, n as nat)),
        bits@.len() == n,
        digits_below(bits@, 2),
        base_q_value(bits@, 2) == (x as int) % pow(2, n as nat),
{
    to_bits(x, n)
}

/// The number that the base-2 digits `bs` denote, lowest first.
pub fn u128_from_bits(bs: &[u16]) -> (x: u128)
    requires
        bs@.len() > 0,
        base_q_value(bs@, 2) <= u128::MAX,
    ensures
        x == base_q_value(bs@, 2),
{
    let mut x: u128 = 0;
    let mut i: usize = bs.len();
    assert(bs@.subrange(bs.len() as int, bs.len() as int) =~= Seq::<u16>::empty());
    while i > 1
        invariant
            1 <= i <= bs.len(),
            base_q_value(bs@, 2) <= u128::MAX,
            x == 2 * base_q_value(bs@.subrange(i as int, bs.len() as int), 2),
        decreases i,
    {
        i -= 1;
        let ghost tail = bs@.subrange(i as int, bs.len() as int);
        proof {
            assert(tail.drop_first() =~= bs@.subrange(i + 1, bs.len() as int));
            assert(tail[0] == bs[i as int]);
            lemma_value_suffix(bs@, 2, i as int);
            lemma_value_suffix(bs@, 2, i - 1);
            let longer = bs@.subrange(i - 1, bs.len() as int);
            assert(longer.drop_first() =~= tail);
        }
        x += bs[i] as u128;
        x *= 2;
    }
    proof {
        assert(bs@.drop_first() =~= bs@.subrange(1, bs.len() as int));
    }
    x += bs[0] as u128;
    x
}

/// How many carry digits the sum of `n` digits in base `q` may need: the
/// logarithm of `n * (q - 1)`, the largest such sum, to the base `q`, rounded
/// up; 0 where that sum is 0.
pub fn num_carry_digits_to_add_n_digits(q: u16, n: usize) -> (k: usize)
    requires
        q >= 1,
        n * (q - 1) <= usize::MAX,
    ensures
        n * (q - 1) == 0 ==> k == 0,
        n * (q - 1) > 0 ==> is_ceil_log(q as int, n * (q - 1), k as nat),
{
    let v: u128 = (n as u128) * ((q - 1) as u128);
    let mut p: u128 = 1;
    let mut k: usize = 0;
    if v == 0 {
        return 0;
    }
    assert(q >= 2) by (nonlinear_arith)
        requires
            n * (q - 1) > 0,
            q >= 1,
    ;
    proof {
        lemma_pow0(q as int);
        lemma_pow0(2);
    }
    while p < v
        invariant
            q >= 2,
            0 < v <= usize::MAX,
            k <= 64,
            0 < p,
            p == pow(q as int, k as nat),
            k > 0 ==> pow(q as int, (k - 1) as nat) < v,
            p >= pow(2, k as nat),
        decreases 64 - k,
    {
        proof {
            assert(pow(q as int, (k + 1) as nat) == q * pow(q as int, k as nat)) by {
                reveal(pow);
            }
            assert(pow(2, (k + 1) as nat) == 2 * pow(2, k as nat)) by {
                reveal(pow);
            }
            assert(p * q <= usize::MAX * 65535 && p * q >= 2 * p) by (nonlinear_arith)
                requires
                    0 < p < v,
                    v <= usize::MAX,
                    2 <= q <= 65535,
            ;
            if k == 64 {
                vstd::arithmetic::power2::lemma2_to64();
                vstd::arithmetic::power2::lemma_pow2(64);
            }
        }
        p = p * (q as u128);
        k += 1;
    }
    k
}

/// A power of `q` leaves 1 modulo `q - 1`.
proof fn lemma_pow_mod_pred(q: int, k: nat)
    requires
        q >= 3,
    ensures
        pow(q, k) % (q - 1) == 1,
    decreases k,
{
    if k == 0 {
        lemma_pow0(q);
        vstd::arithmetic::div_mod::lemma_small_mod(1, (q - 1) as nat);
    } else {
        lemma_pow_mod_pred(q, (k - 1) as nat);
        let rest = pow(q, (k - 1) as nat);
        assert(pow(q, k) == q * rest) by {
            reveal(pow);
        }
        assert(q * rest == (q - 1) * rest + rest) by (nonlinear_arith);
        vstd::arithmetic::div_mod::lemma_mod_multiples_vanish(rest, rest, q - 1);
    }
}

/// In a base of at least 3, the largest sum of `n` digits has exactly as many
/// digits as the count of carry digits says: it is below `q` to that power,
/// and not below the power before.
pub proof fn lemma_carry_digits_exact(q: u16, n: int, k: nat, more: nat)
    requires
        q >= 3,
        n >= 1,
        more >= k,
        is_ceil_log(q as int, n * (q - 1), k),
    ensures
        k >= 1,
        pow(q as int, (k - 1) as nat) < n * (q - 1) < pow(q as int, k),
        natural_digits(n * (q - 1), uniform(q, more)).len() == k,
{
    let v = n * (q - 1);
    assert(v >= 2) by (nonlinear_arith)
        requires
            v == n * (q - 1),
            n >= 1,
            q >= 3,
    ;
    if k == 0 {
        lemma_pow0(q as int);
    }
    lemma_pow_mod_pred(q as int, k);
    vstd::arithmetic::div_mod::lemma_mod_multiples_basic(n, q - 1);
    lemma_natural_count(v, q, k, more);
}

/// In base 2 the largest sum of `n` digits, which is `n`, has as many digits
/// as the count of carry digits says, unless `n` is a power of 2: then it has
/// one more.
pub proof fn lemma_carry_digits_binary(n: int, k: nat, more: nat)
    requires
        n >= 1,
        more > k,
        is_ceil_log(2, n, k),
    ensures
        n <= pow(2, k) < 2 * n,
        n < pow(2, k) ==> natural_digits(n, uniform(2, more)).len() == k,
        n == pow(2, k) ==> natural_digits(n, uniform(2, more)).len() == k + 1,
{
    assert(pow(2, k + 1) == 2 * pow(2, k)) by {
        reveal(pow);
    }
    if k == 0 {
        lemma_pow0(2);
    } else {
        assert(pow(2, k) == 2 * pow(2, (k - 1) as nat)) by {
            reveal(pow);
        }
    }
    if n < pow(2, k) {
        lemma_natural_count(n, 2, k, more);
    } else {
        lemma_natural_count(n, 2, k + 1, more);
    }
}

/// Whether `x` is a power of 2.
pub fn is_power_of_2(x: u128) -> (r: bool)
    requires
        x > 0,
    ensures
        r == vstd::arithmetic::power2::is_pow2(x as int),
{
    proof {
        lemma_one_bit(x);
    }
    (x & (x - 1)) == 0
}

proof fn lemma_one_bit(x: u128)
    requires
        x > 0,
    ensures
        ((x & ((x - 1) as u128)) == 0) == vstd::arithmetic::power2::is_pow2(x as int),
    decreases x,
{
    reveal(vstd::arithmetic::power2::is_pow2);
    if x > 1 {
        let h = x / 2;
        assert(h > 0);
        lemma_one_bit(h);
        assert(((x & ((x - 1) as u128)) == 0) == (x % 2 == 0 && (h & ((h - 1) as u128)) == 0))
            by (bit_vector)
            requires
                x > 1,
                h == x / 2,
        ;
    } else {
        assert(1u128 & 0u128 == 0) by (bit_vector);
    }
}

} // verus!
