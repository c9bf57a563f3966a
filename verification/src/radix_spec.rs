use vstd::prelude::*;
use vstd::arithmetic::div_mod::{
    lemma_div_pos_is_pos, lemma_fundamental_div_mod, lemma_mod_pos_bound, lemma_small_mod,
};
use vstd::arithmetic::power::{lemma_pow0, pow};

verus! {

/// The product of the numbers in `s`; 1 for the empty sequence.
pub open spec fn seq_product(s: Seq<u16>) -> int
    decreases s.len(),
{
    if s.len() == 0 {
        1
    } else {
        s[0] * seq_product(s.drop_first())
    }
}

/// Every modulus in `ms` is at least 1.
pub open spec fn all_positive(ms: Seq<u16>) -> bool {
    forall|i: int| 0 <= i < ms.len() ==> #[trigger] ms[i] > 0
}

/// Every digit in `ds` is below `q`.
pub open spec fn digits_below(ds: Seq<u16>, q: int) -> bool {
    forall|i: int| 0 <= i < ds.len() ==> #[trigger] ds[i] < q
}

/// Every digit in `ds` is below the modulus of its position.
pub open spec fn digits_fit(ds: Seq<u16>, ms: Seq<u16>) -> bool {
    &&& ds.len() <= ms.len()
    &&& forall|i: int| 0 <= i < ds.len() ==> #[trigger] ds[i] < ms[i]
}

/// `n` copies of the base `q`: the modulus sequence of a uniform base.
pub open spec fn uniform(q: u16, n: nat) -> Seq<u16> {
    Seq::new(n, |i: int| q)
}

/// The number that the digits `ds`, least significant first, denote under the
/// moduli `ms`: `ds[0] + ms[0] * (ds[1] + ms[1] * (...))`.
pub open spec fn mixed_radix_value(ds: Seq<u16>, ms: Seq<u16>) -> int
    decreases ds.len(),
{
    if ds.len() == 0 {
        0
    } else {
        ds[0] + ms[0] * mixed_radix_value(ds.drop_first(), ms.drop_first())
    }
}

/// The number that the digits `ds`, least significant first, denote in the
/// uniform base `q`.
pub open spec fn base_q_value(ds: Seq<u16>, q: int) -> int
    decreases ds.len(),
{
    if ds.len() == 0 {
        0
    } else {
        ds[0] + q * base_q_value(ds.drop_first(), q)
    }
}

/// The digits of `x` under the moduli `ms`, one for each modulus: digit `i` is
/// the quotient of `x` by the moduli before `i`, reduced modulo `ms[i]`.
pub open spec fn padded_digits(x: int, ms: Seq<u16>) -> Seq<u16>
    decreases ms.len(),
{
    if ms.len() == 0 {
        Seq::empty()
    } else {
        seq![(x % (ms[0] as int)) as u16] + padded_digits(x / (ms[0] as int), ms.drop_first())
    }
}

/// The digits of `x` under the moduli `ms`, ending with the first digit that
/// holds all that is left of `x`; the positions after it would hold 0.
pub open spec fn natural_digits(x: int, ms: Seq<u16>) -> Seq<u16>
    decreases ms.len(),
{
    if ms.len() == 0 {
        Seq::empty()
    } else if x >= ms[0] {
        seq![(x % (ms[0] as int)) as u16] + natural_digits(x / (ms[0] as int), ms.drop_first())
    } else {
        seq![x as u16]
    }
}

/// `n` digits that are all 0.
pub open spec fn zeros(n: nat) -> Seq<u16> {
    Seq::new(n, |i: int| 0u16)
}

/// A product of positive numbers is positive.
pub proof fn lemma_product_positive(ms: Seq<u16>)
    requires
        all_positive(ms),
    ensures
        seq_product(ms) > 0,
    decreases ms.len(),
{
    if ms.len() > 0 {
        let rest = ms.drop_first();
        assert forall|i: int| 0 <= i < rest.len() implies #[trigger] rest[i] > 0 by {
            assert(rest[i] == ms[i + 1]);
        }
        lemma_product_positive(rest);
        assert(ms[0] > 0);
        assert(ms[0] * seq_product(rest) > 0) by (nonlinear_arith)
            requires
                ms[0] > 0,
                seq_product(rest) > 0,
        ;
    }
}

/// The product of a sequence with one more number at its end.
pub proof fn lemma_product_push(s: Seq<u16>, x: u16)
    ensures
        seq_product(s.push(x)) == seq_product(s) * x,
    decreases s.len(),
{
    let t = s.push(x);
    if s.len() == 0 {
        assert(t.drop_first() =~= Seq::<u16>::empty());
        assert(seq_product(t) == x * seq_product(t.drop_first()));
        assert(seq_product(t.drop_first()) == 1);
    } else {
        assert(t.drop_first() =~= s.drop_first().push(x));
        lemma_product_push(s.drop_first(), x);
        assert(s[0] * (seq_product(s.drop_first()) * x) == (s[0] * seq_product(s.drop_first())) * x)
            by (nonlinear_arith);
    }
}

/// The product of `n` copies of `q` is `q` to the power `n`.
pub proof fn lemma_product_uniform(q: u16, n: nat)
    ensures
        seq_product(uniform(q, n)) == pow(q as int, n),
    decreases n,
{
    if n == 0 {
        lemma_pow0(q as int);
    } else {
        assert(uniform(q, n).drop_first() =~= uniform(q, (n - 1) as nat));
        lemma_product_uniform(q, (n - 1) as nat);
        assert(pow(q as int, n) == q * pow(q as int, (n - 1) as nat)) by {
            reveal(pow);
        }
    }
}

/// Under a uniform base the two ways of reading digits agree.
pub proof fn lemma_uniform_value(ds: Seq<u16>, q: u16, n: nat)
    requires
        ds.len() <= n,
    ensures
        mixed_radix_value(ds, uniform(q, n)) == base_q_value(ds, q as int),
    decreases ds.len(),
{
    if ds.len() > 0 {
        assert(uniform(q, n).drop_first() =~= uniform(q, (n - 1) as nat));
        lemma_uniform_value(ds.drop_first(), q, (n - 1) as nat);
    }
}

/// The padded digits are as many as the moduli.
pub proof fn lemma_padded_len(x: int, ms: Seq<u16>)
    ensures
        padded_digits(x, ms).len() == ms.len(),
    decreases ms.len(),
{
    if ms.len() > 0 {
        lemma_padded_len(x / (ms[0] as int), ms.drop_first());
    }
}

/// The digits of 0 are all 0.
pub proof fn lemma_padded_zero(ms: Seq<u16>)
    requires
        all_positive(ms),
    ensures
        padded_digits(0, ms) == zeros(ms.len()),
    decreases ms.len(),
{
    if ms.len() == 0 {
        assert(padded_digits(0, ms) =~= zeros(0));
    } else {
        let rest = ms.drop_first();
        assert forall|i: int| 0 <= i < rest.len() implies #[trigger] rest[i] > 0 by {
            assert(rest[i] == ms[i + 1]);
        }
        lemma_padded_zero(rest);
        assert(ms[0] > 0);
        assert(0int % (ms[0] as int) == 0);
        assert(0int / (ms[0] as int) == 0);
        assert(padded_digits(0, ms) =~= zeros(ms.len()));
    }
}

/// The natural digits are at most as many as the moduli, and at least one
/// where there is a modulus at all.
pub proof fn lemma_natural_len(x: int, ms: Seq<u16>)
    ensures
        natural_digits(x, ms).len() <= ms.len(),
        ms.len() > 0 ==> natural_digits(x, ms).len() >= 1,
    decreases ms.len(),
{
    if ms.len() > 0 && x >= ms[0] {
        lemma_natural_len(x / (ms[0] as int), ms.drop_first());
    }
}

/// Filling the natural digits up with zeros gives one digit for each modulus.
pub proof fn lemma_natural_padded(x: int, ms: Seq<u16>)
    requires
        x >= 0,
        all_positive(ms),
    ensures
        natural_digits(x, ms).len() <= ms.len(),
        padded_digits(x, ms) == natural_digits(x, ms) + zeros(
            (ms.len() - natural_digits(x, ms).len()) as nat,
        ),
    decreases ms.len(),
{
    lemma_natural_len(x, ms);
    if ms.len() == 0 {
        assert(padded_digits(x, ms) =~= natural_digits(x, ms) + zeros(0));
    } else {
        let rest = ms.drop_first();
        let m = ms[0] as int;
        assert(ms[0] > 0);
        assert forall|i: int| 0 <= i < rest.len() implies #[trigger] rest[i] > 0 by {
            assert(rest[i] == ms[i + 1]);
        }
        if x >= m {
            lemma_div_pos_is_pos(x, m);
            lemma_natural_padded(x / m, rest);
            lemma_natural_len(x / m, rest);
            assert(padded_digits(x, ms) =~= natural_digits(x, ms) + zeros(
                (ms.len() - natural_digits(x, ms).len()) as nat,
            ));
        } else {
            lemma_small_mod(x as nat, m as nat);
            assert(x / m == 0) by (nonlinear_arith)
                requires
                    0 <= x < m,
            ;
            lemma_padded_zero(rest);
            assert(padded_digits(x, ms) =~= natural_digits(x, ms) + zeros(
                (ms.len() - natural_digits(x, ms).len()) as nat,
            ));
        }
    }
}

/// Every digit of a number is below the modulus of its position.
pub proof fn lemma_padded_fit(x: int, ms: Seq<u16>)
    requires
        x >= 0,
        all_positive(ms),
    ensures
        digits_fit(padded_digits(x, ms), ms),
    decreases ms.len(),
{
    lemma_padded_len(x, ms);
    if ms.len() > 0 {
        let rest = ms.drop_first();
        let m = ms[0] as int;
        assert(ms[0] > 0);
        assert forall|i: int| 0 <= i < rest.len() implies #[trigger] rest[i] > 0 by {
            assert(rest[i] == ms[i + 1]);
        }
        lemma_div_pos_is_pos(x, m);
        lemma_padded_fit(x / m, rest);
        lemma_mod_pos_bound(x, m);
        let ds = padded_digits(x, ms);
        assert forall|i: int| 0 <= i < ds.len() implies #[trigger] ds[i] < ms[i] by {
            if i > 0 {
                assert(ds[i] == padded_digits(x / m, rest)[i - 1]);
                assert(ms[i] == rest[i - 1]);
            }
        }
    }
}

/// Every natural digit of a number is below the modulus of its position.
pub proof fn lemma_natural_fit(x: int, ms: Seq<u16>)
    requires
        x >= 0,
        all_positive(ms),
    ensures
        digits_fit(natural_digits(x, ms), ms),
{
    lemma_natural_padded(x, ms);
    lemma_padded_fit(x, ms);
    let ds = natural_digits(x, ms);
    let all = padded_digits(x, ms);
    assert forall|i: int| 0 <= i < ds.len() implies #[trigger] ds[i] < ms[i] by {
        assert(all[i] == ds[i]);
    }
}

/// Digits that fit a uniform base are below that base.
pub proof fn lemma_uniform_fit(ds: Seq<u16>, q: u16, n: nat)
    requires
        digits_fit(ds, uniform(q, n)),
    ensures
        digits_below(ds, q as int),
{
    assert forall|i: int| 0 <= i < ds.len() implies #[trigger] ds[i] < q by {
        assert(ds[i] < uniform(q, n)[i]);
    }
}

/// Zeros at the end of the digits do not change the number they denote.
pub proof fn lemma_value_zeros(ds: Seq<u16>, ms: Seq<u16>, n: nat)
    requires
        ds.len() + n <= ms.len(),
    ensures
        mixed_radix_value(ds + zeros(n), ms) == mixed_radix_value(ds, ms),
    decreases ds.len() + n,
{
    let all = ds + zeros(n);
    if ds.len() == 0 {
        if n > 0 {
            assert(all.drop_first() =~= Seq::<u16>::empty() + zeros((n - 1) as nat));
            lemma_value_zeros(Seq::<u16>::empty(), ms.drop_first(), (n - 1) as nat);
            assert(all[0] == 0);
            assert(mixed_radix_value(Seq::<u16>::empty(), ms.drop_first()) == 0);
        } else {
            assert(all =~= ds);
        }
    } else {
        assert(all.drop_first() =~= ds.drop_first() + zeros(n));
        assert(all[0] == ds[0]);
        lemma_value_zeros(ds.drop_first(), ms.drop_first(), n);
    }
}

/// The digits of a number denote that number again, reduced modulo the product
/// of the moduli.
pub proof fn lemma_padded_value(x: int, ms: Seq<u16>)
    requires
        x >= 0,
        all_positive(ms),
    ensures
        mixed_radix_value(padded_digits(x, ms), ms) == x % seq_product(ms),
    decreases ms.len(),
{
    if ms.len() == 0 {
        assert(x % 1 == 0);
    } else {
        let rest = ms.drop_first();
        let m = ms[0] as int;
        assert(ms[0] > 0);
        assert forall|i: int| 0 <= i < rest.len() implies #[trigger] rest[i] > 0 by {
            assert(rest[i] == ms[i + 1]);
        }
        lemma_div_pos_is_pos(x, m);
        lemma_padded_value(x / m, rest);
        lemma_product_positive(rest);
        lemma_mod_pos_bound(x, m);
        let ds = padded_digits(x, ms);
        assert(ds.drop_first() =~= padded_digits(x / m, rest));
        assert(ds[0] == x % m);
        let p = seq_product(rest);
        // x % (m * p) == x % m + m * ((x / m) % p)
        vstd::arithmetic::div_mod::lemma_mod_breakdown(x, m, p);
        assert(m * ((x / m) % p) + x % m == x % (m * p));
    }
}

/// Decomposition followed by reconstruction gives back every number below the
/// product of the moduli, with the digits filled up to one for each modulus.
pub proof fn lemma_padded_round_trip(x: int, ms: Seq<u16>)
    requires
        all_positive(ms),
        0 <= x < seq_product(ms),
    ensures
        mixed_radix_value(padded_digits(x, ms), ms) == x,
{
    lemma_padded_value(x, ms);
    lemma_small_mod(x as nat, seq_product(ms) as nat);
}

/// Decomposition followed by reconstruction gives back every number below the
/// product of the moduli, with as few digits as the number needs.
pub proof fn lemma_natural_round_trip(x: int, ms: Seq<u16>)
    requires
        all_positive(ms),
        0 <= x < seq_product(ms),
    ensures
        mixed_radix_value(natural_digits(x, ms), ms) == x,
{
    lemma_natural_padded(x, ms);
    lemma_padded_round_trip(x, ms);
    let ds = natural_digits(x, ms);
    lemma_value_zeros(ds, ms, (ms.len() - ds.len()) as nat);
}

/// In a uniform base `q`, decomposition into at most `n` digits followed by
/// reconstruction gives back every number below `q` to the power `n`, both
/// with the natural number of digits and with the digits filled up to `n`.
pub proof fn lemma_base_q_round_trip(x: int, q: u16, n: nat)
    requires
        q > 0,
        0 <= x < pow(q as int, n),
    ensures
        base_q_value(natural_digits(x, uniform(q, n)), q as int) == x,
        base_q_value(padded_digits(x, uniform(q, n)), q as int) == x,
{
    let ms = uniform(q, n);
    lemma_product_uniform(q, n);
    lemma_natural_round_trip(x, ms);
    lemma_padded_round_trip(x, ms);
    lemma_natural_len(x, ms);
    lemma_padded_len(x, ms);
    lemma_uniform_value(natural_digits(x, ms), q, n);
    lemma_uniform_value(padded_digits(x, ms), q, n);
}

/// A number below `q` to the power `n` has at most `n` natural digits in base
/// `q`, however many more the moduli allow, and they are its natural digits
/// under `n` moduli.
pub proof fn lemma_natural_short(y: int, q: u16, n: nat, more: nat)
    requires
        q > 0,
        n >= 1,
        more >= n,
        0 <= y < pow(q as int, n),
    ensures
        natural_digits(y, uniform(q, more)).len() <= n,
        natural_digits(y, uniform(q, more)) == natural_digits(y, uniform(q, n)),
    decreases n,
{
    let long = uniform(q, more);
    let short = uniform(q, n);
    assert(long[0] == q && short[0] == q);
    if y >= q {
        assert(pow(q as int, n) == q * pow(q as int, (n - 1) as nat)) by {
            reveal(pow);
        }
        if n == 1 {
            lemma_pow0(q as int);
            assert(false);
        }
        let rest = y / (q as int);
        lemma_fundamental_div_mod(y, q as int);
        lemma_mod_pos_bound(y, q as int);
        let top = pow(q as int, (n - 1) as nat);
        assert(0 <= rest < top) by (nonlinear_arith)
            requires
                y == q * rest + y % (q as int),
                0 <= y % (q as int) < q,
                0 <= y < q * top,
                q > 0,
        ;
        assert(long.drop_first() =~= uniform(q, (more - 1) as nat));
        assert(short.drop_first() =~= uniform(q, (n - 1) as nat));
        lemma_natural_short(rest, q, (n - 1) as nat, (more - 1) as nat);
    }
}

/// A number from `q^(k-1)` up to, but not including, `q^k` has `k` natural
/// digits in base `q`, where the moduli allow as many.
pub proof fn lemma_natural_count(v: int, q: u16, k: nat, more: nat)
    requires
        q >= 2,
        k >= 1,
        more >= k,
        pow(q as int, (k - 1) as nat) <= v < pow(q as int, k),
    ensures
        natural_digits(v, uniform(q, more)).len() == k,
    decreases k,
{
    let ms = uniform(q, more);
    assert(ms[0] == q);
    assert(pow(q as int, k) == q * pow(q as int, (k - 1) as nat)) by {
        reveal(pow);
    }
    if k == 1 {
        lemma_pow0(q as int);
    } else {
        let low = pow(q as int, (k - 2) as nat);
        assert(pow(q as int, (k - 1) as nat) == q * low) by {
            reveal(pow);
        }
        vstd::arithmetic::power::lemma_pow_positive(q as int, (k - 2) as nat);
        assert(v >= q) by (nonlinear_arith)
            requires
                v >= q * low,
                low >= 1,
                q >= 2,
        ;
        let rest = v / (q as int);
        lemma_fundamental_div_mod(v, q as int);
        lemma_mod_pos_bound(v, q as int);
        assert(low <= rest < q * low) by (nonlinear_arith)
            requires
                v == q * rest + v % (q as int),
                0 <= v % (q as int) < q,
                q * low <= v < q * (q * low),
                q >= 2,
        ;
        assert(ms.drop_first() =~= uniform(q, (more - 1) as nat));
        lemma_natural_count(rest, q, (k - 1) as nat, (more - 1) as nat);
    }
}

/// Reconstructing a 128-bit number from its 128 bits gives the number back.
pub proof fn lemma_bits_round_trip(x: u128)
    ensures
        base_q_value(padded_digits(x as int, uniform(2, 128)), 2) == x,
{
    vstd::arithmetic::power2::lemma2_to64();
    vstd::arithmetic::power2::lemma_pow2_adds(64, 64);
    vstd::arithmetic::power2::lemma_pow2(128);
    lemma_base_q_round_trip(x as int, 2, 128);
}

} // verus!
