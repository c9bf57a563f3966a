use vstd::prelude::*;
use vstd::arithmetic::div_mod::lemma_fundamental_div_mod;
use vstd::arithmetic::power2::pow2;
use crate::arith::{
    coprime, divides, is_prime, lemma_coprime_divides_product, lemma_coprime_product,
    lemma_coprime_symmetric, lemma_divides_combination, lemma_divides_multiple,
    lemma_multiple_divides, lemma_primes_coprime,
};
use crate::error::NumbersError;
use crate::radix_spec::{lemma_product_push, seq_product};
use crate::table_spec::{is_table_modulus, table_root};

verus! {

/// The number of primes in each table.
pub const NPRIMES: usize = 29;

/// The primes up to 109, in ascending order.
pub const PRIMES: [u16; 29] = [
    2, 3, 5, 7, 11, 13, 17, 19, 23, 29, 31, 37, 41, 43, 47, 53, 59, 61, 67, 71, 73, 79, 83, 89,
    97, 101, 103, 107, 109,
];

/// The odd primes up to 113, in ascending order.
pub const PRIMES_SKIP_2: [u16; 29] = [
    3, 5, 7, 11, 13, 17, 19, 23, 29, 31, 37, 41, 43, 47, 53, 59, 61, 67, 71, 73, 79, 83, 89, 97,
    101, 103, 107, 109, 113,
];

/// A primitive root of each odd prime, in the order of `PRIMES_SKIP_2`.
pub const PRIMITIVE_ROOTS: [u16; 29] = [
    2, 2, 3, 2, 2, 3, 2, 5, 2, 3, 2, 6, 3, 5, 2, 2, 2, 2, 7, 5, 3, 2, 3, 5, 2, 5, 2, 6, 3,
];

/// A number between 2 and 120 that none of 2, 3, 5 and 7 divides, or that is
/// one of them, is prime.
pub proof fn lemma_small_prime(n: int)
    requires
        1 < n < 121,
        n == 2 || n % 2 != 0,
        n == 3 || n % 3 != 0,
        n == 5 || n % 5 != 0,
        n == 7 || n % 7 != 0,
    ensures
        is_prime(n),
{
    assert forall|d: int| 1 < d < n implies !#[trigger] divides(d, n) by {
        if divides(d, n) {
            lemma_divides_multiple(d, n);
            let e = n / d;
            assert(1 < e && (d <= 10 || e <= 10)) by (nonlinear_arith)
                requires
                    n == d * e,
                    1 < d < n,
                    n < 121,
            ;
            // the smaller of the two has a prime factor among 2, 3, 5, 7
            let f = if d <= 10 {
                d
            } else {
                e
            };
            let g = if d <= 10 {
                e
            } else {
                d
            };
            assert(n == f * g) by (nonlinear_arith)
                requires
                    n == d * e,
                    (f == d && g == e) || (f == e && g == d),
            ;
            if f == 2 || f == 4 || f == 6 || f == 8 || f == 10 {
                assert(n == 2 * ((f / 2) * g)) by (nonlinear_arith)
                    requires
                        n == f * g,
                        f == 2 * (f / 2),
                ;
            } else if f == 3 || f == 9 {
                assert(n == 3 * ((f / 3) * g)) by (nonlinear_arith)
                    requires
                        n == f * g,
                        f == 3 * (f / 3),
                ;
            } else if f == 5 {
                assert(n == 5 * g);
            } else {
                assert(f == 7);
                assert(n == 7 * g);
            }
            assert(false);
        }
    }
}

/// Every number in the two tables of primes is prime.
pub proof fn lemma_tables_prime(i: int)
    requires
        0 <= i < 29,
    ensures
        is_prime(PRIMES@[i] as int),
        is_prime(PRIMES_SKIP_2@[i] as int),
{
    lemma_small_prime(PRIMES@[i] as int);
    lemma_small_prime(PRIMES_SKIP_2@[i] as int);
}

/// The table of primes ascends.
pub proof fn lemma_primes_ascend(i: int, j: int)
    requires
        0 <= i < j < 29,
    ensures
        PRIMES@[i] < PRIMES@[j],
    decreases j - i,
{
    if i + 1 < j {
        lemma_primes_ascend(i, j - 1);
    }
    assert(PRIMES@[j - 1] < PRIMES@[j]);
}

/// Two different primes of the table are coprime.
pub proof fn lemma_table_coprime(i: int, j: int)
    requires
        0 <= i < 29,
        0 <= j < 29,
        i != j,
    ensures
        coprime(PRIMES@[i] as int, PRIMES@[j] as int),
{
    lemma_tables_prime(i);
    lemma_tables_prime(j);
    if i < j {
        lemma_primes_ascend(i, j);
    } else {
        lemma_primes_ascend(j, i);
    }
    lemma_primes_coprime(PRIMES@[i] as int, PRIMES@[j] as int);
}

/// Each odd prime of the table has tables of logarithms and powers, and the
/// primitive root beside it is the generator of those tables.
pub proof fn lemma_roots_generate(i: int)
    requires
        0 <= i < 29,
    ensures
        is_table_modulus(PRIMES_SKIP_2@[i] as int),
        table_root(PRIMES_SKIP_2@[i] as int) == PRIMITIVE_ROOTS@[i],
{
}

/// The product of the first `k + 1` numbers is the product of the first `k`
/// times the next.
pub proof fn lemma_prefix_step(s: Seq<u16>, k: int)
    requires
        0 <= k < s.len(),
    ensures
        seq_product(s.take(k + 1)) == seq_product(s.take(k)) * s[k],
{
    assert(s.take(k + 1) =~= s.take(k).push(s[k]));
    lemma_product_push(s.take(k), s[k]);
}

/// The products of the first numbers of a sequence without a 0 ascend.
pub proof fn lemma_prefix_ascends(s: Seq<u16>, j: int, k: int)
    requires
        forall|i: int| 0 <= i < s.len() ==> #[trigger] s[i] > 0,
        0 <= j <= k <= s.len(),
    ensures
        0 < seq_product(s.take(j)) <= seq_product(s.take(k)),
    decreases k,
{
    if k == 0 {
        assert(s.take(0) =~= Seq::<u16>::empty());
    } else {
        lemma_prefix_step(s, k - 1);
        assert(s[k - 1] > 0);
        let a = seq_product(s.take(k - 1));
        let b = s[k - 1] as int;
        if j < k {
            lemma_prefix_ascends(s, j, k - 1);
        } else {
            lemma_prefix_ascends(s, k - 1, k - 1);
        }
        assert(a * b >= a) by (nonlinear_arith)
            requires
                a > 0,
                b >= 1,
        ;
    }
}

/// The product of `xs`.
pub fn product(xs: &[u16]) -> (r: u128)
    requires
        forall|k: int| 0 <= k <= xs@.len() ==> seq_product(#[trigger] xs@.take(k)) <= u128::MAX,
    ensures
        r == seq_product(xs@),
{
    let mut acc: u128 = 1;
    let mut i: usize = 0;
    assert(xs@.take(0) =~= Seq::<u16>::empty());
    while i < xs.len()
        invariant
            i <= xs.len(),
            acc == seq_product(xs@.take(i as int)),
            forall|k: int| 0 <= k <= xs@.len() ==> seq_product(#[trigger] xs@.take(k)) <= u128::MAX,
        decreases xs.len() - i,
    {
        proof {
            lemma_prefix_step(xs@, i as int);
            assert(seq_product(xs@.take(i + 1)) <= u128::MAX);
        }
        acc = acc * xs[i] as u128;
        i += 1;
    }
    assert(xs@.take(xs.len() as int) =~= xs@);
    acc
}

/// The product of the first `k` of `ps` is the first such product that has
/// more than `nbits` bits, that is, that reaches 2 to the power `nbits`.
pub open spec fn reaches_width(ps: Seq<u16>, nbits: nat, k: int) -> bool {
    &&& 1 <= k <= ps.len()
    &&& seq_product(ps.take(k)) >= pow2(nbits)
    &&& forall|j: int| 1 <= j < k ==> seq_product(#[trigger] ps.take(j)) < pow2(nbits)
}

/// Where some product of first numbers reaches a width, one is the first.
pub proof fn lemma_first_wide(ps: Seq<u16>, nbits: nat, k: int) -> (first: int)
    requires
        1 <= k <= ps.len(),
        seq_product(ps.take(k)) >= pow2(nbits),
    ensures
        first <= k,
        reaches_width(ps, nbits, first),
    decreases k,
{
    if forall|j: int| 1 <= j < k ==> seq_product(#[trigger] ps.take(j)) < pow2(nbits) {
        k
    } else {
        let j = choose|j: int| 1 <= j < k && seq_product(#[trigger] ps.take(j)) >= pow2(nbits);
        lemma_first_wide(ps, nbits, j)
    }
}

/// The two largest powers of 2 that the widths in use reach.
proof fn lemma_pow2_wide()
    ensures
        pow2(126) == 0x4000_0000_0000_0000_0000_0000_0000_0000,
        pow2(127) == 0x8000_0000_0000_0000_0000_0000_0000_0000,
{
    vstd::arithmetic::power2::lemma2_to64();
    vstd::arithmetic::power2::lemma2_to64_rest();
    vstd::arithmetic::power2::lemma_pow2_adds(63, 63);
    vstd::arithmetic::power2::lemma_pow2_adds(64, 63);
}

/// The product of the first of `ps` that is the first to have more than
/// `nbits` bits.
pub fn base_modulus_with_width(nbits: u32, ps: &[u16]) -> (res: u128)
    requires
        nbits < 128,
        exists|k: int| reaches_width(ps@, nbits as nat, k) && seq_product(ps@.take(k)) <= u128::MAX,
    ensures
        exists|k: int| reaches_width(ps@, nbits as nat, k) && res == seq_product(ps@.take(k)),
{
    let ghost last = choose|k: int|
        reaches_width(ps@, nbits as nat, k) && seq_product(ps@.take(k)) <= u128::MAX;
    let mut res: u128 = 1;
    let mut i: usize = 0;
    proof {
        assert(ps@.take(0) =~= Seq::<u16>::empty());
        if nbits < 127 {
            vstd::arithmetic::power2::lemma_pow2_strictly_increases(nbits as nat, 127);
        }
        lemma_pow2_wide();
        vstd::arithmetic::power2::lemma_pow2_pos(nbits as nat);
    }
    loop
        invariant
            nbits < 128,
            0 < pow2(nbits as nat) <= 0x8000_0000_0000_0000_0000_0000_0000_0000,
            reaches_width(ps@, nbits as nat, last),
            seq_product(ps@.take(last)) <= u128::MAX,
            i < last,
            res == seq_product(ps@.take(i as int)),
        decreases last - i,
    {
        proof {
            lemma_prefix_step(ps@, i as int);
            if i + 1 < last {
                assert(seq_product(ps@.take(i + 1)) < pow2(nbits as nat));
            }
        }
        res = res * ps[i] as u128;
        let high = res >> nbits;
        proof {
            let shift = nbits as u128;
            assert(res >> nbits == res >> shift) by (bit_vector)
                requires
                    shift == nbits,
            ;
            vstd::bits::lemma_u128_shr_is_div(res, shift);
            let w = pow2(nbits as nat) as int;
            lemma_fundamental_div_mod(res as int, w);
            vstd::arithmetic::div_mod::lemma_mod_bound(res as int, w);
            assert((res as int / w > 0) == (res >= w)) by (nonlinear_arith)
                requires
                    res == w * (res as int / w) + res as int % w,
                    0 <= res as int % w < w,
            ;
        }
        if high > 0 {
            return res;
        }
        i += 1;
    }
}

proof fn lemma_primes_product()
    ensures
        seq_product(PRIMES@.take(26)) == 232862364358497360900063316880507363070,
{
    let s = PRIMES@;
    assert(s.take(0) =~= Seq::<u16>::empty());
    lemma_prefix_step(s, 0);
    assert(seq_product(s.take(1)) == 2);
    lemma_prefix_step(s, 1);
    assert(seq_product(s.take(2)) == 6);
    lemma_prefix_step(s, 2);
    assert(seq_product(s.take(3)) == 30);
    lemma_prefix_step(s, 3);
    assert(seq_product(s.take(4)) == 210);
    lemma_prefix_step(s, 4);
    assert(seq_product(s.take(5)) == 2310);
    lemma_prefix_step(s, 5);
    assert(seq_product(s.take(6)) == 30030);
    lemma_prefix_step(s, 6);
    assert(seq_product(s.take(7)) == 510510);
    lemma_prefix_step(s, 7);
    assert(seq_product(s.take(8)) == 9699690);
    lemma_prefix_step(s, 8);
    assert(seq_product(s.take(9)) == 223092870);
    lemma_prefix_step(s, 9);
    assert(seq_product(s.take(10)) == 6469693230);
    lemma_prefix_step(s, 10);
    assert(seq_product(s.take(11)) == 200560490130);
    lemma_prefix_step(s, 11);
    assert(seq_product(s.take(12)) == 7420738134810);
    lemma_prefix_step(s, 12);
    assert(seq_product(s.take(13)) == 304250263527210);
    lemma_prefix_step(s, 13);
    assert(seq_product(s.take(14)) == 13082761331670030);
    lemma_prefix_step(s, 14);
    assert(seq_product(s.take(15)) == 614889782588491410);
    lemma_prefix_step(s, 15);
    assert(seq_product(s.take(16)) == 32589158477190044730);
    lemma_prefix_step(s, 16);
    assert(seq_product(s.take(17)) == 1922760350154212639070);
    lemma_prefix_step(s, 17);
    assert(seq_product(s.take(18)) == 117288381359406970983270);
    lemma_prefix_step(s, 18);
    assert(seq_product(s.take(19)) == 7858321551080267055879090);
    lemma_prefix_step(s, 19);
    assert(seq_product(s.take(20)) == 557940830126698960967415390);
    lemma_prefix_step(s, 20);
    assert(seq_product(s.take(21)) == 40729680599249024150621323470);
    lemma_prefix_step(s, 21);
    assert(seq_product(s.take(22)) == 3217644767340672907899084554130);
    lemma_prefix_step(s, 22);
    assert(seq_product(s.take(23)) == 267064515689275851355624017992790);
    lemma_prefix_step(s, 23);
    assert(seq_product(s.take(24)) == 23768741896345550770650537601358310);
    lemma_prefix_step(s, 24);
    assert(seq_product(s.take(25)) == 2305567963945518424753102147331756070);
    lemma_prefix_step(s, 25);
    assert(seq_product(s.take(26)) == 232862364358497360900063316880507363070);
}

proof fn lemma_odd_primes_product()
    ensures
        seq_product(PRIMES_SKIP_2@.take(25)) == 116431182179248680450031658440253681535,
{
    let s = PRIMES_SKIP_2@;
    assert(s.take(0) =~= Seq::<u16>::empty());
    lemma_prefix_step(s, 0);
    assert(seq_product(s.take(1)) == 3);
    lemma_prefix_step(s, 1);
    assert(seq_product(s.take(2)) == 15);
    lemma_prefix_step(s, 2);
    assert(seq_product(s.take(3)) == 105);
    lemma_prefix_step(s, 3);
    assert(seq_product(s.take(4)) == 1155);
    lemma_prefix_step(s, 4);
    assert(seq_product(s.take(5)) == 15015);
    lemma_prefix_step(s, 5);
    assert(seq_product(s.take(6)) == 255255);
    lemma_prefix_step(s, 6);
    assert(seq_product(s.take(7)) == 4849845);
    lemma_prefix_step(s, 7);
    assert(seq_product(s.take(8)) == 111546435);
    lemma_prefix_step(s, 8);
    assert(seq_product(s.take(9)) == 3234846615);
    lemma_prefix_step(s, 9);
    assert(seq_product(s.take(10)) == 100280245065);
    lemma_prefix_step(s, 10);
    assert(seq_product(s.take(11)) == 3710369067405);
    lemma_prefix_step(s, 11);
    assert(seq_product(s.take(12)) == 152125131763605);
    lemma_prefix_step(s, 12);
    assert(seq_product(s.take(13)) == 6541380665835015);
    lemma_prefix_step(s, 13);
    assert(seq_product(s.take(14)) == 307444891294245705);
    lemma_prefix_step(s, 14);
    assert(seq_product(s.take(15)) == 16294579238595022365);
    lemma_prefix_step(s, 15);
    assert(seq_product(s.take(16)) == 961380175077106319535);
    lemma_prefix_step(s, 16);
    assert(seq_product(s.take(17)) == 58644190679703485491635);
    lemma_prefix_step(s, 17);
    assert(seq_product(s.take(18)) == 3929160775540133527939545);
    lemma_prefix_step(s, 18);
    assert(seq_product(s.take(19)) == 278970415063349480483707695);
    lemma_prefix_step(s, 19);
    assert(seq_product(s.take(20)) == 20364840299624512075310661735);
    lemma_prefix_step(s, 20);
    assert(seq_product(s.take(21)) == 1608822383670336453949542277065);
    lemma_prefix_step(s, 21);
    assert(seq_product(s.take(22)) == 133532257844637925677812008996395);
    lemma_prefix_step(s, 22);
    assert(seq_product(s.take(23)) == 11884370948172775385325268800679155);
    lemma_prefix_step(s, 23);
    assert(seq_product(s.take(24)) == 1152783981972759212376551073665878035);
    lemma_prefix_step(s, 24);
    assert(seq_product(s.take(25)) == 116431182179248680450031658440253681535);
}

/// The product of the first primes, from 2 on, that is the first to have more
/// than `nbits` bits.
pub fn modulus_with_width(nbits: u32) -> (res: u128)
    requires
        nbits < 128,
    ensures
        exists|k: int| reaches_width(PRIMES@, nbits as nat, k) && res == seq_product(PRIMES@.take(k)),
{
    proof {
        lemma_primes_product();
        lemma_pow2_wide();
        if nbits < 127 {
            vstd::arithmetic::power2::lemma_pow2_strictly_increases(nbits as nat, 127);
        }
        let first = lemma_first_wide(PRIMES@, nbits as nat, 26);
        lemma_prefix_ascends(PRIMES@, first, 26);
    }
    base_modulus_with_width(nbits, &PRIMES)
}

/// The product of the first odd primes that is the first to have more than
/// `nbits` bits.
pub fn modulus_with_width_skip2(nbits: u32) -> (res: u128)
    requires
        nbits < 127,
    ensures
        exists|k: int|
            reaches_width(PRIMES_SKIP_2@, nbits as nat, k) && res == seq_product(
                PRIMES_SKIP_2@.take(k),
            ),
{
    proof {
        lemma_odd_primes_product();
        lemma_pow2_wide();
        if nbits < 126 {
            vstd::arithmetic::power2::lemma_pow2_strictly_increases(nbits as nat, 126);
        }
        let first = lemma_first_wide(PRIMES_SKIP_2@, nbits as nat, 25);
        lemma_prefix_ascends(PRIMES_SKIP_2@, first, 25);
    }
    base_modulus_with_width(nbits, &PRIMES_SKIP_2)
}

/// The primes among the first `k` of the table that divide `x`, in the order
/// of the table.
pub open spec fn factors_upto(x: int, k: nat) -> Seq<u16>
    decreases k,
{
    if k == 0 {
        Seq::empty()
    } else if k <= 29 && divides(PRIMES@[k - 1] as int, x) {
        factors_upto(x, (k - 1) as nat).push(PRIMES@[k - 1])
    } else {
        factors_upto(x, (k - 1) as nat)
    }
}

/// The primes of the table that divide `x`, in ascending order.
pub open spec fn table_factors(x: int) -> Seq<u16> {
    factors_upto(x, 29)
}

/// The primes among the first `k` of the table that `chosen` marks, in the
/// order of the table.
pub open spec fn selection_upto(chosen: Seq<bool>, k: nat) -> Seq<u16>
    decreases k,
{
    if k == 0 {
        Seq::empty()
    } else if k <= 29 && chosen[k - 1] {
        selection_upto(chosen, (k - 1) as nat).push(PRIMES@[k - 1])
    } else {
        selection_upto(chosen, (k - 1) as nat)
    }
}

/// The primes of the table that `chosen` marks, in ascending order.
pub open spec fn selection(chosen: Seq<bool>) -> Seq<u16> {
    selection_upto(chosen, 29)
}

proof fn lemma_factors_positive(x: int, k: nat)
    requires
        k <= 29,
    ensures
        seq_product(factors_upto(x, k)) > 0,
    decreases k,
{
    if k > 0 {
        lemma_factors_positive(x, (k - 1) as nat);
        let before = factors_upto(x, (k - 1) as nat);
        lemma_product_push(before, PRIMES@[k - 1]);
        assert(seq_product(before) * PRIMES@[k - 1] > 0) by (nonlinear_arith)
            requires
                seq_product(before) > 0,
                PRIMES@[k - 1] > 0,
        ;
    }
}

/// The product of the primes found among the first `k` is positive and
/// coprime to every later prime of the table.
proof fn lemma_factors_coprime(x: int, k: nat, j: int)
    requires
        k <= j < 29,
    ensures
        seq_product(factors_upto(x, k)) > 0,
        coprime(seq_product(factors_upto(x, k)), PRIMES@[j] as int),
    decreases k,
{
    let p = PRIMES@[j] as int;
    if k == 0 {
        assert(1 * 1 + p * 0 == 1);
        crate::arith::lemma_coprime_from_combination(1, p, 1, 0);
    } else {
        lemma_factors_coprime(x, (k - 1) as nat, j);
        let before = factors_upto(x, (k - 1) as nat);
        if divides(PRIMES@[k - 1] as int, x) {
            lemma_product_push(before, PRIMES@[k - 1]);
            lemma_table_coprime(k - 1, j);
            lemma_coprime_product(seq_product(before), PRIMES@[k - 1] as int, p);
            assert(seq_product(before) * PRIMES@[k - 1] > 0) by (nonlinear_arith)
                requires
                    seq_product(before) > 0,
                    PRIMES@[k - 1] > 0,
            ;
        }
    }
}

/// What the product of a selection is to the prime at `j`: a multiple of it
/// once the selection has come past a chosen `j`, and coprime to it where `j`
/// is not chosen.
proof fn lemma_selection_prime(chosen: Seq<bool>, k: nat, j: int)
    requires
        chosen.len() == 29,
        k <= 29,
        0 <= j < 29,
    ensures
        seq_product(selection_upto(chosen, k)) > 0,
        chosen[j] && j < k ==> divides(PRIMES@[j] as int, seq_product(selection_upto(chosen, k))),
        !chosen[j] ==> coprime(seq_product(selection_upto(chosen, k)), PRIMES@[j] as int),
    decreases k,
{
    let p = PRIMES@[j] as int;
    if k == 0 {
        assert(1 * 1 + p * 0 == 1);
        crate::arith::lemma_coprime_from_combination(1, p, 1, 0);
    } else {
        lemma_selection_prime(chosen, (k - 1) as nat, j);
        let before = selection_upto(chosen, (k - 1) as nat);
        let b = seq_product(before);
        let n = PRIMES@[k - 1] as int;
        if chosen[k - 1] {
            lemma_product_push(before, PRIMES@[k - 1]);
            assert(b * n > 0) by (nonlinear_arith)
                requires
                    b > 0,
                    n > 0,
            ;
            if chosen[j] && j < k {
                if j == k - 1 {
                    lemma_multiple_divides(p, b);
                } else {
                    lemma_multiple_divides(p, 0);
                    lemma_divides_combination(p, b, n, 0, 0);
                    assert(b * n + 0 * 0 == b * n);
                }
            }
            if !chosen[j] {
                lemma_table_coprime(k - 1, j);
                lemma_coprime_product(b, n, p);
            }
        }
    }
}

/// A product of different primes of the table has just those primes as its
/// factors in the table, in ascending order: factoring gives them back.
pub proof fn lemma_selection_factors(chosen: Seq<bool>)
    requires
        chosen.len() == 29,
    ensures
        table_factors(seq_product(selection(chosen))) == selection(chosen),
{
    let q = seq_product(selection(chosen));
    assert forall|j: int| 0 <= j < 29 implies divides(PRIMES@[j] as int, q) == chosen[j] by {
        lemma_selection_prime(chosen, 29, j);
        let p = PRIMES@[j] as int;
        if !chosen[j] && divides(p, q) {
            lemma_coprime_symmetric(q, p);
            lemma_multiple_divides(p, 1);
            assert(divides(p, p * 1));
            assert(false);
        }
    }
    lemma_selection_factors_upto(chosen, q, 29);
}

proof fn lemma_selection_factors_upto(chosen: Seq<bool>, q: int, k: nat)
    requires
        chosen.len() == 29,
        k <= 29,
        forall|j: int| 0 <= j < 29 ==> divides(PRIMES@[j] as int, q) == chosen[j],
    ensures
        factors_upto(q, k) == selection_upto(chosen, k),
    decreases k,
{
    if k > 0 {
        lemma_selection_factors_upto(chosen, q, (k - 1) as nat);
    }
}

/// The primes of the table that divide `inp`, in ascending order, where `inp`
/// is their product; other numbers, which have a prime factor twice or one
/// outside the table, are refused.
pub fn factor(inp: u128) -> (r: Result<Vec<u16>, NumbersError>)
    ensures
        seq_product(table_factors(inp as int)) == inp ==> r.is_ok() && r.unwrap()@ == table_factors(
            inp as int,
        ),
        seq_product(table_factors(inp as int)) != inp ==> r.is_err() && r.unwrap_err()
            == NumbersError::NonFactorable,
{
    let mut x: u128 = inp;
    let mut fs: Vec<u16> = Vec::new();
    let mut i: usize = 0;
    while i < 29
        invariant
            i <= 29,
            fs@ == factors_upto(inp as int, i as nat),
            inp == x * seq_product(fs@),
        decreases 29 - i,
    {
        let p = PRIMES[i];
        let q = p as u128;
        let ghost found = seq_product(fs@);
        proof {
            lemma_factors_coprime(inp as int, i as nat, i as int);
            lemma_tables_prime(i as int);
            if divides(q as int, x as int) {
                lemma_multiple_divides(q as int, 0);
                lemma_divides_combination(q as int, x as int, found, 0, 0);
                assert(x * found + 0 * 0 == inp);
            }
            if divides(q as int, inp as int) {
                assert(found * x == x * found) by (nonlinear_arith);
                lemma_coprime_divides_product(q as int, found, x as int);
            }
        }
        if x % q == 0 {
            proof {
                lemma_divides_multiple(q as int, x as int);
                lemma_product_push(fs@, p);
                let y = x as int / q as int;
                assert(x * found == y * (found * q)) by (nonlinear_arith)
                    requires
                        x == q * y,
                ;
            }
            fs.push(p);
            x /= q;
        }
        i += 1;
    }
    proof {
        lemma_factors_positive(inp as int, 29);
        let found = seq_product(fs@);
        assert((x == 1) == (found == inp)) by (nonlinear_arith)
            requires
                inp == x * found,
                found > 0,
        ;
    }
    if x != 1 {
        return Err(NumbersError::NonFactorable);
    }
    Ok(fs)
}

} // verus!
