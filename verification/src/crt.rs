use vstd::prelude::*;
use vstd::arithmetic::div_mod::{
    lemma_div_multiples_vanish, lemma_mod_bound, lemma_mod_mod, lemma_small_mod,
};
use crate::arith::{
    coprime, divides, lemma_congruent_iff, lemma_congruent_small, lemma_coprime_divisors,
    lemma_coprime_product, lemma_coprime_symmetric, lemma_divides_combination,
    lemma_divides_multiple, lemma_multiple_divides,
};
use crate::bignum::{big_add, big_div, big_from_u128, big_mul, big_rem, big_to_u128, inv_ref};
use crate::modular::is_inverse;
use crate::radix_spec::{
    all_positive, digits_fit, lemma_product_positive, lemma_product_push, seq_product,
};

verus! {

/// No two of the moduli `ps` have a common divisor above 1.
pub open spec fn pairwise_coprime(ps: Seq<u16>) -> bool {
    forall|i: int, j: int| 0 <= i < j < ps.len() ==> coprime(#[trigger] ps[i] as int, #[trigger] ps[j] as int)
}

/// The residues of `x` modulo each of `ps`.
pub open spec fn residues(ps: Seq<u16>, x: int) -> Seq<u16> {
    Seq::new(ps.len(), |i: int| (x % (ps[i] as int)) as u16)
}

/// `r` is the number below the product of `ps` that leaves, modulo each of
/// them, what the residue in `xs` at its place leaves.
pub open spec fn is_crt_solution(ps: Seq<u16>, xs: Seq<u16>, r: int) -> bool {
    &&& 0 <= r < seq_product(ps)
    &&& forall|i: int| 0 <= i < ps.len() ==> r % (#[trigger] ps[i] as int) == xs[i] % ps[i]
}

/// The product of a sequence is one of its numbers times the product of the
/// others.
pub proof fn lemma_product_remove(ps: Seq<u16>, i: int)
    requires
        0 <= i < ps.len(),
    ensures
        seq_product(ps) == ps[i] * seq_product(ps.remove(i)),
    decreases i,
{
    if i == 0 {
        assert(ps.remove(0) =~= ps.drop_first());
    } else {
        let rest = ps.drop_first();
        lemma_product_remove(rest, i - 1);
        let others = ps.remove(i);
        assert(others.drop_first() =~= rest.remove(i - 1));
        assert(others[0] == ps[0]);
        assert(rest[i - 1] == ps[i]);
        let t = seq_product(rest.remove(i - 1));
        assert(ps[0] * (ps[i] * t) == ps[i] * (ps[0] * t)) by (nonlinear_arith);
    }
}

/// Every positive number of a sequence divides its product.
pub proof fn lemma_element_divides_product(ps: Seq<u16>, i: int)
    requires
        0 <= i < ps.len(),
        ps[i] > 0,
    ensures
        divides(ps[i] as int, seq_product(ps)),
{
    lemma_product_remove(ps, i);
    lemma_multiple_divides(ps[i] as int, seq_product(ps.remove(i)));
}

/// A product of numbers that are each coprime to `p` is coprime to `p`.
pub proof fn lemma_product_coprime(ps: Seq<u16>, p: int)
    requires
        p >= 0,
        forall|i: int| 0 <= i < ps.len() ==> coprime(#[trigger] ps[i] as int, p),
    ensures
        coprime(seq_product(ps), p),
    decreases ps.len(),
{
    if ps.len() == 0 {
        assert forall|d: int| d > 1 && #[trigger] divides(d, 1) implies !divides(d, p) by {
            lemma_small_mod(1, d as nat);
        }
    } else {
        let rest = ps.drop_first();
        assert forall|i: int| 0 <= i < rest.len() implies coprime(#[trigger] rest[i] as int, p) by {
            assert(rest[i] == ps[i + 1]);
        }
        lemma_product_coprime(rest, p);
        assert(coprime(ps[0] as int, p));
        assert(seq_product(rest) >= 0) by {
            lemma_product_nonnegative(rest);
        }
        lemma_coprime_product(ps[0] as int, seq_product(rest), p);
    }
}

/// No product is negative.
pub proof fn lemma_product_nonnegative(ps: Seq<u16>)
    ensures
        seq_product(ps) >= 0,
    decreases ps.len(),
{
    if ps.len() > 0 {
        lemma_product_nonnegative(ps.drop_first());
        assert(ps[0] * seq_product(ps.drop_first()) >= 0) by (nonlinear_arith)
            requires
                ps[0] >= 0,
                seq_product(ps.drop_first()) >= 0,
        ;
    }
}

/// A number that each of pairwise coprime moduli divides is divisible by
/// their product.
pub proof fn lemma_product_divides(ps: Seq<u16>, z: int)
    requires
        all_positive(ps),
        pairwise_coprime(ps),
        forall|i: int| 0 <= i < ps.len() ==> divides(#[trigger] ps[i] as int, z),
    ensures
        divides(seq_product(ps), z),
    decreases ps.len(),
{
    if ps.len() == 0 {
        assert(z % 1 == 0);
    } else {
        let rest = ps.drop_first();
        assert forall|i: int| 0 <= i < rest.len() implies #[trigger] rest[i] > 0 by {
            assert(rest[i] == ps[i + 1]);
        }
        assert forall|i: int, j: int| 0 <= i < j < rest.len() implies coprime(
            #[trigger] rest[i] as int,
            #[trigger] rest[j] as int,
        ) by {
            assert(rest[i] == ps[i + 1] && rest[j] == ps[j + 1]);
        }
        assert forall|i: int| 0 <= i < rest.len() implies divides(#[trigger] rest[i] as int, z) by {
            assert(rest[i] == ps[i + 1]);
        }
        lemma_product_divides(rest, z);
        assert forall|i: int| 0 <= i < rest.len() implies coprime(
            #[trigger] rest[i] as int,
            ps[0] as int,
        ) by {
            assert(rest[i] == ps[i + 1]);
            assert(coprime(ps[0] as int, ps[i + 1] as int));
            lemma_coprime_symmetric(ps[0] as int, ps[i + 1] as int);
        }
        lemma_product_coprime(rest, ps[0] as int);
        lemma_coprime_symmetric(seq_product(rest), ps[0] as int);
        lemma_product_positive(rest);
        assert(ps[0] > 0);
        assert(divides(ps[0] as int, z));
        lemma_coprime_divisors(ps[0] as int, seq_product(rest), z);
    }
}

/// Encoding a number below the product of pairwise coprime moduli as its
/// residues and decoding the residues gives the number back: the number is
/// the only solution that its residues have.
pub proof fn lemma_crt_round_trip(ps: Seq<u16>, x: int, r: int)
    requires
        all_positive(ps),
        pairwise_coprime(ps),
        0 <= x < seq_product(ps),
        is_crt_solution(ps, residues(ps, x), r),
    ensures
        r == x,
{
    assert forall|i: int| 0 <= i < ps.len() implies divides(#[trigger] ps[i] as int, r - x) by {
        let p = ps[i] as int;
        assert(ps[i] > 0);
        lemma_mod_bound(x, p);
        assert(residues(ps, x)[i] == x % p);
        lemma_small_mod((x % p) as nat, p as nat);
        assert(r % p == x % p);
        lemma_congruent_iff(r, x, p);
    }
    lemma_product_divides(ps, r - x);
    lemma_congruent_small(r, x, seq_product(ps));
}

/// Two solutions of the same residues are the same number.
pub proof fn lemma_crt_unique(ps: Seq<u16>, xs: Seq<u16>, r: int, s: int)
    requires
        all_positive(ps),
        pairwise_coprime(ps),
        is_crt_solution(ps, xs, r),
        is_crt_solution(ps, xs, s),
    ensures
        r == s,
{
    assert forall|i: int| 0 <= i < ps.len() implies divides(#[trigger] ps[i] as int, r - s) by {
        assert(ps[i] > 0);
        lemma_congruent_iff(r, s, ps[i] as int);
    }
    lemma_product_divides(ps, r - s);
    lemma_congruent_small(r, s, seq_product(ps));
}

/// The residues of `x` modulo each of the moduli `ps`.
pub fn crt(ps: &[u16], x: u128) -> (xs: Vec<u16>)
    requires
        all_positive(ps@),
    ensures
        xs@ == residues(ps@, x as int),
        digits_fit(xs@, ps@),
{
    let mut xs: Vec<u16> = Vec::with_capacity(ps.len());
    let mut i: usize = 0;
    while i < ps.len()
        invariant
            i <= ps.len(),
            all_positive(ps@),
            xs@.len() == i,
            forall|j: int| 0 <= j < i ==> xs@[j] == (x as int % (#[trigger] ps@[j] as int)) as u16,
            forall|j: int| 0 <= j < i ==> xs@[j] < #[trigger] ps@[j],
        decreases ps.len() - i,
    {
        assert(ps@[i as int] > 0);
        xs.push((x % ps[i] as u128) as u16);
        i += 1;
    }
    assert(xs@ =~= residues(ps@, x as int));
    xs
}

/// The product of the other moduli is positive, coprime to the modulus at `i`,
/// and the quotient of the whole product by that modulus.
pub proof fn lemma_others_coprime(ps: Seq<u16>, i: int)
    requires
        all_positive(ps),
        pairwise_coprime(ps),
        0 <= i < ps.len(),
    ensures
        seq_product(ps.remove(i)) > 0,
        seq_product(ps) == ps[i] * seq_product(ps.remove(i)),
        seq_product(ps) / (ps[i] as int) == seq_product(ps.remove(i)),
        coprime(seq_product(ps.remove(i)), ps[i] as int),
{
    let others = ps.remove(i);
    let p = ps[i] as int;
    assert(ps[i] > 0);
    assert forall|k: int| 0 <= k < others.len() implies #[trigger] others[k] > 0 && coprime(
        others[k] as int,
        p,
    ) by {
        if k < i {
            assert(others[k] == ps[k]);
            assert(coprime(ps[k] as int, ps[i] as int));
        } else {
            assert(others[k] == ps[k + 1]);
            assert(coprime(ps[i] as int, ps[k + 1] as int));
            lemma_coprime_symmetric(ps[i] as int, ps[k + 1] as int);
        }
    }
    lemma_product_positive(others);
    lemma_product_remove(ps, i);
    lemma_product_coprime(others, p);
    lemma_div_multiples_vanish(seq_product(others), p);
}

/// One round of decoding: adding the term of the modulus at `i` settles the
/// residue at `i` and leaves the residues at the other moduli as they were.
pub proof fn lemma_crt_accumulate(ps: Seq<u16>, xs: Seq<u16>, i: int, acc: int, v: int)
    requires
        all_positive(ps),
        pairwise_coprime(ps),
        xs.len() == ps.len(),
        0 <= i < ps.len(),
        forall|j: int| 0 <= j < i ==> acc % (#[trigger] ps[j] as int) == xs[j] % ps[j],
        forall|j: int| i <= j < ps.len() ==> acc % (#[trigger] ps[j] as int) == 0,
        is_inverse(seq_product(ps.remove(i)), ps[i] as int, v),
    ensures
        ({
            let next = (acc + (xs[i] * v) * seq_product(ps.remove(i))) % seq_product(ps);
            &&& 0 <= next < seq_product(ps)
            &&& forall|j: int| 0 <= j <= i ==> next % (#[trigger] ps[j] as int) == xs[j] % ps[j]
            &&& forall|j: int| i < j < ps.len() ==> next % (#[trigger] ps[j] as int) == 0
        }),
{
    let m = seq_product(ps);
    let q = seq_product(ps.remove(i));
    let a = xs[i] as int;
    let t = (a * v) * q;
    let next = (acc + t) % m;
    lemma_product_positive(ps);
    lemma_mod_bound(acc + t, m);
    lemma_others_coprime(ps, i);
    assert forall|j: int| 0 <= j < ps.len() implies next % (#[trigger] ps[j] as int) == (if j
        == i {
        (xs[j] % ps[j]) as int
    } else {
        acc % (ps[j] as int)
    }) by {
        let p = ps[j] as int;
        assert(ps[j] > 0);
        // reducing modulo the product does not change what is left modulo p
        lemma_element_divides_product(ps, j);
        lemma_divides_multiple(p, m);
        assert(m / p > 0) by (nonlinear_arith)
            requires
                m == p * (m / p),
                m > 0,
                p > 0,
        ;
        lemma_mod_mod(acc + t, p, m / p);
        assert(next % p == (acc + t) % p);
        if j == i {
            if p == 1 {
                assert((acc + t) % 1 == 0);
                assert(a % 1 == 0);
            } else {
                assert((q * v) % p == 1);
                assert(t == a * (q * v)) by (nonlinear_arith)
                    requires
                        t == (a * v) * q,
                ;
                vstd::arithmetic::div_mod::lemma_mul_mod_noop_right(a, q * v, p);
                assert(a * 1 == a);
                assert(t % p == a % p);
                vstd::arithmetic::div_mod::lemma_add_mod_noop(acc, t, p);
                vstd::arithmetic::div_mod::lemma_mod_twice(a, p);
            }
        } else {
            let others = ps.remove(i);
            let k = if j < i {
                j
            } else {
                j - 1
            };
            assert(others[k] == ps[j]);
            lemma_element_divides_product(others, k);
            lemma_multiple_divides(p, 0);
            lemma_divides_combination(p, q, a * v, 0, 0);
            assert(q * (a * v) + 0 * 0 == t) by (nonlinear_arith)
                requires
                    t == (a * v) * q,
            ;
            assert(divides(p, t));
            lemma_congruent_iff(acc + t, acc, p);
        }
    }
}

/// The number below the product of the moduli `ps` that leaves the residues
/// `xs`: the sum, modulo that product, of each residue times the product of
/// the other moduli and its inverse.
pub fn crt_inv(ps: &[u16], xs: &[u16]) -> (r: u128)
    requires
        ps@.len() == xs@.len(),
        all_positive(ps@),
        pairwise_coprime(ps@),
        seq_product(ps@) <= u128::MAX,
    ensures
        is_crt_solution(ps@, xs@, r as int),
{
    let mut ret = big_from_u128(0);
    let mut modulus = big_from_u128(1);
    let mut k: usize = 0;
    assert(ps@.take(0) =~= Seq::<u16>::empty());
    while k < ps.len()
        invariant
            k <= ps.len(),
            modulus.value() == seq_product(ps@.take(k as int)),
        decreases ps.len() - k,
    {
        proof {
            assert(ps@.take(k + 1) =~= ps@.take(k as int).push(ps@[k as int]));
            lemma_product_push(ps@.take(k as int), ps@[k as int]);
        }
        modulus = big_mul(&big_from_u128(ps[k] as u128), &modulus);
        proof {
            let x = ps@[k as int] as int;
            let y = seq_product(ps@.take(k as int));
            assert(x * y == y * x) by (nonlinear_arith);
        }
        k += 1;
    }
    assert(ps@.take(ps.len() as int) =~= ps@);
    proof {
        lemma_product_positive(ps@);
    }
    let mut i: usize = 0;
    while i < ps.len()
        invariant
            i <= ps.len(),
            ps@.len() == xs@.len(),
            all_positive(ps@),
            pairwise_coprime(ps@),
            modulus.value() == seq_product(ps@),
            0 <= ret.value() < seq_product(ps@),
            forall|j: int| 0 <= j < i ==> ret.value() % (#[trigger] ps@[j] as int) == xs@[j] % ps@[j],
            forall|j: int| i <= j < ps.len() ==> ret.value() % (#[trigger] ps@[j] as int) == 0,
        decreases ps.len() - i,
    {
        let p = big_from_u128(ps[i] as u128);
        proof {
            assert(ps@[i as int] > 0);
            lemma_others_coprime(ps@, i as int);
        }
        let q = big_div(&modulus, &p);
        let v = inv_ref(&q, &p);
        proof {
            lemma_crt_accumulate(ps@, xs@, i as int, ret.value(), v.value());
            if ps@[i as int] > 1 {
                assert(0 <= v.value());
            }
            assert((xs@[i as int] * v.value()) * q.value() >= 0) by (nonlinear_arith)
                requires
                    xs@[i as int] >= 0,
                    v.value() >= 0,
                    q.value() > 0,
            ;
        }
        let term = big_mul(&big_mul(&big_from_u128(xs[i] as u128), &v), &q);
        ret = big_rem(&big_add(&ret, &term), &modulus);
        i += 1;
    }
    match big_to_u128(&ret) {
        Some(r) => r,
        None => 0,
    }
}

} // verus!
