use vstd::prelude::*;
use vstd::arithmetic::div_mod::{
    lemma_fundamental_div_mod, lemma_mod_equivalence, lemma_mod_multiples_basic,
    lemma_mod_pos_bound, lemma_small_mod,
};

verus! {

/// `d` divides `n`.
pub open spec fn divides(d: int, n: int) -> bool {
    n % d == 0
}

/// `a` and `b` have no common divisor above 1.
pub open spec fn coprime(a: int, b: int) -> bool {
    forall|d: int| d > 1 && #[trigger] divides(d, a) ==> !divides(d, b)
}

/// `p` is a prime number.
pub open spec fn is_prime(p: int) -> bool {
    &&& p > 1
    &&& forall|d: int| 1 < d < p ==> !#[trigger] divides(d, p)
}

/// A number that leaves no remainder is its quotient times the divisor.
pub proof fn lemma_divides_multiple(d: int, n: int)
    requires
        d > 0,
        divides(d, n),
    ensures
        n == d * (n / d),
{
    lemma_fundamental_div_mod(n, d);
}

/// Every multiple of `d` is divisible by `d`.
pub proof fn lemma_multiple_divides(d: int, k: int)
    requires
        d > 0,
    ensures
        divides(d, d * k),
        divides(d, k * d),
{
    lemma_mod_multiples_basic(k, d);
    assert(d * k == k * d) by (nonlinear_arith);
}

/// A divisor of two numbers divides every combination of them.
pub proof fn lemma_divides_combination(d: int, a: int, x: int, b: int, y: int)
    requires
        d > 0,
        divides(d, a),
        divides(d, b),
    ensures
        divides(d, a * x + b * y),
{
    lemma_divides_multiple(d, a);
    lemma_divides_multiple(d, b);
    let k = (a / d) * x + (b / d) * y;
    assert(a * x + b * y == d * k) by (nonlinear_arith)
        requires
            a == d * (a / d),
            b == d * (b / d),
            k == (a / d) * x + (b / d) * y,
    ;
    lemma_multiple_divides(d, k);
}

/// A positive number that is divisible by `d` is at least `d`.
pub proof fn lemma_divisor_bound(d: int, n: int)
    requires
        d > 0,
        n > 0,
        divides(d, n),
    ensures
        d <= n,
{
    if n < d {
        lemma_small_mod(n as nat, d as nat);
    }
}

/// Being coprime does not depend on the order of the two numbers.
pub proof fn lemma_coprime_symmetric(a: int, b: int)
    requires
        coprime(a, b),
    ensures
        coprime(b, a),
{
}

/// Only 1 is coprime to 0, among the numbers that are not negative.
pub proof fn lemma_coprime_zero(a: int)
    requires
        a >= 0,
        coprime(a, 0),
    ensures
        a == 1,
{
    if a == 0 {
        assert(divides(2, 0));
    } else if a > 1 {
        lemma_multiple_divides(a, 1);
        assert(divides(a, a));
        assert(divides(a, 0));
    }
}

/// One step of Euclid's algorithm keeps a pair coprime.
pub proof fn lemma_coprime_step(a: int, b: int)
    requires
        a >= 0,
        b > 0,
        coprime(a, b),
    ensures
        coprime(b, a % b),
{
    assert forall|d: int| d > 1 && #[trigger] divides(d, b) implies !divides(d, a % b) by {
        if divides(d, a % b) {
            lemma_fundamental_div_mod(a, b);
            lemma_divides_combination(d, b, a / b, a % b, 1);
            assert(b * (a / b) + (a % b) * 1 == a);
            assert(divides(d, a));
        }
    }
}

/// Coprime numbers combine to 1: there are `x` and `y` with `a x + b y == 1`.
pub proof fn lemma_bezout(a: int, b: int) -> (r: (int, int))
    requires
        a >= 0,
        b >= 0,
        coprime(a, b),
    ensures
        a * r.0 + b * r.1 == 1,
    decreases b,
{
    if b == 0 {
        lemma_coprime_zero(a);
        (1, 0)
    } else {
        lemma_coprime_step(a, b);
        lemma_mod_pos_bound(a, b);
        let (x, y) = lemma_bezout(b, a % b);
        lemma_fundamental_div_mod(a, b);
        let q = a / b;
        let m = a % b;
        assert(a * y + b * (x - q * y) == 1) by (nonlinear_arith)
            requires
                b * x + m * y == 1,
                a == b * q + m,
        ;
        (y, x - q * y)
    }
}

/// Numbers that combine to 1 are coprime.
pub proof fn lemma_coprime_from_combination(a: int, b: int, x: int, y: int)
    requires
        a * x + b * y == 1,
    ensures
        coprime(a, b),
{
    assert forall|d: int| d > 1 && #[trigger] divides(d, a) implies !divides(d, b) by {
        if divides(d, b) {
            lemma_divides_combination(d, a, x, b, y);
            lemma_small_mod(1, d as nat);
        }
    }
}

/// A number that divides a product and is coprime to one factor divides the
/// other factor.
pub proof fn lemma_coprime_divides_product(m: int, a: int, c: int)
    requires
        m > 0,
        a >= 0,
        coprime(a, m),
        divides(m, a * c),
    ensures
        divides(m, c),
{
    let (x, y) = lemma_bezout(a, m);
    lemma_multiple_divides(m, c);
    lemma_divides_combination(m, a * c, x, m * c, y);
    assert((a * c) * x + (m * c) * y == c) by (nonlinear_arith)
        requires
            a * x + m * y == 1,
    ;
}

/// A product of two numbers coprime to `m` is coprime to `m`.
pub proof fn lemma_coprime_product(a: int, b: int, m: int)
    requires
        a >= 0,
        b >= 0,
        m >= 0,
        coprime(a, m),
        coprime(b, m),
    ensures
        coprime(a * b, m),
{
    let (x, y) = lemma_bezout(a, m);
    let (u, v) = lemma_bezout(b, m);
    let s = x * u;
    let t = (a * x) * v + y * (b * u) + (m * y) * v;
    assert((a * x) * (b * u) + (a * x) * (m * v) + (m * y) * (b * u) + (m * y) * (m * v) == 1)
        by (nonlinear_arith)
        requires
            a * x + m * y == 1,
            b * u + m * v == 1,
    ;
    assert((a * x) * (b * u) == (a * b) * s) by (nonlinear_arith)
        requires
            s == x * u,
    ;
    assert((a * x) * (m * v) + (m * y) * (b * u) + (m * y) * (m * v) == m * t) by (nonlinear_arith)
        requires
            t == (a * x) * v + y * (b * u) + (m * y) * v,
    ;
    lemma_coprime_from_combination(a * b, m, s, t);
}

/// Two different primes are coprime.
pub proof fn lemma_primes_coprime(p: int, q: int)
    requires
        is_prime(p),
        is_prime(q),
        p != q,
    ensures
        coprime(p, q),
{
    assert forall|d: int| d > 1 && #[trigger] divides(d, p) implies !divides(d, q) by {
        if divides(d, q) {
            lemma_divisor_bound(d, p);
            lemma_divisor_bound(d, q);
            assert(d == p);
            assert(d == q);
        }
    }
}

/// If coprime `a` and `b` both divide `z`, so does their product.
pub proof fn lemma_coprime_divisors(a: int, b: int, z: int)
    requires
        a > 0,
        b > 0,
        coprime(a, b),
        divides(a, z),
        divides(b, z),
    ensures
        divides(a * b, z),
{
    lemma_divides_multiple(a, z);
    let t = z / a;
    assert(divides(b, a * t));
    lemma_coprime_divides_product(b, a, t);
    lemma_divides_multiple(b, t);
    let k = t / b;
    assert(z == (a * b) * k) by (nonlinear_arith)
        requires
            z == a * t,
            t == b * k,
    ;
    assert(a * b > 0) by (nonlinear_arith)
        requires
            a > 0,
            b > 0,
    ;
    lemma_multiple_divides(a * b, k);
}

/// `x` and `y` leave the same remainder exactly when `m` divides `x - y`.
pub proof fn lemma_congruent_iff(x: int, y: int, m: int)
    requires
        m > 0,
    ensures
        x % m == y % m <==> divides(m, x - y),
{
    lemma_mod_equivalence(x, y, m);
}

/// Two numbers below `m` that differ by a multiple of `m` are equal.
pub proof fn lemma_congruent_small(x: int, y: int, m: int)
    requires
        m > 0,
        0 <= x < m,
        0 <= y < m,
        divides(m, x - y),
    ensures
        x == y,
{
    lemma_congruent_iff(x, y, m);
    lemma_small_mod(x as nat, m as nat);
    lemma_small_mod(y as nat, m as nat);
}

} // verus!
