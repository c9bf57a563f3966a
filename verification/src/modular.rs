use vstd::prelude::*;
use vstd::arithmetic::div_mod::{
    lemma_fundamental_div_mod, lemma_mod_bound, lemma_mul_mod_noop_left, lemma_mul_mod_noop_right,
    lemma_small_mod,
};
use vstd::arithmetic::power::{
    lemma_pow0, lemma_pow1, lemma_pow_adds, lemma_pow_mod_noop, lemma_pow_multiplies, pow,
};
use crate::arith::{
    coprime, divides, lemma_congruent_iff, lemma_coprime_step, lemma_coprime_symmetric,
    lemma_coprime_zero,
    lemma_divides_combination, lemma_multiple_divides,
};

verus! {

/// The absolute value of `x`.
pub open spec fn abs(x: int) -> int {
    if x < 0 {
        -x
    } else {
        x
    }
}

/// `r` is the inverse of `a` modulo `m` as the extended algorithm of Euclid
/// gives it: the number below `m` whose product with `a` leaves 1, and 1 for
/// the modulus 1.
pub open spec fn is_inverse(a: int, m: int, r: int) -> bool {
    if m == 1 {
        r == 1
    } else {
        0 <= r < m && (a * r) % m == 1
    }
}

/// What the extended algorithm of Euclid keeps true while it runs on `a0` and
/// `b0`: `a` and `b` are the current pair of remainders, `x1` and `x0` the
/// multiples of `a0` that they are congruent to modulo `b0`.
pub open spec fn euclid_state(a0: int, b0: int, a: int, b: int, x0: int, x1: int) -> bool {
    &&& 0 <= a
    &&& 0 <= b
    &&& 0 < b0
    &&& coprime(a, b)
    &&& divides(b0, a - x1 * a0)
    &&& divides(b0, b - x0 * a0)
    &&& (x0 >= 0 && x1 <= 0) || (x0 <= 0 && x1 >= 0)
    &&& a * abs(x0) + b * abs(x1) == b0
    &&& (x0 == 0 && x1 == 1 && a == a0 && b == b0) || (b < a && a * abs(x1) <= b0)
}

/// The algorithm starts in a state that it can keep.
pub proof fn lemma_euclid_start(a0: int, b0: int)
    requires
        0 <= a0,
        0 < b0,
        coprime(a0, b0),
    ensures
        euclid_state(a0, b0, a0, b0, 0, 1),
{
    lemma_multiple_divides(b0, 0);
    lemma_multiple_divides(b0, 1);
    assert(a0 - 1 * a0 == 0);
    assert(b0 - 0 * a0 == b0);
    assert(b0 * 0 == 0);
    assert(b0 * 1 == b0);
    assert(a0 * abs(0) + b0 * abs(1) == b0) by (nonlinear_arith);
}

/// One round of the algorithm leads from a state to the next, and none of the
/// numbers it computes on the way exceeds `b0` in absolute value.
pub proof fn lemma_euclid_step(a0: int, b0: int, a: int, b: int, x0: int, x1: int)
    requires
        euclid_state(a0, b0, a, b, x0, x1),
        a > 1,
    ensures
        b > 0,
        0 <= a / b <= a,
        abs((a / b) * x0) <= b0,
        abs(x1) <= b0,
        abs(x1 - (a / b) * x0) <= b0,
        euclid_state(a0, b0, b, a % b, x1 - (a / b) * x0, x0),
{
    if b == 0 {
        lemma_coprime_zero(a);
    }
    let q = a / b;
    let r = a % b;
    let y = x1 - q * x0;
    lemma_fundamental_div_mod(a, b);
    lemma_mod_bound(a, b);
    lemma_coprime_step(a, b);
    assert(0 <= q <= a) by (nonlinear_arith)
        requires
            a == b * q + r,
            0 <= r < b,
            a >= 0,
    ;
    // the congruences
    lemma_divides_combination(b0, a - x1 * a0, 1, b - x0 * a0, -q);
    assert((a - x1 * a0) * 1 + (b - x0 * a0) * (-q) == r - y * a0) by (nonlinear_arith)
        requires
            a == b * q + r,
            y == x1 - q * x0,
    ;
    // the signs and the sizes
    assert(abs(y) == abs(x1) + q * abs(x0) && abs(q * x0) == q * abs(x0)) by (nonlinear_arith)
        requires
            y == x1 - q * x0,
            q >= 0,
            (x0 >= 0 && x1 <= 0) || (x0 <= 0 && x1 >= 0),
    ;
    assert((y >= 0 && x0 <= 0) || (y <= 0 && x0 >= 0)) by (nonlinear_arith)
        requires
            y == x1 - q * x0,
            q >= 0,
            (x0 >= 0 && x1 <= 0) || (x0 <= 0 && x1 >= 0),
    ;
    assert(b * abs(y) + r * abs(x0) == b0) by (nonlinear_arith)
        requires
            abs(y) == abs(x1) + q * abs(x0),
            a == b * q + r,
            a * abs(x0) + b * abs(x1) == b0,
    ;
    assert(abs(y) <= b0 && q * abs(x0) <= b0 && abs(x1) <= b0) by (nonlinear_arith)
        requires
            b * abs(y) + r * abs(x0) == b0,
            abs(y) == abs(x1) + q * abs(x0),
            b >= 1,
            r >= 0,
            q >= 0,
            abs(x0) >= 0,
            abs(x1) >= 0,
    ;
    assert(b * abs(x0) <= b0) by (nonlinear_arith)
        requires
            a * abs(x0) + b * abs(x1) == b0,
            x0 == 0 || b < a,
            b >= 1,
            abs(x0) >= 0,
            abs(x1) >= 0,
            b0 > 0,
    ;
}

/// When the algorithm stops, the multiple it holds is the inverse, once a
/// negative one is raised by `b0`.
pub proof fn lemma_euclid_end(a0: int, b0: int, a: int, b: int, x0: int, x1: int)
    requires
        euclid_state(a0, b0, a, b, x0, x1),
        a <= 1,
        b0 > 1,
    ensures
        -b0 < x1 < b0,
        is_inverse(a0, b0, if x1 < 0 { x1 + b0 } else { x1 }),
{
    if a == 0 {
        // only the first state has a == 0, and then b0 is coprime to 0
        lemma_coprime_symmetric(a, b);
        lemma_coprime_zero(b);
    }
    assert(a == 1);
    assert(abs(x1) <= b0) by (nonlinear_arith)
        requires
            (x1 == 1 && b0 > 1) || a * abs(x1) <= b0,
            a == 1,
            abs(x1) >= 0,
    ;
    let r = if x1 < 0 {
        x1 + b0
    } else {
        x1
    };
    // b0 divides 1 - x1 * a0, and so 1 - r * a0
    lemma_multiple_divides(b0, a0);
    lemma_divides_combination(b0, 1 - x1 * a0, 1, b0 * a0, -1);
    if x1 < 0 {
        assert((1 - x1 * a0) * 1 + (b0 * a0) * (-1) == 1 - r * a0) by (nonlinear_arith)
            requires
                r == x1 + b0,
        ;
    }
    assert(divides(b0, 1 - r * a0));
    lemma_congruent_iff(1, r * a0, b0);
    lemma_small_mod(1, b0 as nat);
    assert(r * a0 == a0 * r) by (nonlinear_arith);
    if abs(x1) == b0 {
        // then r is 0 or b0, and b0 would divide 1
        lemma_multiple_divides(b0, a0);
        lemma_multiple_divides(b0, 0);
        assert(r * a0 == b0 * a0 || r * a0 == b0 * 0) by (nonlinear_arith)
            requires
                r == 0 || r == b0,
        ;
        assert(false);
    }
}

/// The inverse of `a` modulo `m`, by the extended algorithm of Euclid.
pub fn inv(a: i128, m: i128) -> (r: i128)
    requires
        0 <= a,
        0 < m,
        coprime(a as int, m as int),
    ensures
        is_inverse(a as int, m as int, r as int),
{
    let mut a_cur: i128 = a;
    let mut b_cur: i128 = m;
    let mut x0: i128 = 0;
    let mut x1: i128 = 1;
    if m == 1 {
        return 1;
    }
    proof {
        lemma_euclid_start(a as int, m as int);
    }
    while a_cur > 1
        invariant
            euclid_state(a as int, m as int, a_cur as int, b_cur as int, x0 as int, x1 as int),
            m > 1,
        decreases a_cur + b_cur, b_cur,
    {
        proof {
            lemma_euclid_step(a as int, m as int, a_cur as int, b_cur as int, x0 as int, x1 as int);
            lemma_mod_bound(a_cur as int, b_cur as int);
            lemma_fundamental_div_mod(a_cur as int, b_cur as int);
        }
        let q = a_cur / b_cur;
        let r = a_cur % b_cur;
        a_cur = b_cur;
        b_cur = r;
        let y = x1 - q * x0;
        x1 = x0;
        x0 = y;
    }
    proof {
        lemma_euclid_end(a as int, m as int, a_cur as int, b_cur as int, x0 as int, x1 as int);
    }
    if x1 < 0 {
        x1 = x1 + m;
    }
    x1
}

/// What modular exponentiation gives: 1 for the exponent 0, whatever the
/// modulus, and the power reduced modulo `m` otherwise.
pub open spec fn powm_spec(base: int, e: nat, m: int) -> int {
    if e == 0 {
        1
    } else {
        pow(base, e) % m
    }
}

proof fn lemma_powm_square(z: int, x: int, n: nat, m: int)
    requires
        m > 0,
        n % 2 == 0,
    ensures
        (z * pow((x * x) % m, n / 2)) % m == (z * pow(x, n)) % m,
{
    let h = n / 2;
    lemma_pow_mod_noop(x * x, h, m);
    lemma_pow1(x);
    lemma_pow_adds(x, 1, 1);
    assert(pow(x, 2) == x * x);
    lemma_pow_multiplies(x, 2, h);
    assert(pow(x * x, h) == pow(x, n)) by {
        assert(2 * h == n);
    }
    lemma_mul_mod_noop_right(z, pow((x * x) % m, h), m);
    lemma_mul_mod_noop_right(z, pow(x * x, h), m);
}

proof fn lemma_powm_multiply(z: int, x: int, n: nat, m: int)
    requires
        m > 0,
        n > 0,
    ensures
        (((x * z) % m) * pow(x, (n - 1) as nat)) % m == (z * pow(x, n)) % m,
{
    let rest = pow(x, (n - 1) as nat);
    assert(pow(x, n) == x * rest) by {
        reveal(pow);
    }
    lemma_mul_mod_noop_left(x * z, rest, m);
    assert((x * z) * rest == z * (x * rest)) by (nonlinear_arith);
}

/// `inp` to the power `pow` modulo `modulus`, by squaring and multiplying.
pub fn powm(inp: u16, pow: u16, modulus: u16) -> (r: u16)
    requires
        pow == 0 || modulus > 0,
    ensures
        r == powm_spec(inp as int, pow as nat, modulus as int),
{
    let m = modulus as u32;
    let mut x: u32 = inp as u32;
    let mut z: u32 = 1;
    let mut n: u16 = pow;
    proof {
        assert(1 * vstd::arithmetic::power::pow(inp as int, pow as nat)
            == vstd::arithmetic::power::pow(inp as int, pow as nat));
    }
    while n > 0
        invariant
            m == modulus,
            pow == 0 || m > 0,
            n <= pow,
            x <= 65535,
            z <= 65535,
            pow == 0 ==> z == 1,
            n == 0 && pow > 0 ==> z < m,
            pow > 0 ==> (z * vstd::arithmetic::power::pow(x as int, n as nat)) % (m as int)
                == vstd::arithmetic::power::pow(inp as int, pow as nat) % (m as int),
        decreases n,
    {
        if n % 2 == 0 {
            proof {
                lemma_powm_square(z as int, x as int, n as nat, m as int);
                assert(x * x <= 65535 * 65535) by (nonlinear_arith)
                    requires
                        x <= 65535,
                ;
            }
            x = (x * x) % m;
            n = n / 2;
        } else {
            proof {
                lemma_powm_multiply(z as int, x as int, n as nat, m as int);
                assert(x * z <= 65535 * 65535) by (nonlinear_arith)
                    requires
                        x <= 65535,
                        z <= 65535,
                ;
            }
            z = (x * z) % m;
            n = n - 1;
        }
    }
    proof {
        if pow > 0 {
            lemma_pow0(x as int);
            let one = vstd::arithmetic::power::pow(x as int, 0);
            assert(z * one == z) by (nonlinear_arith)
                requires
                    one == 1,
            ;
            lemma_small_mod(z as nat, m as nat);
        }
    }
    z as u16
}

} // verus!
