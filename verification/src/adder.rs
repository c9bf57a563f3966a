use vstd::prelude::*;
use vstd::arithmetic::div_mod::{lemma_fundamental_div_mod_converse, lemma_small_mod};
use vstd::arithmetic::power::{lemma_pow0, pow};
use vstd::slice::slice_to_vec;
use crate::radix_spec::{
    base_q_value, digits_below, lemma_base_q_round_trip, lemma_natural_short, lemma_padded_len,
    natural_digits, padded_digits, uniform,
};

verus! {

/// `zs` is the sum of `xs` and `ys` in base `q`, in as many digits as the
/// longer of the two has: a carry out of the last digit is dropped.
pub open spec fn is_base_q_sum(zs: Seq<u16>, xs: Seq<u16>, ys: Seq<u16>, q: int) -> bool {
    &&& zs.len() == if xs.len() >= ys.len() {
        xs.len()
    } else {
        ys.len()
    }
    &&& digits_below(zs, q)
    &&& base_q_value(zs, q) == (base_q_value(xs, q) + base_q_value(ys, q)) % pow(q, zs.len())
}

/// One more digit at the end adds that digit times the weight of its position.
pub proof fn lemma_value_take_step(s: Seq<u16>, q: int, i: int)
    requires
        0 <= i < s.len(),
    ensures
        base_q_value(s.take(i + 1), q) == base_q_value(s.take(i), q) + pow(q, i as nat) * s[i],
    decreases i,
{
    let t = s.take(i + 1);
    if i == 0 {
        assert(t.drop_first() =~= Seq::<u16>::empty());
        assert(s.take(0) =~= Seq::<u16>::empty());
        assert(base_q_value(t, q) == t[0] + q * base_q_value(t.drop_first(), q));
        lemma_pow0(q);
    } else {
        let r = s.drop_first();
        assert(t.drop_first() =~= r.take(i));
        assert(s.take(i).drop_first() =~= r.take(i - 1));
        lemma_value_take_step(r, q, i - 1);
        assert(pow(q, i as nat) == q * pow(q, (i - 1) as nat)) by {
            reveal(pow);
        }
        let a = base_q_value(r.take(i - 1), q);
        let w = pow(q, (i - 1) as nat);
        let d = s[i] as int;
        assert(r[i - 1] == s[i]);
        assert(q * (a + w * d) == q * a + (q * w) * d) by (nonlinear_arith);
    }
}

/// The number that digits denote is the number of the first `i` digits, plus
/// the number of the others times the weight of position `i`.
pub proof fn lemma_value_split(s: Seq<u16>, q: int, i: int)
    requires
        0 <= i <= s.len(),
    ensures
        base_q_value(s, q) == base_q_value(s.take(i), q) + pow(q, i as nat) * base_q_value(
            s.skip(i),
            q,
        ),
    decreases s.len() - i,
{
    if i == s.len() {
        assert(s.take(i) =~= s);
        assert(s.skip(i) =~= Seq::<u16>::empty());
        assert(pow(q, i as nat) * 0 == 0) by (nonlinear_arith);
    } else {
        lemma_value_split(s, q, i + 1);
        lemma_value_take_step(s, q, i);
        let rest = s.skip(i);
        assert(rest.drop_first() =~= s.skip(i + 1));
        assert(rest[0] == s[i]);
        assert(pow(q, (i + 1) as nat) == q * pow(q, i as nat)) by {
            reveal(pow);
        }
        let w = pow(q, i as nat);
        let v = base_q_value(s.skip(i + 1), q);
        let d = s[i] as int;
        assert(w * (d + q * v) == w * d + (q * w) * v) by (nonlinear_arith);
    }
}

/// Digits below `q` denote a number below `q` to the power of their count.
pub proof fn lemma_value_bound(s: Seq<u16>, q: int)
    requires
        digits_below(s, q),
    ensures
        0 <= base_q_value(s, q) < pow(q, s.len()),
    decreases s.len(),
{
    if s.len() == 0 {
        lemma_pow0(q);
    } else {
        let r = s.drop_first();
        assert forall|i: int| 0 <= i < r.len() implies #[trigger] r[i] < q by {
            assert(r[i] == s[i + 1]);
        }
        lemma_value_bound(r, q);
        assert(s[0] < q);
        assert(pow(q, s.len()) == q * pow(q, r.len())) by {
            reveal(pow);
        }
        let v = base_q_value(r, q);
        let w = pow(q, r.len());
        assert(0 <= s[0] + q * v < q * w) by (nonlinear_arith)
            requires
                0 <= s[0] < q,
                0 <= v < w,
        ;
    }
}

/// Adds the digits `ys` onto the digits `xs`, both in base `q` and least
/// significant first, with carries. `xs` keeps its length: a carry out of its
/// last digit is dropped.
pub fn base_q_add_eq(xs: &mut [u16], ys: &[u16], q: u16)
    requires
        old(xs)@.len() >= ys@.len(),
        digits_below(old(xs)@, q as int),
        digits_below(ys@, q as int),
    ensures
        is_base_q_sum(final(xs)@, old(xs)@, ys@, q as int),
{
    let ghost x0 = xs@;
    let ghost y0 = ys@;
    let ghost b = q as int;
    let n = xs.len();
    let mut c: u32 = 0;
    let mut i: usize = 0;
    proof {
        assert(x0.take(0) =~= y0.take(0));
        lemma_pow0(b);
    }
    while i < ys.len()
        invariant
            i <= ys.len() <= n,
            xs@.len() == n,
            x0.len() == n,
            y0 == ys@,
            b == q,
            c <= 1,
            digits_below(x0, b),
            digits_below(y0, b),
            forall|j: int| i <= j < n ==> xs@[j] == x0[j],
            forall|j: int| 0 <= j < i ==> xs@[j] < b,
            base_q_value(xs@.take(i as int), b) + c * pow(b, i as nat) == base_q_value(
                x0.take(i as int),
                b,
            ) + base_q_value(y0.take(i as int), b),
        decreases ys.len() - i,
    {
        let ghost before = xs@;
        let ghost c_in = c as int;
        assert(xs@[i as int] == x0[i as int]);
        assert(x0[i as int] < b && y0[i as int] < b);
        let mut s: u32 = xs[i] as u32 + ys[i] as u32 + c;
        c = 0;
        if s >= q as u32 {
            s -= q as u32;
            c = 1;
        }
        xs[i] = s as u16;
        proof {
            assert(xs@.take(i as int) =~= before.take(i as int));
            lemma_value_take_step(xs@, b, i as int);
            lemma_value_take_step(x0, b, i as int);
            lemma_value_take_step(y0, b, i as int);
            assert(pow(b, (i + 1) as nat) == b * pow(b, i as nat)) by {
                reveal(pow);
            }
            let w = pow(b, i as nat);
            let xd = x0[i as int] as int;
            let yd = y0[i as int] as int;
            assert(s + c * b == xd + yd + c_in);
            assert(w * s + c * (b * w) == w * xd + w * yd + c_in * w) by (nonlinear_arith)
                requires
                    s + c * b == xd + yd + c_in,
            ;
        }
        i += 1;
    }
    let ghost yv = base_q_value(y0, b);
    proof {
        assert(y0.take(i as int) =~= y0);
    }
    let mut settled: bool = false;
    while i < n && !settled
        invariant
            i <= n,
            xs@.len() == n,
            x0.len() == n,
            b == q,
            c <= 1,
            yv == base_q_value(y0, b),
            digits_below(x0, b),
            forall|j: int| i <= j < n ==> xs@[j] == x0[j],
            forall|j: int| 0 <= j < i ==> xs@[j] < b,
            base_q_value(xs@.take(i as int), b) + (if settled {
                0
            } else {
                c * pow(b, i as nat)
            }) == base_q_value(x0.take(i as int), b) + yv,
        decreases n - i, if settled { 0int } else { 1int },
    {
        let ghost before = xs@;
        assert(xs@[i as int] == x0[i as int]);
        assert(x0[i as int] < b);
        let s: u32 = xs[i] as u32 + c;
        if s >= q as u32 {
            xs[i] = (s - q as u32) as u16;
        } else {
            xs[i] = s as u16;
            settled = true;
        }
        proof {
            assert(xs@.take(i as int) =~= before.take(i as int));
            lemma_value_take_step(xs@, b, i as int);
            lemma_value_take_step(x0, b, i as int);
            assert(pow(b, (i + 1) as nat) == b * pow(b, i as nat)) by {
                reveal(pow);
            }
            let w = pow(b, i as nat);
            let xd = x0[i as int] as int;
            let zd = xs@[i as int] as int;
            if settled {
                assert(w * zd == w * xd + c * w) by (nonlinear_arith)
                    requires
                        zd == xd + c,
                ;
            } else {
                assert(c == 1);
                assert(w * zd + c * (b * w) == w * xd + c * w) by (nonlinear_arith)
                    requires
                        zd + b == xd + c,
                        c == 1,
                ;
            }
        }
        i += 1;
    }
    proof {
        let z = xs@;
        assert(digits_below(z, b)) by {
            assert forall|j: int| 0 <= j < z.len() implies #[trigger] z[j] < b by {
                if j >= i {
                    assert(z[j] == x0[j]);
                }
            }
        }
        lemma_value_bound(z, b);
        let total = base_q_value(x0, b) + yv;
        let top = pow(b, n as nat);
        if settled || i < n {
            assert(z.skip(i as int) =~= x0.skip(i as int));
            lemma_value_split(z, b, i as int);
            lemma_value_split(x0, b, i as int);
            assert(base_q_value(z, b) == total);
            lemma_small_mod(total as nat, top as nat);
        } else {
            assert(z.take(n as int) =~= z);
            assert(x0.take(n as int) =~= x0);
            assert(total == top * (c as int) + base_q_value(z, b)) by (nonlinear_arith)
                requires
                    base_q_value(z, b) + c * top == total,
            ;
            lemma_fundamental_div_mod_converse(total, top, c as int, base_q_value(z, b));
        }
    }
}

/// Adding, in base `q`, the natural digits of `y` onto the `n` digits of `x`
/// gives digits that denote the sum of `x` and `y` modulo `q` to the power
/// `n`, for numbers below that power; there are `n` of them, unless `n` is 0.
pub proof fn lemma_sum_of_encodings(x: int, y: int, q: u16, n: nat, more: nat, zs: Seq<u16>)
    requires
        q > 0,
        more >= n,
        0 <= x < pow(q as int, n),
        0 <= y < pow(q as int, n),
        is_base_q_sum(
            zs,
            padded_digits(x, uniform(q, n)),
            natural_digits(y, uniform(q, more)),
            q as int,
        ),
    ensures
        n >= 1 ==> zs.len() == n,
        base_q_value(zs, q as int) == (x + y) % pow(q as int, n),
{
    lemma_padded_len(x, uniform(q, n));
    lemma_base_q_round_trip(x, q, n);
    if n >= 1 {
        lemma_natural_short(y, q, n, more);
        lemma_base_q_round_trip(y, q, n);
    } else {
        // both numbers are 0, and so is every digit
        lemma_pow0(q as int);
        lemma_value_bound(zs, q as int);
        let ys = natural_digits(y, uniform(q, more));
        if more > 0 {
            assert(uniform(q, more)[0] == q);
            assert(ys =~= seq![0u16]);
            assert(ys.drop_first() =~= Seq::<u16>::empty());
            assert(base_q_value(ys.drop_first(), q as int) == 0);
            assert(base_q_value(ys, q as int) == ys[0] + q * base_q_value(ys.drop_first(), q as int));
        } else {
            assert(ys =~= Seq::<u16>::empty());
        }
        assert(base_q_value(ys, q as int) == 0);
        assert(0int % pow(q as int, zs.len()) == 0) by {
            lemma_small_mod(0, pow(q as int, zs.len()) as nat);
        }
    }
}

/// The sum of the digits `xs` and `ys`, both in base `q` and least significant
/// first, in as many digits as the longer of the two has.
pub fn base_q_add(xs: &[u16], ys: &[u16], q: u16) -> (zs: Vec<u16>)
    requires
        digits_below(xs@, q as int),
        digits_below(ys@, q as int),
    ensures
        is_base_q_sum(zs@, xs@, ys@, q as int),
{
    if ys.len() > xs.len() {
        let mut zs = slice_to_vec(ys);
        base_q_add_eq(zs.as_mut_slice(), xs, q);
        zs
    } else {
        let mut zs = slice_to_vec(xs);
        base_q_add_eq(zs.as_mut_slice(), ys, q);
        zs
    }
}

} // verus!
