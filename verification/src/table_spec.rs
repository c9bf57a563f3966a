use vstd::prelude::*;
use vstd::arithmetic::div_mod::{lemma_mul_mod_noop_left, lemma_small_mod};
use vstd::arithmetic::power::{lemma_pow0, pow};

verus! {

/// Whether `m` is one of the thirty prime moduli that have tables.
pub open spec fn is_table_modulus(m: int) -> bool {
    m == 2 || m == 3 || m == 5 || m == 7 || m == 11 || m == 13 || m == 17 || m == 19 || m == 23
        || m == 29 || m == 31 || m == 37 || m == 41 || m == 43 || m == 47 || m == 53 || m == 59
        || m == 61 || m == 67 || m == 71 || m == 73 || m == 79 || m == 83 || m == 89 || m == 97
        || m == 101 || m == 103 || m == 107 || m == 109 || m == 113
}

/// The generator of the multiplicative group modulo `m` whose powers the tables
/// list: 1 for the modulus 2, and the primitive root paired with `m` otherwise.
pub open spec fn table_root(m: int) -> int {
    if m == 2 {
        1
    } else if m == 7 || m == 17 || m == 31 || m == 43 || m == 79 || m == 89 || m == 113 {
        3
    } else if m == 23 || m == 47 || m == 73 || m == 97 || m == 103 {
        5
    } else if m == 41 || m == 109 {
        6
    } else if m == 71 {
        7
    } else {
        2
    }
}

/// `t` lists the powers of `g` modulo `m`: `t[i]` is `g^i mod m` for every
/// exponent `i` below `m`.
pub open spec fn is_exp_table(t: Seq<u16>, g: int, m: int) -> bool {
    &&& t.len() == m
    &&& forall|i: int| 0 <= i < m ==> #[trigger] t[i] == pow(g, i as nat) % m
}

/// `t` lists discrete logarithms to the base `g` modulo `m`: for every nonzero
/// residue `x`, `t[x]` is an exponent below `m - 1` with `g^t[x] mod m == x`.
/// The entry for 0, which has no logarithm, is 0.
pub open spec fn is_dlog_table(t: Seq<u16>, g: int, m: int) -> bool {
    &&& t.len() == m
    &&& t[0] == 0
    &&& forall|x: int| 0 < x < m ==> (#[trigger] t[x]) < m - 1 && pow(g, t[x] as nat) % m == x
}

/// Row `i` of a pair of tables agrees with the row before it and with the other
/// table: the power is `g` times the power before it, and the logarithm of `i`
/// leads back to `i`.
pub open spec fn row_holds(e: Seq<u16>, d: Seq<u16>, g: int, m: int, i: int) -> bool {
    &&& e[i] == (e[i - 1] * g) % m
    &&& d[i] < m - 1
    &&& e[d[i] as int] == i
}

/// Rows `lo + 1 ..= hi` of a pair of tables all hold.
pub open spec fn rows_hold(e: Seq<u16>, d: Seq<u16>, g: int, m: int, lo: int, hi: int) -> bool
    decreases hi - lo,
{
    if hi <= lo {
        true
    } else {
        row_holds(e, d, g, m, hi) && rows_hold(e, d, g, m, lo, hi - 1)
    }
}

proof fn lemma_row_at(e: Seq<u16>, d: Seq<u16>, g: int, m: int, lo: int, hi: int, i: int)
    requires
        rows_hold(e, d, g, m, lo, hi),
        lo < i <= hi,
    ensures
        row_holds(e, d, g, m, i),
    decreases hi - lo,
{
    if i < hi {
        lemma_row_at(e, d, g, m, lo, hi - 1, i);
    }
}

proof fn lemma_power_at(e: Seq<u16>, d: Seq<u16>, g: int, m: int, i: int)
    requires
        m >= 2,
        e.len() == m,
        e[0] == 1,
        forall|j: int| 0 < j < m ==> #[trigger] row_holds(e, d, g, m, j),
        0 <= i < m,
    ensures
        e[i] == pow(g, i as nat) % m,
    decreases i,
{
    if i == 0 {
        lemma_pow0(g);
        lemma_small_mod(1, m as nat);
    } else {
        lemma_power_at(e, d, g, m, i - 1);
        assert(row_holds(e, d, g, m, i));
        let prev = pow(g, (i - 1) as nat);
        assert(pow(g, i as nat) == g * prev) by {
            reveal(pow);
        }
        assert(g * prev == prev * g) by (nonlinear_arith);
        lemma_mul_mod_noop_left(prev, g, m);
    }
}

/// A pair of tables whose rows all hold, checked in two runs of rows, lists the
/// powers of `g` and their logarithms.
pub proof fn lemma_tables_from_rows(e: Seq<u16>, d: Seq<u16>, g: int, m: int)
    requires
        2 <= m <= 129,
        e.len() == m,
        d.len() == m,
        e[0] == 1,
        d[0] == 0,
        rows_hold(e, d, g, m, 0, if m - 1 < 64 { m - 1 } else { 64 }),
        rows_hold(e, d, g, m, 64, m - 1),
    ensures
        is_exp_table(e, g, m),
        is_dlog_table(d, g, m),
{
    assert forall|j: int| 0 < j < m implies #[trigger] row_holds(e, d, g, m, j) by {
        if j <= 64 {
            lemma_row_at(e, d, g, m, 0, if m - 1 < 64 { m - 1 } else { 64 }, j);
        } else {
            lemma_row_at(e, d, g, m, 64, m - 1, j);
        }
    }
    assert forall|i: int| 0 <= i < m implies #[trigger] e[i] == pow(g, i as nat) % m by {
        lemma_power_at(e, d, g, m, i);
    }
    assert forall|x: int| 0 < x < m implies (#[trigger] d[x]) < m - 1 && pow(g, d[x] as nat) % m
        == x by {
        assert(row_holds(e, d, g, m, x));
        assert(e[d[x] as int] == pow(g, d[x] as nat) % m);
    }
}

} // verus!
