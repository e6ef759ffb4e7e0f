use vstd::prelude::*;
use vstd::arithmetic::div_mod::{
    lemma_add_mod_noop, lemma_fundamental_div_mod, lemma_fundamental_div_mod_converse_mod,
    lemma_mod_self_0, lemma_small_mod,
};

verus! {

/// Stepping one past `a` modulo `m` wraps to zero exactly at the last residue.
pub proof fn lemma_mod_succ(a: int, m: int)
    requires
        m > 0,
    ensures
        0 <= a % m < m,
        (a + 1) % m == if a % m + 1 == m { 0 } else { a % m + 1 },
{
    lemma_add_mod_noop(a, 1, m);
    if m == 1 {
        assert(a % 1 == 0);
        assert((a + 1) % 1 == 0);
    } else {
        lemma_small_mod(1, m as nat);
        if a % m + 1 == m {
            lemma_mod_self_0(m);
        } else {
            lemma_small_mod((a % m + 1) as nat, m as nat);
        }
    }
}

/// A residue is the only value in `[0, m)` congruent to `x`.
pub proof fn lemma_mod_unique(x: int, j: int, m: int)
    requires
        m > 0,
        0 <= j < m,
        (x - j) % m == 0,
    ensures
        x % m == j,
{
    lemma_fundamental_div_mod(x - j, m);
    let q = (x - j) / m;
    assert(x == q * m + j) by (nonlinear_arith)
        requires
            x - j == m * q + 0,
    ;
    lemma_fundamental_div_mod_converse_mod(x, m, q, j);
}

/// Shifting by a whole number of turns: `x - x % m + r` has residue `r`.
pub proof fn lemma_mod_realign(x: int, r: int, m: int)
    requires
        m > 0,
        0 <= r < m,
    ensures
        (x - x % m + r) % m == r,
{
    lemma_fundamental_div_mod(x, m);
    let q = x / m;
    assert(x - x % m + r == q * m + r) by (nonlinear_arith)
        requires
            x == m * q + x % m,
    ;
    lemma_fundamental_div_mod_converse_mod(x - x % m + r, m, q, r);
}

} // verus!
