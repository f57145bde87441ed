//! Small division facts the fixed-point pipeline leans on, stated over
//! mathematical integers.

use vstd::prelude::*;
use vstd::arithmetic::div_mod::{lemma_fundamental_div_mod, lemma_mod_bound};

verus! {

/// If `0 < d` and `a <= b * d` then `a / d <= b`.
pub(crate) proof fn lemma_div_at_most(a: int, b: int, d: int)
    requires
        0 < d,
        a <= b * d,
    ensures
        a / d <= b,
{
    lemma_fundamental_div_mod(a, d);
    lemma_mod_bound(a, d);
    assert(a / d <= b) by (nonlinear_arith)
        requires
            0 < d,
            a <= b * d,
            a == d * (a / d) + a % d,
            0 <= a % d,
    ;
}

/// If `0 < d` and `b * d <= a` then `b <= a / d`.
pub(crate) proof fn lemma_div_at_least(a: int, b: int, d: int)
    requires
        0 < d,
        b * d <= a,
    ensures
        b <= a / d,
{
    lemma_fundamental_div_mod(a, d);
    lemma_mod_bound(a, d);
    assert(b <= a / d) by (nonlinear_arith)
        requires
            0 < d,
            b * d <= a,
            a == d * (a / d) + a % d,
            a % d < d,
    ;
}

/// If `0 < d` and `a < (b + 1) * d` then `a / d <= b`.
pub(crate) proof fn lemma_div_below(a: int, b: int, d: int)
    requires
        0 < d,
        a < (b + 1) * d,
    ensures
        a / d <= b,
{
    lemma_fundamental_div_mod(a, d);
    lemma_mod_bound(a, d);
    assert(a / d <= b) by (nonlinear_arith)
        requires
            0 < d,
            a < (b + 1) * d,
            a == d * (a / d) + a % d,
            0 <= a % d,
    ;
}

/// Fractions with positive denominators compare as their cross products:
/// if `a2 * d1 <= a1 * d2` then `a2 / d2 <= a1 / d1`.
pub(crate) proof fn lemma_div_frac_le(a1: int, d1: int, a2: int, d2: int)
    requires
        0 < d1,
        0 < d2,
        a2 * d1 <= a1 * d2,
    ensures
        a2 / d2 <= a1 / d1,
{
    let q2 = a2 / d2;
    lemma_fundamental_div_mod(a2, d2);
    lemma_mod_bound(a2, d2);
    assert(q2 * d2 <= a2);
    assert(q2 * d1 <= a1) by (nonlinear_arith)
        requires
            0 < d1,
            0 < d2,
            q2 * d2 <= a2,
            a2 * d1 <= a1 * d2,
    ;
    lemma_div_at_least(a1, q2, d1);
}

} // verus!
