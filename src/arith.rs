//! Integer division rounded to the nearest integer, as a float `round` does.
use vstd::arithmetic::div_mod::{lemma_fundamental_div_mod, lemma_mod_pos_bound};
use vstd::prelude::*;

verus! {

/// Bound on the operands of `div_round`: products of two in-range
/// quantities of this crate stay far below it.
pub const ROUND_LIMIT: i128 = 0x100_0000_0000_0000_0000_0000_0000_0000;

/// The integer nearest to `n / d` for `d > 0`; a half is rounded away from zero.
#[verifier::opaque]
pub open spec fn round_div(n: int, d: int) -> int {
    if n >= 0 {
        (2 * n + d) / (2 * d)
    } else {
        -((2 * -n + d) / (2 * d))
    }
}

/// `round_div(n, d)` lies within half a step of `n / d`; at an exact half it
/// is the one farther from zero.
pub proof fn lemma_round_div(n: int, d: int)
    requires
        d > 0,
    ensures
        n >= 0 ==> 2 * n - d < 2 * d * round_div(n, d) <= 2 * n + d,
        n < 0 ==> 2 * n - d <= 2 * d * round_div(n, d) < 2 * n + d,
{
    reveal(round_div);
    if n >= 0 {
        let m = 2 * n + d;
        lemma_fundamental_div_mod(m, 2 * d);
        lemma_mod_pos_bound(m, 2 * d);
    } else {
        let m = 2 * -n + d;
        let q = m / (2 * d);
        lemma_fundamental_div_mod(m, 2 * d);
        lemma_mod_pos_bound(m, 2 * d);
        assert(2 * d * (-q) == -(2 * d * q)) by (nonlinear_arith);
    }
}

/// Rounding keeps a quotient between two integers that bound it exactly.
pub proof fn lemma_round_div_between(n: int, d: int, a: int, b: int)
    requires
        d > 0,
        a * d <= n <= b * d,
    ensures
        a <= round_div(n, d) <= b,
{
    lemma_round_div(n, d);
    let r = round_div(n, d);
    assert(2 * d * r >= 2 * n - d);
    assert(2 * d * r <= 2 * n + d);
    assert(a <= r) by (nonlinear_arith)
        requires
            d > 0,
            2 * d * r >= 2 * n - d,
            a * d <= n,
    ;
    assert(r <= b) by (nonlinear_arith)
        requires
            d > 0,
            2 * d * r <= 2 * n + d,
            n <= b * d,
    ;
}

/// Dividing an exact multiple rounds to the exact quotient.
pub proof fn lemma_round_div_exact(a: int, d: int)
    requires
        d > 0,
    ensures
        round_div(a * d, d) == a,
{
    lemma_round_div_between(a * d, d, a, a);
}

/// Rounds `n / d` to the nearest integer, halves away from zero.
pub fn div_round(n: i128, d: i128) -> (r: i128)
    requires
        0 < d <= ROUND_LIMIT,
        -ROUND_LIMIT <= n <= ROUND_LIMIT,
    ensures
        r == round_div(n as int, d as int),
{
    proof {
        reveal(round_div);
    }
    if n >= 0 {
        (2 * n + d) / (2 * d)
    } else {
        -((2 * (-n) + d) / (2 * d))
    }
}

} // verus!
