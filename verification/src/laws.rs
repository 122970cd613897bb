//! Cross-operation laws of the pool arithmetic, proved once and for all.

use vstd::prelude::*;

verus! {

/// Redeeming `liq` shares out of `s + liq` outstanding against a balance of
/// `r + a` pays out at most `a`, provided `liq` was credited as at most the
/// proportional estimate `a * s / r`.
proof fn lemma_payout_bound(a: int, s: int, r: int, liq: int)
    requires
        0 <= a,
        0 < r,
        0 < s,
        0 <= liq,
        liq <= a * s / r,
    ensures
        liq * (r + a) / (s + liq) <= a,
{
    assert(liq * r <= a * s) by (nonlinear_arith)
        requires
            0 < r,
            0 <= liq,
            liq <= a * s / r,
    ;
    assert(liq * (r + a) <= a * (s + liq)) by (nonlinear_arith)
        requires
            liq * r <= a * s,
            0 <= liq,
            0 <= a,
    ;
    assert(liq * (r + a) / (s + liq) <= a) by (nonlinear_arith)
        requires
            liq * (r + a) <= a * (s + liq),
            0 < s + liq,
            0 <= a,
    ;
}

/// Depositing `(a0, a1)` into a funded pool with reserves `(r0, r1)` and
/// share supply `s` mints `min(a0 * s / r0, a1 * s / r1)` shares, and
/// immediately burning those shares against the grown pool — balances
/// `(r0 + a0, r1 + a1)`, supply `s + liq` — returns no more than the
/// deposit on either side: a mint/burn round trip never profits.
pub proof fn lemma_mint_burn_round_trip(a0: int, a1: int, r0: int, r1: int, s: int)
    requires
        0 <= a0,
        0 <= a1,
        0 < r0,
        0 < r1,
        0 < s,
    ensures
        ({
            let liq = vstd::math::min(a0 * s / r0, a1 * s / r1);
            &&& liq * (r0 + a0) / (s + liq) <= a0
            &&& liq * (r1 + a1) / (s + liq) <= a1
        }),
{
    let liq = vstd::math::min(a0 * s / r0, a1 * s / r1);
    assert(0 <= a0 * s / r0 && 0 <= a1 * s / r1) by (nonlinear_arith)
        requires
            0 <= a0,
            0 <= a1,
            0 < r0,
            0 < r1,
            0 < s,
    ;
    lemma_payout_bound(a0, s, r0, liq);
    lemma_payout_bound(a1, s, r1, liq);
}


} // verus!
