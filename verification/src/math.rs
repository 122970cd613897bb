//! Integer square root over the full 128-bit domain, the arithmetic
//! primitive behind liquidity-share and protocol-fee mathematics.

use vstd::prelude::*;

verus! {

/// Mathematical integer square root, rounding down.
pub open spec fn sqrt_spec(x: nat) -> nat
    decreases x,
{
    if x < 4 {
        if x == 0 {
            0
        } else {
            1
        }
    } else {
        let s = 2 * sqrt_spec(x / 4);
        if (s + 1) * (s + 1) <= x {
            s + 1
        } else {
            s
        }
    }
}

/// `sqrt_spec(x)` is the greatest integer whose square does not exceed `x`.
pub proof fn lemma_sqrt_spec_bounds(x: nat)
    ensures
        sqrt_spec(x) * sqrt_spec(x) <= x,
        x < (sqrt_spec(x) + 1) * (sqrt_spec(x) + 1),
    decreases x,
{
    let r = sqrt_spec(x);
    if x < 4 {
        if x == 0 {
            assert(r == 0);
        } else {
            assert(r == 1);
        }
        assert(r * r <= x && x < (r + 1) * (r + 1)) by (nonlinear_arith)
            requires
                x < 4,
                r == if x == 0 { 0nat } else { 1nat },
        ;
    } else {
        let q = sqrt_spec(x / 4);
        let h = x / 4;
        lemma_sqrt_spec_bounds(h);
        let s = 2 * q;
        assert(4 * h <= x && x < 4 * h + 4);
        assert(s * s <= x) by (nonlinear_arith)
            requires
                q * q <= h,
                s == 2 * q,
                4 * h <= x,
        ;
        assert(x < (s + 2) * (s + 2)) by (nonlinear_arith)
            requires
                h < (q + 1) * (q + 1),
                s == 2 * q,
                x < 4 * h + 4,
        ;
        if (s + 1) * (s + 1) <= x {
            assert(r == s + 1);
            assert(r * r <= x && x < (r + 1) * (r + 1)) by (nonlinear_arith)
                requires
                    r == s + 1,
                    (s + 1) * (s + 1) <= x,
                    x < (s + 2) * (s + 2),
                    s >= 0,
            ;
        } else {
            assert(r == s);
            assert(r * r <= x && x < (r + 1) * (r + 1)) by (nonlinear_arith)
                requires
                    r == s,
                    s * s <= x,
                    !((s + 1) * (s + 1) <= x),
                    s >= 0,
            ;
        }
    }
}

/// Two integers that both bracket `x` as square roots are equal.
pub proof fn lemma_sqrt_unique(x: nat, a: nat, b: nat)
    by (nonlinear_arith)
    requires
        a * a <= x,
        x < (a + 1) * (a + 1),
        b * b <= x,
        x < (b + 1) * (b + 1),
    ensures
        a == b,
{
}

/// A pro-rata share of a balance never exceeds the balance: redeeming
/// `liq` of `supply` outstanding shares pays out at most the whole balance.
pub proof fn lemma_prorata_bound(liq: int, bal: int, supply: int)
    by (nonlinear_arith)
    requires
        0 <= liq <= supply,
        0 <= bal,
        0 < supply,
    ensures
        0 <= liq * bal / supply,
        liq * bal / supply <= bal,
{
}

/// Integer square root, rounding down, exact on the whole 128-bit range.
pub fn sqrt(x: u128) -> (r: u128)
    ensures
        r == sqrt_spec(x as nat),
        r * r <= x,
        x < (r + 1) * (r + 1),
{
    let mut lo: u128 = 0;
    let mut hi: u128 = 1u128 << 64;
    proof {
        assert(1u128 << 64 == 0x10000000000000000) by (bit_vector);
    }
    while lo + 1 < hi
        invariant
            lo < hi,
            hi <= 0x10000000000000000,
            lo * lo <= x,
            x < hi * hi,
        decreases hi - lo,
    {
        let mid = lo + (hi - lo) / 2;
        proof {
            assert(mid * mid <= u128::MAX) by (nonlinear_arith)
                requires
                    mid < 0x10000000000000000,
            ;
        }
        if mid * mid <= x {
            lo = mid;
        } else {
            hi = mid;
        }
    }
    proof {
        lemma_sqrt_spec_bounds(x as nat);
        lemma_sqrt_unique(x as nat, lo as nat, sqrt_spec(x as nat));
    }
    lo
}

} // verus!
