//! Fixed-point arithmetic for monetary quantities.
//!
//! Every amount, rate, fee fraction and price impact in this crate is a `u64`
//! carrying a value scaled by [`SCALE`] (so `SCALE` itself denotes `1.0`).
//! Products and quotients are computed in `u128`, floored, and saturated to
//! `u64::MAX`; the specification functions below pin the exact result of
//! every operation, saturation included.

use vstd::prelude::*;

verus! {

/// Number of fixed-point steps per whole unit: all scaled values carry
/// twelve fractional decimal digits.
pub const SCALE: u64 = 1_000_000_000_000;

/// Saturate a non-negative mathematical integer to the `u64` range.
pub open spec fn sat64(x: int) -> int {
    if x > u64::MAX as int {
        u64::MAX as int
    } else {
        x
    }
}

/// Mathematical value of the fixed-point product `a * b`, before saturation.
pub open spec fn fp_mul_raw(a: int, b: int) -> int {
    (a * b) / (SCALE as int)
}

/// Fixed-point product as computed by [`fp_mul`].
pub open spec fn fp_mul_spec(a: int, b: int) -> int {
    sat64(fp_mul_raw(a, b))
}

/// Mathematical value of the fixed-point quotient `a / b`, before saturation.
pub open spec fn fp_div_raw(a: int, b: int) -> int {
    (a * (SCALE as int)) / b
}

/// Fixed-point quotient as computed by [`fp_div`].
pub open spec fn fp_div_spec(a: int, b: int) -> int {
    sat64(fp_div_raw(a, b))
}

/// Fixed-point product, floored and saturated to `u64::MAX`.
pub fn fp_mul(a: u64, b: u64) -> (r: u64)
    ensures
        r == fp_mul_spec(a as int, b as int),
{
    proof {
        assert((a as int) * (b as int) <= (u64::MAX as int) * (u64::MAX as int)) by (nonlinear_arith)
            requires
                a <= u64::MAX,
                b <= u64::MAX,
        ;
    }
    let p: u128 = (a as u128) * (b as u128) / (SCALE as u128);
    if p > u64::MAX as u128 {
        u64::MAX
    } else {
        p as u64
    }
}

/// Fixed-point quotient, floored and saturated to `u64::MAX`.
pub fn fp_div(a: u64, b: u64) -> (r: u64)
    requires
        b > 0,
    ensures
        r == fp_div_spec(a as int, b as int),
{
    proof {
        assert((a as int) * (SCALE as int) <= (u64::MAX as int) * (SCALE as int)) by (nonlinear_arith)
            requires
                a <= u64::MAX,
        ;
    }
    let q: u128 = (a as u128) * (SCALE as u128) / (b as u128);
    if q > u64::MAX as u128 {
        u64::MAX
    } else {
        q as u64
    }
}

/// The fraction that remains of a whole after deducting `x`: `1 - x`,
/// floored at zero.
pub open spec fn fp_complement_spec(x: int) -> int {
    if x >= SCALE as int {
        0
    } else {
        SCALE as int - x
    }
}

/// `1 - x` in fixed point, floored at zero.
pub fn fp_complement(x: u64) -> (r: u64)
    ensures
        r == fp_complement_spec(x as int),
{
    if x >= SCALE {
        0
    } else {
        SCALE - x
    }
}

/// Price impact of trading `amount` against a pool of `liquidity`, under the
/// linear impact model: half of the trade's share of the pool. An empty pool
/// has unbounded impact, reported as `u64::MAX`.
pub open spec fn price_impact_spec(amount: int, liquidity: int) -> int {
    if liquidity <= 0 {
        u64::MAX as int
    } else {
        sat64((amount * (SCALE as int)) / (2 * liquidity))
    }
}

/// Linear price impact of a trade, fixed-point: `amount / liquidity * 0.5`,
/// floored and saturated; `u64::MAX` when the pool is empty.
pub fn price_impact_amount(amount: u64, liquidity: u64) -> (r: u64)
    ensures
        r == price_impact_spec(amount as int, liquidity as int),
{
    if liquidity == 0 {
        return u64::MAX;
    }
    proof {
        assert((amount as int) * (SCALE as int) <= (u64::MAX as int) * (SCALE as int))
            by (nonlinear_arith)
            requires
                amount <= u64::MAX,
        ;
    }
    let q: u128 = (amount as u128) * (SCALE as u128) / (2 * (liquidity as u128));
    if q > u64::MAX as u128 {
        u64::MAX
    } else {
        q as u64
    }
}

/// A fixed-point product with a factor of at most one never exceeds the
/// other factor.
pub proof fn lemma_fp_mul_le_one(a: u64, r: u64)
    requires
        r <= SCALE,
    ensures
        0 <= fp_mul_spec(a as int, r as int) <= a as int,
{
    assert(0 <= (a as int) * (r as int) <= (a as int) * (SCALE as int)) by (nonlinear_arith)
        requires
            0 <= a as int,
            0 <= r as int <= SCALE as int,
    ;
    assert(((a as int) * (r as int)) / (SCALE as int) <= ((a as int) * (SCALE as int)) / (
    SCALE as int)) by (nonlinear_arith)
        requires
            (a as int) * (r as int) <= (a as int) * (SCALE as int),
    ;
    assert(((a as int) * (SCALE as int)) / (SCALE as int) == a as int) by (nonlinear_arith);
    assert(((a as int) * (r as int)) / (SCALE as int) >= 0) by (nonlinear_arith)
        requires
            (a as int) * (r as int) >= 0,
    ;
}

/// A fixed-point product grows with its second factor.
pub proof fn lemma_fp_mul_mono(a: u64, r1: u64, r2: u64)
    requires
        r1 <= r2,
    ensures
        fp_mul_spec(a as int, r1 as int) <= fp_mul_spec(a as int, r2 as int),
{
    assert((a as int) * (r1 as int) <= (a as int) * (r2 as int)) by (nonlinear_arith)
        requires
            0 <= a as int,
            r1 as int <= r2 as int,
    ;
    assert(((a as int) * (r1 as int)) / (SCALE as int) <= ((a as int) * (r2 as int)) / (
    SCALE as int)) by (nonlinear_arith)
        requires
            (a as int) * (r1 as int) <= (a as int) * (r2 as int),
    ;
}

/// Left-to-right sum of a sequence, each addition saturated to `u64::MAX`,
/// as a chain of `saturating_add` computes it.
pub open spec fn sat_sum(s: Seq<u64>) -> int
    decreases s.len(),
{
    if s.len() == 0 {
        0
    } else {
        sat64(sat_sum(s.drop_last()) + s.last())
    }
}

} // verus!
