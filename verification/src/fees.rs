use vstd::prelude::*;

verus! {

/// One whole in basis points: 10 000 bps are 100%.
pub const BPS_DENOMINATOR: u32 = 10_000;

/// Added to a numerator before dividing by `BPS_DENOMINATOR` to round the
/// quotient up instead of down.
pub const BPS_CEIL_OFFSET: i128 = 9_999;

/// Adding `BPS_CEIL_OFFSET` before dividing by `BPS_DENOMINATOR` rounds up:
/// for every `a >= 0`, `(a + BPS_CEIL_OFFSET) / BPS_DENOMINATOR` is the
/// least `q` with `q * BPS_DENOMINATOR >= a`.
pub proof fn lemma_bps_ceil_offset_rounds_up(a: int)
    requires
        a >= 0,
    ensures
        ({
            let q = (a + BPS_CEIL_OFFSET) / (BPS_DENOMINATOR as int);
            &&& q * (BPS_DENOMINATOR as int) >= a
            &&& (q - 1) * (BPS_DENOMINATOR as int) < a
        }),
{
    let q = (a + 9_999) / 10_000;
    assert(q * 10_000 >= a && (q - 1) * 10_000 < a) by (nonlinear_arith)
        requires
            a >= 0,
            q == (a + 9_999) / 10_000,
    ;
}

} // verus!
