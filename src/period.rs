//! Difficulty periods: the fixed-size runs of heights whose first block is
//! the one header the chain keeps.
use vstd::prelude::*;

verus! {

/// Number of blocks in one difficulty period.
pub const DIFFICULTY_PERIOD: u32 = 2016;

/// Height of the first block of period `k`.
pub open spec fn period_height(k: nat) -> nat {
    k * 2016
}

/// Number of periods a chain whose tip is at `tip` keeps a header for: the
/// periods `0..tip / 2016`, each of which is followed by a full period at or
/// below the tip.
pub open spec fn periods_below(tip: nat) -> nat {
    tip / 2016
}

/// Largest multiple of the period that is at most `height`.
pub fn round_down_to_difficulty_adjustment(height: u32) -> (r: u32)
    ensures
        r == (height / 2016) * 2016,
        r <= height,
        r % 2016 == 0,
        height - r < 2016,
{
    let q: u32 = height / DIFFICULTY_PERIOD;
    assert(q * 2016 <= height && height - q * 2016 < 2016 && (q * 2016) % 2016 == 0)
        by (nonlinear_arith)
        requires q == height / 2016;
    q * DIFFICULTY_PERIOD
}

} // verus!
