use vstd::prelude::*;

use crate::error::SolveError;

verus! {

/// Mask of the sign bit of an IEEE-754 binary64 bit pattern.
pub const SIGN_BIT: u64 = 0x8000_0000_0000_0000;

/// Smallest magnitude whose exponent field is all ones (infinity or NaN).
pub const NON_FINITE_FLOOR: u64 = 0x7FF0_0000_0000_0000;

/// Magnitude of a binary64 bit pattern: every bit but the sign.
pub open spec fn magnitude(bits: u64) -> nat {
    (bits % 0x8000_0000_0000_0000) as nat
}

/// Whether the bit pattern is a finite binary64 value (not infinity, not NaN).
pub open spec fn is_finite_bits(bits: u64) -> bool {
    magnitude(bits) < 0x7FF0_0000_0000_0000
}

/// Whether the bit pattern has its sign bit set.
pub open spec fn is_negative_bits(bits: u64) -> bool {
    bits >= 0x8000_0000_0000_0000
}

/// Rank of a finite binary64 value: its signed magnitude. For finite values,
/// `x < y` as reals exactly when the rank of `x` is below the rank of `y`,
/// and both zeros share rank 0.
pub open spec fn rank_of(bits: u64) -> int {
    if is_negative_bits(bits) {
        -(magnitude(bits) as int)
    } else {
        magnitude(bits) as int
    }
}

/// Rank of a binary64 bit pattern: its signed magnitude, so that on finite
/// values a smaller rank is a smaller real. Fails with `EvaluationError` on
/// infinity and NaN, which cannot be ranked.
pub fn cost_rank(bits: u64) -> (r: Result<i64, SolveError>)
    ensures
        is_finite_bits(bits) <==> r is Ok,
        r is Ok ==> r->Ok_0 == rank_of(bits),
        r is Err ==> r->Err_0 == SolveError::EvaluationError,
{
    let mag: u64 = bits % SIGN_BIT;
    if mag >= NON_FINITE_FLOOR {
        Err(SolveError::EvaluationError)
    } else if bits >= SIGN_BIT {
        Ok(-(mag as i64))
    } else {
        Ok(mag as i64)
    }
}

/// Ranks of a sequence of costs given as binary64 bit patterns, in the
/// same order. Fails with `EvaluationError` when any cost is infinite or NaN.
pub fn cost_ranks(costs: &Vec<u64>) -> (r: Result<Vec<i64>, SolveError>)
    ensures
        (forall|k: int| 0 <= k < costs@.len() ==> is_finite_bits(#[trigger] costs@[k])) <==> r is Ok,
        r is Ok ==> r->Ok_0@.len() == costs@.len() && forall|k: int|
            0 <= k < costs@.len() ==> #[trigger] r->Ok_0@[k] == rank_of(costs@[k]),
        r is Err ==> r->Err_0 == SolveError::EvaluationError,
{
    let mut ranks: Vec<i64> = Vec::new();
    let mut k: usize = 0;
    while k < costs.len()
        invariant
            k <= costs@.len(),
            ranks@.len() == k,
            forall|m: int| 0 <= m < k ==> is_finite_bits(#[trigger] costs@[m]),
            forall|m: int| 0 <= m < k ==> #[trigger] ranks@[m] == rank_of(costs@[m]),
        decreases costs@.len() - k,
    {
        match cost_rank(costs[k]) {
            Ok(rank) => ranks.push(rank),
            Err(e) => {
                return Err(e);
            },
        }
        k = k + 1;
    }
    Ok(ranks)
}

/// Whether a ranked cost lies strictly inside `(-limit, limit)`, that is,
/// whether its absolute value is below the value of rank `limit`.
pub fn within_threshold(rank: i64, limit: i64) -> (r: bool)
    requires
        -0x7FF0_0000_0000_0000 < rank < 0x7FF0_0000_0000_0000,
    ensures
        r == (-limit < rank && rank < limit),
{
    let abs: i64 = if rank < 0 { -rank } else { rank };
    abs < limit
}

} // verus!
