use vstd::prelude::*;

verus! {

/// The measure of execution time that the runtime charges for a call.
pub type Weight = u64;

/// `x * y`, or `u64::MAX` where the product does not fit.
pub open spec fn spec_saturating_mul(x: u64, y: u64) -> u64 {
    if x * y > u64::MAX {
        u64::MAX
    } else {
        (x * y) as u64
    }
}

fn saturating_mul(x: u64, y: u64) -> (r: u64)
    ensures
        r == spec_saturating_mul(x, y),
{
    match x.checked_mul(y) {
        Some(p) => p,
        None => u64::MAX,
    }
}

/// Base weight of one call of `batch`, per call in the batch.
pub const BATCH_PER_CALL: u64 = 66_627_000;

/// Weight of `as_derivative`.
pub const AS_DERIVATIVE: u64 = 62_902_000;

/// Base weight of one call of `batch_all`, per call in the batch.
pub const BATCH_ALL_PER_CALL: u64 = 67_084_000;

/// Weight functions for the utility pallet, as benchmarked.
pub struct WeightInfo;

impl WeightInfo {
    /// Weight of a `batch` of `c` calls.
    pub fn batch(c: u32) -> (w: Weight)
        ensures
            w == (0 as u64).saturating_add(spec_saturating_mul(BATCH_PER_CALL, c as u64)),
            w == BATCH_PER_CALL * c,
    {
        assert(BATCH_PER_CALL * (c as u64) <= BATCH_PER_CALL * 0xffff_ffffu64) by (nonlinear_arith)
            requires
                c <= 0xffff_ffffu64,
        ;
        (0 as u64).saturating_add(saturating_mul(BATCH_PER_CALL, c as u64))
    }

    /// Weight of `as_derivative`.
    pub fn as_derivative() -> (w: Weight)
        ensures
            w == AS_DERIVATIVE,
    {
        AS_DERIVATIVE
    }

    /// Weight of a `batch_all` of `c` calls.
    pub fn batch_all(c: u32) -> (w: Weight)
        ensures
            w == (0 as u64).saturating_add(spec_saturating_mul(BATCH_ALL_PER_CALL, c as u64)),
            w == BATCH_ALL_PER_CALL * c,
    {
        assert(BATCH_ALL_PER_CALL * (c as u64) <= BATCH_ALL_PER_CALL * 0xffff_ffffu64)
            by (nonlinear_arith)
            requires
                c <= 0xffff_ffffu64,
        ;
        (0 as u64).saturating_add(saturating_mul(BATCH_ALL_PER_CALL, c as u64))
    }
}

} // verus!
