use vstd::prelude::*;

verus! {

/// Upper bound kept on a pet's total staked amount, so that the derived
/// level `1 + total_staked / 1000` always fits in a `u32`.
pub const MAX_TOTAL_STAKE: i128 = 4_294_967_294_999;

/// Seconds in one logical day.
pub const DAY_SECONDS: u64 = 86400;

/// `current + delta`, clamped into `[0, max]`.
pub open spec fn clamp_add(current: int, delta: int, max: int) -> int {
    if current + delta < 0 {
        0
    } else if current + delta > max {
        max
    } else {
        current + delta
    }
}

/// `current - by`, floored at zero.
pub open spec fn sub_floor(current: int, by: int) -> int {
    if current - by < 0 {
        0
    } else {
        current - by
    }
}

/// The pet level derived from a total staked amount: one level per thousand
/// units staked, starting at level 1.
pub open spec fn level_for(total_staked: int) -> int {
    1 + total_staked / 1000
}

} // verus!
