//! Reward tiers of the pricing engine.
//!
//! The unit price itself grows by a compound floating-point curve that the
//! host computes; only the integer reward tiers live here.

use vstd::prelude::*;

verus! {

/// Reward tokens per purchased unit, by total units ever purchased: four
/// tiers, each a tenfold count range coarser and less rewarding.
pub open spec fn calculate_tokens_spec(count: int) -> u8 {
    if count < 1000 {
        100
    } else if count < 10000 {
        50
    } else if count < 100000 {
        25
    } else {
        10
    }
}

/// Reward tokens granted per purchased unit.
pub fn calculate_tokens(count: i32) -> (r: u8)
    ensures
        r == calculate_tokens_spec(count as int),
        10 <= r <= 100,
{
    if count < 1000 {
        100
    } else if count < 10000 {
        50
    } else if count < 100000 {
        25
    } else {
        10
    }
}

} // verus!
