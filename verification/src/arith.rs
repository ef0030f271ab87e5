//! The sum that the agent's C side calls to check that it reaches this
//! library.

use vstd::prelude::*;

verus! {

/// The sum of two numbers that fits in 64 bits.
pub fn add(left: u64, right: u64) -> (sum: u64)
    requires
        left + right <= u64::MAX,
    ensures
        sum == left + right,
{
    left + right
}

} // verus!
