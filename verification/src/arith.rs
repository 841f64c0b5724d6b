//! The host's arithmetic check.
use vstd::prelude::*;

verus! {

/// The sum of two 64-bit integers, for sums that fit in 64 bits.
pub fn add(a: i64, b: i64) -> (sum: i64)
    requires
        i64::MIN <= a + b <= i64::MAX,
    ensures
        sum == a + b,
{
    a + b
}

} // verus!
