//! Order keys: the integers by which the library holds and compares every
//! number that the integration and the optimisers compute in floating point.
//!
//! The key of a number in IEEE 754 double precision is its bit pattern read
//! as a signed integer, with the magnitude bits inverted where the number is
//! negative; the negative zero has the key of zero. Keys compare exactly as
//! the numbers do, and every number that is not a NaN is recovered from its
//! key bit for bit.

use vstd::prelude::*;

verus! {

/// The key of `0`.
pub const ZERO: i64 = 0;

/// The key of `0.25`.
pub const QUARTER: i64 = 0x3FD0_0000_0000_0000;

/// The key of `0.5`.
pub const HALF: i64 = 0x3FE0_0000_0000_0000;

/// The key of `0.75`.
pub const THREE_QUARTERS: i64 = 0x3FE8_0000_0000_0000;

/// The key of `1`.
pub const ONE: i64 = 0x3FF0_0000_0000_0000;

/// The key of `2`.
pub const TWO: i64 = 0x4000_0000_0000_0000;

/// The key of `4`.
pub const FOUR: i64 = 0x4010_0000_0000_0000;

/// The key of `0.01`.
pub const HUNDREDTH: i64 = 0x3F84_7AE1_47AE_147B;

/// The key of `0.001`.
pub const THOUSANDTH: i64 = 0x3F50_624D_D2F1_A9FC;

/// The key of `0.0001`.
pub const TEN_THOUSANDTH: i64 = 0x3F1A_36E2_EB1C_432D;

/// The key of `0.000001`.
pub const MILLIONTH: i64 = 0x3EB0_C6F7_A0B5_ED8D;

/// The key of `0.8`.
pub const FOUR_FIFTHS: i64 = 0x3FE9_9999_9999_999A;

/// The key of `0.05`.
pub const TWENTIETH: i64 = 0x3FA9_9999_9999_999A;

/// The key of `0.00025`.
pub const FOUR_THOUSANDTH: i64 = 0x3F30_624D_D2F1_A9FC;

/// `x` brought into `[low, high]`.
pub open spec fn spec_clip(x: i64, low: i64, high: i64) -> i64 {
    if x < low {
        low
    } else if x > high {
        high
    } else {
        x
    }
}

/// Brings `x` into `[low, high]`: below `low` it becomes `low`, above `high`
/// it becomes `high`.
pub fn clip(x: i64, low: i64, high: i64) -> (r: i64)
    ensures
        r == spec_clip(x, low, high),
        low <= high ==> low <= r <= high,
{
    if x < low {
        low
    } else if x > high {
        high
    } else {
        x
    }
}

} // verus!
