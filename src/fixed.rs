//! The fixed-point scale shared by every plane coordinate.

use vstd::prelude::*;

verus! {

/// Number of fractional bits in a plane coordinate.
pub const FRAC_BITS: u32 = 40;

/// The plane value 1.0 in fixed point.
pub const ONE: i64 = 1099511627776;

} // verus!
