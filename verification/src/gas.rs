//! Gas metering: converts the resource weights the ledger reports into the
//! caller's gas unit with a configured ratio, saturating rather than
//! overflowing.

use vstd::prelude::*;

verus! {

/// The gas that `weight` costs at `ratio` gas per weight unit, saturated at
/// the largest representable gas value.
pub open spec fn spec_weight_to_gas(weight: u64, ratio: u64) -> u64 {
    if weight * ratio > u64::MAX {
        u64::MAX
    } else {
        (weight * ratio) as u64
    }
}

/// Convert a reported weight into gas, saturating on overflow.
pub fn weight_to_gas(weight: u64, ratio: u64) -> (r: u64)
    ensures
        r == spec_weight_to_gas(weight, ratio),
{
    match weight.checked_mul(ratio) {
        Some(gas) => gas,
        None => u64::MAX,
    }
}

} // verus!
