//! The platform fee owed on a sale.
use vstd::prelude::*;

verus! {

/// `max(price * percentage / 100, minimum)`, with truncating division.
pub open spec fn fee_of(price: int, percentage: int, minimum: int) -> int {
    let proportional = price * percentage / 100;
    if proportional < minimum {
        minimum
    } else {
        proportional
    }
}

/// Fee on `price` at `campground_fee` percent, raised to `min_treasury` when lower.
pub fn calculate_fee(price: u128, campground_fee: u64, min_treasury: u128) -> (r: u128)
    requires
        price * campground_fee <= u128::MAX,
    ensures
        r == fee_of(price as int, campground_fee as int, min_treasury as int),
{
    let fee = (price * campground_fee as u128) / 100;
    if fee < min_treasury {
        min_treasury
    } else {
        fee
    }
}

} // verus!
