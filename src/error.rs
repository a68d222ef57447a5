//! Why an operation was refused. A refused operation changes nothing.
use vstd::prelude::*;

verus! {

#[derive(Clone, Copy, Debug, PartialEq, Eq, Structural)]
pub enum CampgroundError {
    /// The series or copy named does not exist.
    NotFound,
    /// Malformed input: no tickets, no resources, a price over the ceiling,
    /// a transfer to the current owner.
    InvalidArgument,
    /// The caller does not hold the role or the ownership that the operation needs.
    Unauthorized,
    /// The series cannot be minted: supply exhausted, blocked, or outside its
    /// validity window.
    NotMintable,
    /// The attached deposit does not match the price, or does not cover storage.
    InsufficientPayment,
}

} // verus!
