//! The failures an operation can report. Every failure leaves the store as
//! it was before the operation.

use vstd::prelude::*;

verus! {

#[derive(Clone, Copy, Debug, PartialEq, Eq, Structural)]
pub enum ErrorCode {
    /// A record already occupies the address to be created.
    AddressAlreadyInUse,
    /// No record of the expected kind is at the address.
    RecordNotFound,
    /// The paying principal's balance does not cover the operation.
    InsufficientFunds,
    /// A deposit was sent elsewhere than to the community treasury.
    InvalidDestination,
    /// A record cannot be resized below what its fields need, or beyond the
    /// largest record size.
    SizeMismatch,
    /// The authority presented does not govern the mint.
    Unauthorized,
    /// A counter or a balance would leave the range of its integer type.
    ArithmeticOverflow,
    /// The seeds yield no program address.
    InvalidSeeds,
}

} // verus!
