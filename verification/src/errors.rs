use vstd::prelude::*;

verus! {

/// Why a ledger operation was refused.
///
/// Every refusal aborts the operation as a whole: no record is changed when
/// one of these is returned.
#[derive(Clone, Copy, Debug, PartialEq, Eq, Structural)]
pub enum Error {
    /// A mint was attempted for an owner that already holds a pet.
    AlreadyExists,
    /// The operation needs a record that the owner does not have.
    NotFound,
    /// A feeding amount was not positive.
    InvalidAmount,
    /// A pet-ledger withdrawal asked for more than the staked balance.
    InsufficientFunds,
    /// A savings withdrawal asked for more than the saved balance.
    InsufficientBalance,
    /// The caller could not prove control of the owner identity.
    /// The authentication gate lives with the host; the library never
    /// produces this variant itself.
    Unauthorized,
}

} // verus!
