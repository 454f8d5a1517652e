//! The ways in which an operation of the ledger fails.

use vstd::prelude::*;
use sp_runtime::DispatchError;

verus! {

/// `sp_runtime::DispatchError`, the error with which a backing store refuses
/// a request. The ledger reads nothing in such a value: it hands the value
/// on to its caller inside [`Error::Backing`].
#[verifier::external_type_specification]
#[verifier::external_body]
pub struct ExDispatchError(DispatchError);

/// The reason for which an operation was refused. A refused operation leaves
/// the ledger as it was, unless its contract says otherwise.
#[derive(Clone, Copy, Debug, PartialEq, Eq)]
pub enum Error {
    /// An amount or a capacity of zero.
    BadValue,
    /// A transfer to the account that already holds the shares.
    BadTarget,
    /// The collection record is not the one that the ledger holds.
    UnknownCollection,
    /// The item or fraction record is not the one that the ledger holds, or
    /// no item stands behind a pool.
    UnknownItem,
    /// The item has not been split into shares.
    NotFractionalized,
    /// The state of the ledger forbids the operation.
    NoPermission,
    /// The account is not the owner of the item.
    WrongOwner,
    /// The amount is larger than what is there.
    InsufficientBalance,
    /// A counter or a balance would leave its range.
    Overflow,
    /// A backing store refused its part of the operation.
    Backing(DispatchError),
}

} // verus!
