//! Identifiers of the ledger, and the equality test that keyed tables need.

use vstd::prelude::*;

verus! {

/// A 256-bit value: a content hash or an account address.
#[derive(Clone, Copy, Debug, PartialEq, Eq, Structural, Hash)]
pub struct H256 {
    pub hi: u128,
    pub lo: u128,
}

/// A 160-bit value: an identifier handed in from outside the ledger.
#[derive(Clone, Copy, Debug, PartialEq, Eq, Structural, Hash)]
pub struct H160 {
    pub hi: u32,
    pub lo: u128,
}

/// An account that owns collections, items or fractions.
pub type AccountId = H256;

/// The content hash that names one minted item.
pub type Fingerprint = H256;

/// The identifier under which callers know a collection.
pub type CollectionId = H160;

/// The identity of a third party that places holds on fractions.
pub type FractionHolderId = H160;

/// The sequential identifier that the ledger gives a collection.
pub type InternalCollectionId = u32;

/// The sequential identifier of an item within its collection.
pub type ItemId = u32;

/// The identifier of the fungible pool behind a fractionalized item.
pub type FTokenId = u32;

/// An amount of shares of one pool.
pub type FractionAmount = u128;

/// The number of holds that are outstanding on one fraction.
pub type HoldCount = u32;

/// The number of a guard within its timepoint.
pub type LockNumber = u32;

/// The identity of one transaction: the block it is in and its index there.
#[derive(Clone, Copy, Debug, PartialEq, Eq, Structural, Hash)]
pub struct Timepoint {
    pub block_number: u64,
    pub extrinsic_id: u32,
}

/// The key of a fraction: the item and the account that holds the shares.
#[derive(Clone, Copy, Debug, PartialEq, Eq, Structural, Hash)]
pub struct FractionKey {
    pub fingerprint: Fingerprint,
    pub account: AccountId,
}

/// A value that can key a [`crate::table::Table`]: it can be copied, and
/// `same` decides equality of the values themselves.
pub trait Key: Copy {
    fn same(&self, other: &Self) -> (b: bool)
        ensures
            b == (*self == *other),
    ;
}

impl Key for u32 {
    fn same(&self, other: &Self) -> (b: bool) {
        *self == *other
    }
}

impl Key for H256 {
    fn same(&self, other: &Self) -> (b: bool) {
        *self == *other
    }
}

impl Key for H160 {
    fn same(&self, other: &Self) -> (b: bool) {
        *self == *other
    }
}

impl Key for Timepoint {
    fn same(&self, other: &Self) -> (b: bool) {
        *self == *other
    }
}

impl Key for FractionKey {
    fn same(&self, other: &Self) -> (b: bool) {
        *self == *other
    }
}

} // verus!
