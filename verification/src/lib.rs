//! A ledger of collectible items that can be split into fungible shares.
//!
//! Items are minted into collections of bounded size and are named by a
//! fingerprint. An item can be split into the shares of a pool; shares are
//! minted, burned and moved between accounts, and can be locked against
//! transfer or put on hold by third parties. The ledger keeps the records;
//! the tokens and the pools themselves live in two backing stores, which
//! the ledger asks to do their part of each operation. It reaches a store
//! through a [`Backing`], on which every request and its answer is on
//! record for the proofs.
//!
//! The state of a ledger is modelled by [`model::LedgerState`], and each
//! operation by a spec function on it. [`sound`] says what holds of every
//! state that the operations can reach, and [`laws`] what follows for the
//! histories of a ledger.
//!
//! A ledger is written to storage as its [`LedgerParts`] and read back with
//! [`Ledger::restore`], which gives a ledger for the contents of a sound
//! ledger and for no others; [`restore`] holds the test.

pub mod backing;
pub mod error;
pub mod guard;
pub mod ids;
pub mod laws;
pub mod ledger;
pub mod lock;
pub mod model;
pub mod payload;
pub mod portal;
pub mod records;
pub mod restore;
pub mod sound;
pub mod table;

pub use backing::{
    Backing, CreateClass, CreatePool, Exchange, Fungibles, MintToken, MoveShares, MoveToken,
    Nonfungibles, PoolOrder,
};
pub use error::Error;
pub use guard::{FractionLockGuardT, GuardData, HoldKey, LockGuard, LockGuardT};
pub use ids::{
    AccountId, CollectionId, FTokenId, Fingerprint, FractionAmount, FractionHolderId,
    FractionKey, HoldCount, InternalCollectionId, ItemId, Key, LockNumber, Timepoint, H160,
    H256,
};
pub use ledger::{now, Ledger, LedgerParts, NFTImplT, StoredHold};
pub use lock::{FractionLockMask, ItemLockMask};
pub use payload::{AssetIdInitT, PayloadAssetId, PayloadDetails};
pub use portal::{transpose, ExtrinsicHash, ExtrinsicId, ExtrinsicIdList, PortalInfo};
pub use records::{
    CollectionRecordT, Fractional, FractionRecordT, FractionalT, ItemRecordT,
    NFTokenCollectionRecord, NFTokenFractionRecord, NFTokenItemRecord,
};
pub use table::Table;
