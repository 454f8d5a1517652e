//! What a payload says of the asset that it carries.

use vstd::prelude::*;

verus! {

/// The details that travel with a payload: who owns it.
#[derive(Clone)]
pub struct PayloadDetails<AccountId> {
    pub owner: AccountId,
}

/// The asset behind a payload: a pool of fungible shares, or a class of
/// indivisible tokens.
#[derive(Debug, Clone, Eq, PartialEq)]
pub enum PayloadAssetId<AssetId, ClassId> {
    Ft(AssetId),
    Nft(ClassId),
}

/// A way to make an asset identifier from raw bytes.
pub trait AssetIdInitT<AssetId> {
    fn asset_id(raw: &[u8]) -> AssetId;
}

} // verus!
