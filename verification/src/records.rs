//! The records of the ledger: collections, items, fractions, and the
//! descriptor of the pool behind a fractionalized item.
//!
//! Each kind of record has a trait that names what a record must offer and
//! provides, on top of that, the steps that the ledger takes on a record.
//! The provided steps are proved from the contracts of the required methods
//! alone, so they hold of every representation.

use vstd::prelude::*;
use crate::ids::{
    AccountId, CollectionId, FTokenId, Fingerprint, FractionAmount, HoldCount,
    InternalCollectionId, ItemId,
};
use crate::lock::FractionLockMask;

verus! {

/// The pool behind a fractionalized item, and the total of the shares that
/// were minted in it.
#[derive(Clone, Copy, Debug, PartialEq, Eq, Structural)]
pub struct Fractional {
    pub ft_id: FTokenId,
    pub total: FractionAmount,
}

/// A descriptor of a pool and its total.
pub trait FractionalT: Sized {
    /// The descriptor as plain data.
    spec fn data(&self) -> Fractional;

    fn ft_id(&self) -> (r: &FTokenId)
        ensures
            *r == self.data().ft_id,
    ;

    fn total(&self) -> (r: &FractionAmount)
        ensures
            *r == self.data().total,
    ;

    fn new(ft_id: FTokenId, total: FractionAmount) -> (r: Self)
        ensures
            r.data() == (Fractional { ft_id, total }),
    ;
}

impl FractionalT for Fractional {
    open spec fn data(&self) -> Fractional {
        *self
    }

    fn ft_id(&self) -> (r: &FTokenId) {
        &self.ft_id
    }

    fn total(&self) -> (r: &FractionAmount) {
        &self.total
    }

    fn new(ft_id: FTokenId, total: FractionAmount) -> (r: Self) {
        Fractional { ft_id, total }
    }
}

/// A collection: who owns it, how it is named, and how many items it holds
/// out of how many it may hold.
#[derive(Clone, Copy, Debug, PartialEq, Eq, Structural)]
pub struct NFTokenCollectionRecord {
    pub account: AccountId,
    pub collection_id: CollectionId,
    pub internal_id: InternalCollectionId,
    pub max_items: ItemId,
    pub items: ItemId,
}

impl NFTokenCollectionRecord {
    /// The collection holds no more items than it may.
    pub open spec fn within_capacity(self) -> bool {
        self.items <= self.max_items
    }

    /// The identifier that the next item gets, while there is room for one.
    pub open spec fn next_item_id(self) -> Option<ItemId> {
        if self.items < self.max_items {
            Some(self.items)
        } else {
            None
        }
    }

    /// The record once the next item is counted: one more item while there
    /// is room, and the record itself once the collection is full.
    pub open spec fn with_next_item(self) -> NFTokenCollectionRecord {
        if self.items < self.max_items {
            NFTokenCollectionRecord { items: (self.items + 1) as ItemId, ..self }
        } else {
            self
        }
    }
}

/// What a collection record offers, and the steps taken on one.
pub trait CollectionRecordT: Sized {
    /// The record as plain data.
    spec fn data(&self) -> NFTokenCollectionRecord;

    fn account(&self) -> (r: &AccountId)
        ensures
            *r == self.data().account,
    ;

    fn collection_id(&self) -> (r: &CollectionId)
        ensures
            *r == self.data().collection_id,
    ;

    fn internal_id(&self) -> (r: &InternalCollectionId)
        ensures
            *r == self.data().internal_id,
    ;

    fn max_items(&self) -> (r: &ItemId)
        ensures
            *r == self.data().max_items,
    ;

    fn items(&self) -> (r: &ItemId)
        ensures
            *r == self.data().items,
    ;

    fn new(
        account: &AccountId,
        collection_id: CollectionId,
        internal_id: InternalCollectionId,
        max_items: ItemId,
        items: ItemId,
    ) -> (r: Self)
        ensures
            r.data() == (NFTokenCollectionRecord {
                account: *account,
                collection_id,
                internal_id,
                max_items,
                items,
            }),
    ;

    /// Counts one more item; the count stays where it is at the top of its
    /// range.
    fn _inc_items(&mut self)
        ensures
            final(self).data() == (NFTokenCollectionRecord {
                items: if old(self).data().items == ItemId::MAX {
                    ItemId::MAX
                } else {
                    (old(self).data().items + 1) as ItemId
                },
                ..old(self).data()
            }),
    ;

    fn _mut_account(&mut self) -> (r: &mut AccountId)
        ensures
            *r == old(self).data().account,
            final(self).data() == (NFTokenCollectionRecord {
                account: *final(r),
                ..old(self).data()
            }),
    ;

    /// Hands out the identifier of the next item, which is the number of
    /// items so far, and counts that item; hands out nothing once the
    /// collection is full, and then changes nothing.
    fn obtain_item_id(&mut self) -> (r: Option<ItemId>)
        ensures
            r == old(self).data().next_item_id(),
            final(self).data() == old(self).data().with_next_item(),
    {
        if *self.items() < *self.max_items() {
            let id: ItemId = *self.items();
            self._inc_items();
            return Some(id);
        }
        None
    }

    /// Gives the collection to `to`; nothing else in the record changes.
    fn transfer_collection(&mut self, to: &AccountId)
        ensures
            final(self).data() == (NFTokenCollectionRecord {
                account: *to,
                ..old(self).data()
            }),
    {
        *self._mut_account() = *to;
    }
}

impl CollectionRecordT for NFTokenCollectionRecord {
    open spec fn data(&self) -> NFTokenCollectionRecord {
        *self
    }

    fn account(&self) -> (r: &AccountId) {
        &self.account
    }

    fn collection_id(&self) -> (r: &CollectionId) {
        &self.collection_id
    }

    fn internal_id(&self) -> (r: &InternalCollectionId) {
        &self.internal_id
    }

    fn max_items(&self) -> (r: &ItemId) {
        &self.max_items
    }

    fn items(&self) -> (r: &ItemId) {
        &self.items
    }

    fn new(
        account: &AccountId,
        collection_id: CollectionId,
        internal_id: InternalCollectionId,
        max_items: ItemId,
        items: ItemId,
    ) -> (r: Self) {
        NFTokenCollectionRecord {
            account: *account,
            collection_id,
            internal_id,
            max_items,
            items,
        }
    }

    fn _inc_items(&mut self) {
        self.items = self.items.saturating_add(1);
    }

    fn _mut_account(&mut self) -> (r: &mut AccountId) {
        &mut self.account
    }
}

/// An item: who owns it, the hash that names it, its place in its
/// collection, and the pool behind it once it has been split into shares.
#[derive(Clone, Copy, Debug, PartialEq, Eq, Structural)]
pub struct NFTokenItemRecord {
    pub account: AccountId,
    pub fingerprint: Fingerprint,
    pub item_id: ItemId,
    pub collection_id: InternalCollectionId,
    pub fractional: Option<Fractional>,
}

/// What an item record offers, and the steps taken on one.
pub trait ItemRecordT: Sized {
    /// The record as plain data.
    spec fn data(&self) -> NFTokenItemRecord;

    fn account(&self) -> (r: &AccountId)
        ensures
            *r == self.data().account,
    ;

    fn fingerprint(&self) -> (r: &Fingerprint)
        ensures
            *r == self.data().fingerprint,
    ;

    fn item_id(&self) -> (r: &ItemId)
        ensures
            *r == self.data().item_id,
    ;

    fn collection_id(&self) -> (r: &InternalCollectionId)
        ensures
            *r == self.data().collection_id,
    ;

    fn fractional(&self) -> (r: Option<&Fractional>)
        ensures
            match r {
                Some(f) => self.data().fractional == Some(*f),
                None => self.data().fractional.is_none(),
            },
    ;

    fn new(
        account: &AccountId,
        fingerprint: Fingerprint,
        item_id: ItemId,
        collection_id: InternalCollectionId,
        fractional: Option<Fractional>,
    ) -> (r: Self)
        ensures
            r.data() == (NFTokenItemRecord {
                account: *account,
                fingerprint,
                item_id,
                collection_id,
                fractional,
            }),
    ;

    fn _mut_account(&mut self) -> (r: &mut AccountId)
        ensures
            *r == old(self).data().account,
            final(self).data() == (NFTokenItemRecord {
                account: *final(r),
                ..old(self).data()
            }),
    ;

    fn _mut_fractional(&mut self) -> (r: &mut Option<Fractional>)
        ensures
            *r == old(self).data().fractional,
            final(self).data() == (NFTokenItemRecord {
                fractional: *final(r),
                ..old(self).data()
            }),
    ;

    /// Whether the item has been split into shares.
    fn is_fractional(&self) -> (b: bool)
        ensures
            b == self.data().fractional.is_some(),
    {
        self.fractional().is_some()
    }

    /// Gives the item to `to`; nothing else in the record changes.
    fn transfer_item(&mut self, to: &AccountId)
        ensures
            final(self).data() == (NFTokenItemRecord { account: *to, ..old(self).data() }),
    {
        *self._mut_account() = *to;
    }

    /// Marks the item as split into the shares of `fractional`.
    fn set_fractional(&mut self, fractional: Fractional)
        ensures
            final(self).data() == (NFTokenItemRecord {
                fractional: Some(fractional),
                ..old(self).data()
            }),
    {
        *self._mut_fractional() = Some(fractional);
    }

    /// Makes the item whole again.
    fn fuse(&mut self)
        ensures
            final(self).data() == (NFTokenItemRecord { fractional: None, ..old(self).data() }),
    {
        *self._mut_fractional() = None;
    }
}

impl ItemRecordT for NFTokenItemRecord {
    open spec fn data(&self) -> NFTokenItemRecord {
        *self
    }

    fn account(&self) -> (r: &AccountId) {
        &self.account
    }

    fn fingerprint(&self) -> (r: &Fingerprint) {
        &self.fingerprint
    }

    fn item_id(&self) -> (r: &ItemId) {
        &self.item_id
    }

    fn collection_id(&self) -> (r: &InternalCollectionId) {
        &self.collection_id
    }

    fn fractional(&self) -> (r: Option<&Fractional>) {
        self.fractional.as_ref()
    }

    fn new(
        account: &AccountId,
        fingerprint: Fingerprint,
        item_id: ItemId,
        collection_id: InternalCollectionId,
        fractional: Option<Fractional>,
    ) -> (r: Self) {
        NFTokenItemRecord { account: *account, fingerprint, item_id, collection_id, fractional }
    }

    fn _mut_account(&mut self) -> (r: &mut AccountId) {
        &mut self.account
    }

    fn _mut_fractional(&mut self) -> (r: &mut Option<Fractional>) {
        &mut self.fractional
    }
}

/// The shares of one item that one account holds, with the holds and the
/// locks that lie on them.
#[derive(Clone, Copy, Debug, PartialEq, Eq, Structural)]
pub struct NFTokenFractionRecord {
    pub account: AccountId,
    pub fingerprint: Fingerprint,
    pub fractional: Fractional,
    pub amount: FractionAmount,
    pub holds: HoldCount,
    pub lock_mask: u8,
}

impl NFTokenFractionRecord {
    /// A hold lies on the shares.
    pub open spec fn held(self) -> bool {
        self.holds > 0
    }

    /// The shares may not be transferred: a hold lies on them, or a lock
    /// that forbids transfers.
    pub open spec fn blocked(self) -> bool {
        self.holds > 0 || self.lock_mask & 0b0001u8 == 0b0001u8
    }
}

/// What a fraction record offers, and the steps taken on one.
pub trait FractionRecordT: Sized {
    /// The record as plain data.
    spec fn data(&self) -> NFTokenFractionRecord;

    fn account(&self) -> (r: &AccountId)
        ensures
            *r == self.data().account,
    ;

    fn fingerprint(&self) -> (r: &Fingerprint)
        ensures
            *r == self.data().fingerprint,
    ;

    fn fractional(&self) -> (r: &Fractional)
        ensures
            *r == self.data().fractional,
    ;

    fn amount(&self) -> (r: &FractionAmount)
        ensures
            *r == self.data().amount,
    ;

    fn holds(&self) -> (r: &HoldCount)
        ensures
            *r == self.data().holds,
    ;

    fn lock_mask(&self) -> (r: FractionLockMask)
        ensures
            r.bits() == self.data().lock_mask,
    ;

    /// A record without any lock.
    fn new(
        account: &AccountId,
        fingerprint: Fingerprint,
        fractional: Fractional,
        amount: FractionAmount,
        holds: HoldCount,
    ) -> (r: Self)
        ensures
            r.data() == (NFTokenFractionRecord {
                account: *account,
                fingerprint,
                fractional,
                amount,
                holds,
                lock_mask: 0,
            }),
    ;

    fn _mut_amount(&mut self) -> (r: &mut FractionAmount)
        ensures
            *r == old(self).data().amount,
            final(self).data() == (NFTokenFractionRecord {
                amount: *final(r),
                ..old(self).data()
            }),
    ;

    fn _mut_holds(&mut self) -> (r: &mut HoldCount)
        ensures
            *r == old(self).data().holds,
            final(self).data() == (NFTokenFractionRecord {
                holds: *final(r),
                ..old(self).data()
            }),
    ;

    fn _mut_lock_mask(&mut self) -> (r: &mut u8)
        ensures
            *r == old(self).data().lock_mask,
            final(self).data() == (NFTokenFractionRecord {
                lock_mask: *final(r),
                ..old(self).data()
            }),
    ;

    /// Whether the record holds every share of its pool.
    fn can_fuse(&self) -> (b: bool)
        ensures
            b == (self.data().amount == self.data().fractional.total),
    {
        *self.amount() == self.fractional().total
    }

    /// Whether a hold lies on the shares.
    fn on_hold(&self) -> (b: bool)
        ensures
            b == self.data().held(),
    {
        *self.holds() != 0
    }

    /// Whether the shares may not be transferred.
    fn transfer_blocked(&self) -> (b: bool)
        ensures
            b == self.data().blocked(),
    {
        self.on_hold() || self.lock_mask().contains(FractionLockMask::transfer())
    }

    /// Adds `by` shares, or fails and changes nothing where the amount would
    /// leave its range.
    fn increase_amount(&mut self, by: FractionAmount) -> (r: Result<(), ()>)
        ensures
            r.is_ok() == (old(self).data().amount + by <= FractionAmount::MAX),
            r.is_ok() ==> final(self).data() == (NFTokenFractionRecord {
                amount: (old(self).data().amount + by) as FractionAmount,
                ..old(self).data()
            }),
            r.is_err() ==> final(self).data() == old(self).data(),
    {
        match self.amount().checked_add(by) {
            Some(sum) => {
                *self._mut_amount() = sum;
                Ok(())
            },
            None => Err(()),
        }
    }

    /// Takes `by` shares away, or fails and changes nothing where fewer are
    /// there.
    fn decrease_amount(&mut self, by: FractionAmount) -> (r: Result<(), ()>)
        ensures
            r.is_ok() == (by <= old(self).data().amount),
            r.is_ok() ==> final(self).data() == (NFTokenFractionRecord {
                amount: (old(self).data().amount - by) as FractionAmount,
                ..old(self).data()
            }),
            r.is_err() ==> final(self).data() == old(self).data(),
    {
        match self.amount().checked_sub(by) {
            Some(rest) => {
                *self._mut_amount() = rest;
                Ok(())
            },
            None => Err(()),
        }
    }

    /// Counts one more hold, or fails and changes nothing where the count
    /// would leave its range.
    fn inc_holds(&mut self) -> (r: Result<(), ()>)
        ensures
            r.is_ok() == (old(self).data().holds < HoldCount::MAX),
            r.is_ok() ==> final(self).data() == (NFTokenFractionRecord {
                holds: (old(self).data().holds + 1) as HoldCount,
                ..old(self).data()
            }),
            r.is_err() ==> final(self).data() == old(self).data(),
    {
        match self.holds().checked_add(1) {
            Some(n) => {
                *self._mut_holds() = n;
                Ok(())
            },
            None => Err(()),
        }
    }

    /// Counts one hold less, or fails and changes nothing where none is
    /// counted.
    fn dec_holds(&mut self) -> (r: Result<(), ()>)
        ensures
            r.is_ok() == (old(self).data().holds > 0),
            r.is_ok() ==> final(self).data() == (NFTokenFractionRecord {
                holds: (old(self).data().holds - 1) as HoldCount,
                ..old(self).data()
            }),
            r.is_err() ==> final(self).data() == old(self).data(),
    {
        match self.holds().checked_sub(1) {
            Some(n) => {
                *self._mut_holds() = n;
                Ok(())
            },
            None => Err(()),
        }
    }

    /// Sets the flags of `mask` in the lock mask of the record.
    fn lock(&mut self, mask: FractionLockMask)
        ensures
            final(self).data() == (NFTokenFractionRecord {
                lock_mask: old(self).data().lock_mask | mask.bits(),
                ..old(self).data()
            }),
    {
        let bits: u8 = self.lock_mask().or(mask).bits();
        *self._mut_lock_mask() = bits;
    }

    /// Clears the flags of `mask` in the lock mask of the record.
    fn unlock(&mut self, mask: FractionLockMask)
        ensures
            final(self).data() == (NFTokenFractionRecord {
                lock_mask: old(self).data().lock_mask & !mask.bits(),
                ..old(self).data()
            }),
    {
        let bits: u8 = self.lock_mask().and(mask.not()).bits();
        *self._mut_lock_mask() = bits;
    }
}

impl FractionRecordT for NFTokenFractionRecord {
    open spec fn data(&self) -> NFTokenFractionRecord {
        *self
    }

    fn account(&self) -> (r: &AccountId) {
        &self.account
    }

    fn fingerprint(&self) -> (r: &Fingerprint) {
        &self.fingerprint
    }

    fn fractional(&self) -> (r: &Fractional) {
        &self.fractional
    }

    fn amount(&self) -> (r: &FractionAmount) {
        &self.amount
    }

    fn holds(&self) -> (r: &HoldCount) {
        &self.holds
    }

    fn lock_mask(&self) -> (r: FractionLockMask) {
        FractionLockMask::from_bits(self.lock_mask)
    }

    fn new(
        account: &AccountId,
        fingerprint: Fingerprint,
        fractional: Fractional,
        amount: FractionAmount,
        holds: HoldCount,
    ) -> (r: Self) {
        NFTokenFractionRecord {
            account: *account,
            fingerprint,
            fractional,
            amount,
            holds,
            lock_mask: 0u8,
        }
    }

    fn _mut_amount(&mut self) -> (r: &mut FractionAmount) {
        &mut self.amount
    }

    fn _mut_holds(&mut self) -> (r: &mut HoldCount) {
        &mut self.holds
    }

    fn _mut_lock_mask(&mut self) -> (r: &mut u8) {
        &mut self.lock_mask
    }
}

} // verus!
