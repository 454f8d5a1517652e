//! The ledger as a mathematical value, and what each operation makes of it.
//!
//! A [`LedgerState`] holds the repositories of the ledger as sequences of
//! entries with distinct keys, read and changed with `lookup`, `put` and
//! `del`.
//! For each operation one spec function gives the result and the state that
//! follows, from the state before, the arguments, and the answers of the
//! backing store. Where an operation asks a store, a second spec function
//! gives the request that it makes first, or the error with which it stops
//! before asking, and a third gives all that it asks, with the answers.

use vstd::prelude::*;
use sp_runtime::DispatchError;
use crate::backing::{
    CreateClass, CreatePool, Exchange, MintToken, MoveShares, MoveToken, PoolOrder,
};
use crate::error::Error;
use crate::guard::{after_draw, drawn, GuardData, HoldKey, LockGuard};
use crate::ids::{
    AccountId, CollectionId, FTokenId, Fingerprint, FractionAmount, FractionHolderId,
    FractionKey, HoldCount, InternalCollectionId, ItemId, LockNumber, Timepoint,
};
use crate::lock::FractionLockMask;
use crate::records::{
    Fractional, NFTokenCollectionRecord, NFTokenFractionRecord, NFTokenItemRecord,
};
use crate::table::{del, has_key, lookup, put};

verus! {

/// The state of the ledger.
pub struct LedgerState {
    /// The collections, by the identifier under which callers know them.
    pub collections: Seq<(CollectionId, NFTokenCollectionRecord)>,
    /// The items, by fingerprint.
    pub items: Seq<(Fingerprint, NFTokenItemRecord)>,
    /// The shares, by item and holder.
    pub fractions: Seq<(FractionKey, NFTokenFractionRecord)>,
    /// The pool and total of each fractionalized item, by fingerprint.
    pub fractionals: Seq<(Fingerprint, Fractional)>,
    /// The item behind each pool.
    pub pools: Seq<(FTokenId, Fingerprint)>,
    /// The holds that are outstanding.
    pub holds: Seq<(HoldKey, (FractionHolderId, LockGuard))>,
    /// The next guard number of each transaction that drew one.
    pub lock_numbers: Seq<(Timepoint, LockNumber)>,
    /// The identifier that the next collection gets.
    pub next_collection_id: InternalCollectionId,
    /// The transaction that is under way.
    pub timepoint: Timepoint,
}

/// The key of the shares of `fingerprint` that `account` holds.
pub open spec fn fraction_key(fingerprint: Fingerprint, account: AccountId) -> FractionKey {
    FractionKey { fingerprint, account }
}

/// The key under which `fraction` is stored.
pub open spec fn record_key(fraction: NFTokenFractionRecord) -> FractionKey {
    FractionKey { fingerprint: fraction.fingerprint, account: fraction.account }
}

/// The key of the hold on `fraction` that `holder_id` placed under `guard`.
pub open spec fn hold_key(
    fraction: NFTokenFractionRecord,
    holder_id: FractionHolderId,
    guard: LockGuard,
) -> HoldKey {
    HoldKey { fingerprint: fraction.fingerprint, account: fraction.account, holder_id, guard }
}

/// The number of shares of `fingerprint` that `account` holds according to
/// `fractions`.
pub open spec fn holding(
    fractions: Seq<(FractionKey, NFTokenFractionRecord)>,
    fingerprint: Fingerprint,
    account: AccountId,
) -> FractionAmount {
    match lookup(fractions, fraction_key(fingerprint, account)) {
        Some(r) => r.amount,
        None => 0,
    }
}

/// `fractions` with `amount` more shares of `fingerprint` for `account`,
/// whose record then carries `tag`. A record that was there keeps its holds
/// and locks; a new one has none.
pub open spec fn credit(
    fractions: Seq<(FractionKey, NFTokenFractionRecord)>,
    fingerprint: Fingerprint,
    account: AccountId,
    amount: FractionAmount,
    tag: Fractional,
) -> Seq<(FractionKey, NFTokenFractionRecord)> {
    let key = fraction_key(fingerprint, account);
    match lookup(fractions, key) {
        Some(r) => put(
            fractions,
            key,
            NFTokenFractionRecord {
                amount: (r.amount + amount) as FractionAmount,
                fractional: tag,
                ..r
            },
        ),
        None => put(
            fractions,
            key,
            NFTokenFractionRecord {
                account,
                fingerprint,
                fractional: tag,
                amount,
                holds: 0,
                lock_mask: 0,
            },
        ),
    }
}

/// `fractions` with `amount` fewer shares of `fingerprint` for `account`,
/// whose record then carries `tag`. A record that is left without shares is
/// removed.
pub open spec fn debit(
    fractions: Seq<(FractionKey, NFTokenFractionRecord)>,
    fingerprint: Fingerprint,
    account: AccountId,
    amount: FractionAmount,
    tag: Fractional,
) -> Seq<(FractionKey, NFTokenFractionRecord)> {
    let key = fraction_key(fingerprint, account);
    match lookup(fractions, key) {
        Some(r) => if r.amount == amount {
            del(fractions, key)
        } else {
            put(
                fractions,
                key,
                NFTokenFractionRecord {
                    amount: (r.amount - amount) as FractionAmount,
                    fractional: tag,
                    ..r
                },
            )
        },
        None => fractions,
    }
}

impl LedgerState {
    /// The state of a ledger that holds nothing yet.
    pub open spec fn empty(timepoint: Timepoint) -> LedgerState {
        LedgerState {
            collections: Seq::empty(),
            items: Seq::empty(),
            fractions: Seq::empty(),
            fractionals: Seq::empty(),
            pools: Seq::empty(),
            holds: Seq::empty(),
            lock_numbers: Seq::empty(),
            next_collection_id: 0,
            timepoint,
        }
    }

    /// `collection` is the record that the ledger holds of its collection.
    pub open spec fn live_collection(self, collection: NFTokenCollectionRecord) -> bool {
        lookup(self.collections, collection.collection_id) == Some(collection)
    }

    /// `item` is the record that the ledger holds of its item.
    pub open spec fn live_item(self, item: NFTokenItemRecord) -> bool {
        lookup(self.items, item.fingerprint) == Some(item)
    }

    /// `fraction` is the record that the ledger holds of its shares.
    pub open spec fn live_fraction(self, fraction: NFTokenFractionRecord) -> bool {
        lookup(self.fractions, record_key(fraction)) == Some(fraction)
    }

    /// The request that creating a collection makes of the token store: a
    /// class under the next internal identifier, owned and administered by
    /// `account`. A capacity of zero is a bad value; where the last
    /// identifier is reached the count of collections overflows.
    pub open spec fn create_collection_order(self, account: AccountId, max_items: ItemId)
        -> Result<CreateClass, Error> {
        if max_items == 0 {
            Err(Error::BadValue)
        } else if self.next_collection_id == InternalCollectionId::MAX {
            Err(Error::Overflow)
        } else {
            Ok(CreateClass { class: self.next_collection_id, who: account, admin: account })
        }
    }

    /// Creating a collection, where the token store answered `created`.
    /// The identifier of the collection is used up even where the store
    /// refuses.
    pub open spec fn create_collection(
        self,
        account: AccountId,
        id: CollectionId,
        max_items: ItemId,
        created: Result<(), DispatchError>,
    ) -> (Result<(), Error>, LedgerState) {
        match self.create_collection_order(account, max_items) {
            Err(e) => (Err(e), self),
            Ok(order) => {
                let counted = LedgerState {
                    next_collection_id: (self.next_collection_id + 1) as InternalCollectionId,
                    ..self
                };
                match created {
                    Err(e) => (Err(Error::Backing(e)), counted),
                    Ok(_) => (
                        Ok(()),
                        LedgerState {
                            collections: put(
                                self.collections,
                                id,
                                NFTokenCollectionRecord {
                                    account,
                                    collection_id: id,
                                    internal_id: order.class,
                                    max_items,
                                    items: 0,
                                },
                            ),
                            ..counted
                        },
                    ),
                }
            },
        }
    }

    /// What creating a collection asks of the token store, where the store
    /// answers `created`.
    pub open spec fn create_collection_asks(
        self,
        account: AccountId,
        max_items: ItemId,
        created: Result<(), DispatchError>,
    ) -> Seq<Exchange> {
        match self.create_collection_order(account, max_items) {
            Err(_) => seq![],
            Ok(order) => seq![Exchange::CreateClass(order, created)],
        }
    }

    /// The request that minting an item makes of the token store: the next
    /// token of the class of the collection, for the owner of the
    /// collection. Permission is wanting where the fingerprint names an item
    /// already, or where the collection is full; a record that is not the
    /// one that the ledger holds names an unknown collection.
    pub open spec fn mint_item_order(
        self,
        collection: NFTokenCollectionRecord,
        fingerprint: Fingerprint,
    ) -> Result<MintToken, Error> {
        if has_key(self.items, fingerprint) {
            Err(Error::NoPermission)
        } else if collection.items >= collection.max_items {
            Err(Error::NoPermission)
        } else if !self.live_collection(collection) {
            Err(Error::UnknownCollection)
        } else {
            Ok(
                MintToken {
                    class: collection.internal_id,
                    instance: collection.items,
                    who: collection.account,
                },
            )
        }
    }

    /// Minting an item, where the token store answered `minted`: the
    /// collection counts one more item, and the new item is whole and
    /// belongs to the owner of the collection.
    pub open spec fn mint_item(
        self,
        collection: NFTokenCollectionRecord,
        fingerprint: Fingerprint,
        minted: Result<(), DispatchError>,
    ) -> (Result<(), Error>, LedgerState) {
        match self.mint_item_order(collection, fingerprint) {
            Err(e) => (Err(e), self),
            Ok(order) => match minted {
                Err(e) => (Err(Error::Backing(e)), self),
                Ok(_) => (
                    Ok(()),
                    LedgerState {
                        collections: put(
                            self.collections,
                            collection.collection_id,
                            collection.with_next_item(),
                        ),
                        items: put(
                            self.items,
                            fingerprint,
                            NFTokenItemRecord {
                                account: collection.account,
                                fingerprint,
                                item_id: order.instance,
                                collection_id: collection.internal_id,
                                fractional: None,
                            },
                        ),
                        ..self
                    },
                ),
            },
        }
    }

    /// What minting an item asks of the token store, where the store
    /// answers `minted`.
    pub open spec fn mint_item_asks(
        self,
        collection: NFTokenCollectionRecord,
        fingerprint: Fingerprint,
        minted: Result<(), DispatchError>,
    ) -> Seq<Exchange> {
        match self.mint_item_order(collection, fingerprint) {
            Err(_) => seq![],
            Ok(order) => seq![Exchange::MintToken(order, minted)],
        }
    }

    /// Giving a collection to `to`: the owner changes and nothing else. A
    /// record that is not the one that the ledger holds names an unknown
    /// collection.
    pub open spec fn transfer_collection(self, collection: NFTokenCollectionRecord, to: AccountId)
        -> (Result<(), Error>, LedgerState) {
        if !self.live_collection(collection) {
            (Err(Error::UnknownCollection), self)
        } else {
            (
                Ok(()),
                LedgerState {
                    collections: put(
                        self.collections,
                        collection.collection_id,
                        NFTokenCollectionRecord { account: to, ..collection },
                    ),
                    ..self
                },
            )
        }
    }

    /// The request that giving an item away makes of the token store.
    /// Permission is wanting where the item is fractionalized: its shares
    /// are owned then, not the item. A record that is not the one that the
    /// ledger holds names an unknown item.
    pub open spec fn transfer_item_order(self, item: NFTokenItemRecord, to: AccountId) -> Result<
        MoveToken,
        Error,
    > {
        if item.fractional.is_some() {
            Err(Error::NoPermission)
        } else if !self.live_item(item) {
            Err(Error::UnknownItem)
        } else {
            Ok(MoveToken { class: item.collection_id, instance: item.item_id, destination: to })
        }
    }

    /// Giving an item to `to`, where the token store answered `moved`.
    pub open spec fn transfer_item(
        self,
        item: NFTokenItemRecord,
        to: AccountId,
        moved: Result<(), DispatchError>,
    ) -> (Result<(), Error>, LedgerState) {
        match self.transfer_item_order(item, to) {
            Err(e) => (Err(e), self),
            Ok(_) => match moved {
                Err(e) => (Err(Error::Backing(e)), self),
                Ok(_) => (
                    Ok(()),
                    LedgerState {
                        items: put(
                            self.items,
                            item.fingerprint,
                            NFTokenItemRecord { account: to, ..item },
                        ),
                        ..self
                    },
                ),
            },
        }
    }

    /// What giving an item away asks of the token store, where the store
    /// answers `moved`.
    pub open spec fn transfer_item_asks(
        self,
        item: NFTokenItemRecord,
        to: AccountId,
        moved: Result<(), DispatchError>,
    ) -> Seq<Exchange> {
        match self.transfer_item_order(item, to) {
            Err(_) => seq![],
            Ok(order) => seq![Exchange::MoveToken(order, moved)],
        }
    }

    /// The state in which `account` holds `amount` more shares of `item`,
    /// whose pool and total are then `tag`.
    pub open spec fn credited(
        self,
        item: NFTokenItemRecord,
        account: AccountId,
        amount: FractionAmount,
        tag: Fractional,
    ) -> LedgerState {
        LedgerState {
            items: put(
                self.items,
                item.fingerprint,
                NFTokenItemRecord { fractional: Some(tag), ..item },
            ),
            fractionals: put(self.fractionals, item.fingerprint, tag),
            fractions: credit(self.fractions, item.fingerprint, account, amount, tag),
            ..self
        }
    }

    /// The state in which `account` holds `amount` fewer shares of `item`,
    /// whose pool and total are then `tag`.
    pub open spec fn debited(
        self,
        item: NFTokenItemRecord,
        account: AccountId,
        amount: FractionAmount,
        tag: Fractional,
    ) -> LedgerState {
        LedgerState {
            items: put(
                self.items,
                item.fingerprint,
                NFTokenItemRecord { fractional: Some(tag), ..item },
            ),
            fractionals: put(self.fractionals, item.fingerprint, tag),
            fractions: debit(self.fractions, item.fingerprint, account, amount, tag),
            ..self
        }
    }

    /// The request for a pool that splitting an item makes of the share
    /// store: a pool of the owner of the item, with a minimum balance of
    /// one. A total of zero is a bad value; permission is wanting where the
    /// item is fractionalized already; a record that is not the one that the
    /// ledger holds names an unknown item.
    pub open spec fn fractionalize_order(self, item: NFTokenItemRecord, total: FractionAmount)
        -> Result<CreatePool, Error> {
        if total == 0 {
            Err(Error::BadValue)
        } else if item.fractional.is_some() {
            Err(Error::NoPermission)
        } else if !self.live_item(item) {
            Err(Error::UnknownItem)
        } else {
            Ok(CreatePool { account: item.account, minimum_balance: 1 })
        }
    }

    /// The request to mint that splitting `item` makes of the share store
    /// once the store has created the pool `ft_id`; the request to forbid
    /// further minting names the same pool and account.
    pub open spec fn fractionalize_mint_order(
        item: NFTokenItemRecord,
        total: FractionAmount,
        ft_id: FTokenId,
    ) -> PoolOrder {
        PoolOrder { ft_id, who: item.account, amount: total }
    }

    /// Splitting an item into `total` shares, all for its owner. The share
    /// store answered `pool` to the request for a pool, `may_mint` to the
    /// question whether the owner may mint in it, `minted` to the request to
    /// mint the shares and, where `limited` is set, `locked` to the request
    /// to forbid further minting. The first refusal ends the operation, and
    /// the ledger is then as it was.
    pub open spec fn fractionalize(
        self,
        item: NFTokenItemRecord,
        total: FractionAmount,
        limited: bool,
        pool: Result<FTokenId, DispatchError>,
        may_mint: bool,
        minted: Result<(), DispatchError>,
        locked: Result<(), DispatchError>,
    ) -> (Result<(), Error>, LedgerState) {
        match self.fractionalize_order(item, total) {
            Err(e) => (Err(e), self),
            Ok(_) => match pool {
                Err(e) => (Err(Error::Backing(e)), self),
                Ok(ft_id) => if !may_mint {
                    (Err(Error::NoPermission), self)
                } else {
                    match minted {
                        Err(e) => (Err(Error::Backing(e)), self),
                        Ok(_) => if limited && locked.is_err() {
                            (Err(Error::Backing(locked->Err_0)), self)
                        } else {
                            let tag = Fractional { ft_id, total };
                            let split = self.credited(item, item.account, total, tag);
                            (
                                Ok(()),
                                LedgerState {
                                    pools: put(self.pools, ft_id, item.fingerprint),
                                    ..split
                                },
                            )
                        },
                    }
                },
            },
        }
    }

    /// What splitting an item asks of the share store, where the store
    /// answers `pool`, `may_mint`, `minted` and `locked`: a pool; then
    /// whether the owner may mint in it; then, where that is so, to mint the
    /// shares; and then, where that was done and `limited` is set, to
    /// forbid further minting. A refusal ends the list.
    pub open spec fn fractionalize_asks(
        self,
        item: NFTokenItemRecord,
        total: FractionAmount,
        limited: bool,
        pool: Result<FTokenId, DispatchError>,
        may_mint: bool,
        minted: Result<(), DispatchError>,
        locked: Result<(), DispatchError>,
    ) -> Seq<Exchange> {
        match self.fractionalize_order(item, total) {
            Err(_) => seq![],
            Ok(order) => {
                let created = seq![Exchange::CreatePool(order, pool)];
                match pool {
                    Err(_) => created,
                    Ok(ft_id) => {
                        let mint = Self::fractionalize_mint_order(item, total, ft_id);
                        let queried = created.push(
                            Exchange::MayMint(ft_id, mint.who, may_mint),
                        );
                        if !may_mint {
                            queried
                        } else {
                            let asked = queried.push(
                                Exchange::MintShares(mint, minted),
                            );
                            if minted.is_ok() && limited {
                                asked.push(
                                    Exchange::LockMinting(ft_id, mint.who, locked),
                                )
                            } else {
                                asked
                            }
                        }
                    },
                }
            },
        }
    }

    /// What minting shares would ask the share store to mint, were it
    /// permitted: the question whether `who` may mint is asked about the pool
    /// and the account of this request. An amount of zero is a bad value; a
    /// whole item has no shares to mint; a record that is not the one that
    /// the ledger holds names an unknown item.
    pub open spec fn mint_fraction_query(
        self,
        item: NFTokenItemRecord,
        who: AccountId,
        amount: FractionAmount,
    ) -> Result<PoolOrder, Error> {
        if amount == 0 {
            Err(Error::BadValue)
        } else {
            match item.fractional {
                None => Err(Error::NotFractionalized),
                Some(fractional) => if !self.live_item(item) {
                    Err(Error::UnknownItem)
                } else {
                    Ok(PoolOrder { ft_id: fractional.ft_id, who, amount })
                },
            }
        }
    }

    /// The request that minting shares makes of the share store, where the
    /// store answered `may_mint` to the question whether `who` may mint.
    /// Permission is wanting where the store forbids; after that, the
    /// operation overflows where the total of the pool would leave its
    /// range. Both are settled before the store is asked to mint.
    pub open spec fn mint_fraction_order(
        self,
        item: NFTokenItemRecord,
        who: AccountId,
        amount: FractionAmount,
        may_mint: bool,
    ) -> Result<PoolOrder, Error> {
        match self.mint_fraction_query(item, who, amount) {
            Err(e) => Err(e),
            Ok(order) => if !may_mint {
                Err(Error::NoPermission)
            } else if item.fractional.unwrap().total + amount > FractionAmount::MAX {
                Err(Error::Overflow)
            } else {
                Ok(order)
            },
        }
    }

    /// What minting shares asks of the share store, where the store
    /// answers `may_mint` and `minted`: whether `who` may mint, and then,
    /// where that is so and the total stays in its range, to mint.
    pub open spec fn mint_fraction_asks(
        self,
        item: NFTokenItemRecord,
        who: AccountId,
        amount: FractionAmount,
        may_mint: bool,
        minted: Result<(), DispatchError>,
    ) -> Seq<Exchange> {
        match self.mint_fraction_query(item, who, amount) {
            Err(_) => seq![],
            Ok(query) => {
                let queried = seq![Exchange::MayMint(query.ft_id, query.who, may_mint)];
                match self.mint_fraction_order(item, who, amount, may_mint) {
                    Err(_) => queried,
                    Ok(order) => queried.push(Exchange::MintShares(order, minted)),
                }
            },
        }
    }

    /// Minting `amount` shares of `item` to `who`, where the share store
    /// answered `may_mint` to the question whether `who` may mint, and then
    /// `minted`: the total of the pool and the shares of `who` both grow by
    /// `amount`.
    pub open spec fn mint_fraction(
        self,
        item: NFTokenItemRecord,
        who: AccountId,
        amount: FractionAmount,
        may_mint: bool,
        minted: Result<(), DispatchError>,
    ) -> (Result<(), Error>, LedgerState) {
        match self.mint_fraction_order(item, who, amount, may_mint) {
            Err(e) => (Err(e), self),
            Ok(order) => match minted {
                Err(e) => (Err(Error::Backing(e)), self),
                Ok(_) => {
                    let tag = Fractional {
                        ft_id: order.ft_id,
                        total: (item.fractional.unwrap().total + amount) as FractionAmount,
                    };
                    (Ok(()), self.credited(item, who, amount, tag))
                },
            },
        }
    }

    /// The request that burning shares makes of the share store. Only the
    /// owner of the item burns; an amount of zero is a bad value; a whole
    /// item has no shares to burn; an amount above the total of the pool is
    /// more than is there; a record that is not the one that the ledger
    /// holds names an unknown item. Holds on the shares of the owner do not
    /// stand in the way: a hold forbids transfers.
    pub open spec fn burn_fraction_order(
        self,
        item: NFTokenItemRecord,
        who: AccountId,
        amount: FractionAmount,
    ) -> Result<PoolOrder, Error> {
        if item.account != who {
            Err(Error::WrongOwner)
        } else if amount == 0 {
            Err(Error::BadValue)
        } else {
            match item.fractional {
                None => Err(Error::NotFractionalized),
                Some(fractional) => if amount > fractional.total {
                    Err(Error::InsufficientBalance)
                } else if !self.live_item(item) {
                    Err(Error::UnknownItem)
                } else {
                    Ok(PoolOrder { ft_id: fractional.ft_id, who, amount })
                },
            }
        }
    }

    /// Taking `withdrawn` shares of `fingerprint` from `who` would empty a
    /// record on which holds lie. Such a record cannot be removed, since
    /// its holds are still outstanding, and cannot stay, since no record
    /// without shares does.
    pub open spec fn empties_held(
        self,
        fingerprint: Fingerprint,
        who: AccountId,
        withdrawn: FractionAmount,
    ) -> bool {
        match lookup(self.fractions, fraction_key(fingerprint, who)) {
            Some(r) => r.amount == withdrawn && r.holds > 0,
            None => false,
        }
    }

    /// What burning shares asks of the share store, where the store
    /// answers `may_burn` and `burned`: whether `who` may burn, and then,
    /// where that is so, to burn.
    pub open spec fn burn_fraction_asks(
        self,
        item: NFTokenItemRecord,
        who: AccountId,
        amount: FractionAmount,
        may_burn: bool,
        burned: Result<FractionAmount, DispatchError>,
    ) -> Seq<Exchange> {
        match self.burn_fraction_order(item, who, amount) {
            Err(_) => seq![],
            Ok(order) => {
                let queried = seq![
                    Exchange::MayBurn(order.ft_id, order.who, may_burn),
                ];
                if may_burn {
                    queried.push(Exchange::BurnShares(order, burned))
                } else {
                    queried
                }
            },
        }
    }

    /// Burning `amount` shares of `item` that its owner `who` holds, where
    /// the share store answered `may_burn` to the question whether `who`
    /// may burn, and then `burned`: the amount that it withdrew, which is
    /// the amount that leaves the ledger. Permission is wanting where the
    /// store forbids. Otherwise the total of the pool and the shares of the
    /// owner both shrink by the amount withdrawn. The operation overflows
    /// where either holds less than was withdrawn; and where the withdrawal
    /// would empty a record of the owner on which holds lie, permission is
    /// wanting and the ledger stays as it was.
    pub open spec fn burn_fraction(
        self,
        item: NFTokenItemRecord,
        who: AccountId,
        amount: FractionAmount,
        may_burn: bool,
        burned: Result<FractionAmount, DispatchError>,
    ) -> (Result<FractionAmount, Error>, LedgerState) {
        match self.burn_fraction_order(item, who, amount) {
            Err(e) => (Err(e), self),
            Ok(order) => if !may_burn {
                (Err(Error::NoPermission), self)
            } else {
                match burned {
                    Err(e) => (Err(Error::Backing(e)), self),
                    Ok(withdrawn) => if withdrawn > item.fractional.unwrap().total || withdrawn
                        > holding(self.fractions, item.fingerprint, who) {
                        (Err(Error::Overflow), self)
                    } else if self.empties_held(item.fingerprint, who, withdrawn) {
                        (Err(Error::NoPermission), self)
                    } else {
                        let tag = Fractional {
                            ft_id: order.ft_id,
                            total: (item.fractional.unwrap().total
                                - withdrawn) as FractionAmount,
                        };
                        (Ok(withdrawn), self.debited(item, who, withdrawn, tag))
                    },
                }
            },
        }
    }

    /// The record to which a transfer from `donor` to `to` adds: the one
    /// that `to` has, or an empty one with the tag of the donor.
    pub open spec fn recipient(self, donor: NFTokenFractionRecord, to: AccountId)
        -> NFTokenFractionRecord {
        match lookup(self.fractions, fraction_key(donor.fingerprint, to)) {
            Some(r) => r,
            None => NFTokenFractionRecord {
                account: to,
                fingerprint: donor.fingerprint,
                fractional: donor.fractional,
                amount: 0,
                holds: 0,
                lock_mask: 0,
            },
        }
    }

    /// The request that a transfer of shares makes of the share store. A
    /// transfer to the donor itself has a bad target; an amount of zero is
    /// a bad value; permission is wanting where the shares of the donor are
    /// held or locked against transfer; an amount above the shares of the
    /// donor is more than is there; a record that is not the one that the
    /// ledger holds names an unknown item; permission is wanting where a
    /// hold lies on the shares of `to`; and the operation overflows where
    /// the shares of `to` would leave their range.
    pub open spec fn transfer_fraction_order(
        self,
        donor: NFTokenFractionRecord,
        to: AccountId,
        amount: FractionAmount,
    ) -> Result<MoveShares, Error> {
        if donor.account == to {
            Err(Error::BadTarget)
        } else if amount == 0 {
            Err(Error::BadValue)
        } else if donor.blocked() {
            Err(Error::NoPermission)
        } else if amount > donor.amount {
            Err(Error::InsufficientBalance)
        } else if !self.live_fraction(donor) {
            Err(Error::UnknownItem)
        } else if self.recipient(donor, to).held() {
            Err(Error::NoPermission)
        } else if self.recipient(donor, to).amount + amount > FractionAmount::MAX {
            Err(Error::Overflow)
        } else {
            Ok(MoveShares { ft_id: donor.fractional.ft_id, from: donor.account, to, amount })
        }
    }

    /// What a transfer of shares asks of the share store, where the store
    /// answers `moved`.
    pub open spec fn transfer_fraction_asks(
        self,
        donor: NFTokenFractionRecord,
        to: AccountId,
        amount: FractionAmount,
        moved: Result<(), DispatchError>,
    ) -> Seq<Exchange> {
        match self.transfer_fraction_order(donor, to, amount) {
            Err(_) => seq![],
            Ok(order) => seq![Exchange::MoveShares(order, moved)],
        }
    }

    /// The shares after `amount` of them went from `donor` to `to`: the
    /// record of `to` has them added, and the record of the donor has them
    /// taken away, or is removed where none are left.
    pub open spec fn moved_fractions(
        self,
        donor: NFTokenFractionRecord,
        to: AccountId,
        amount: FractionAmount,
    ) -> Seq<(FractionKey, NFTokenFractionRecord)> {
        let r = self.recipient(donor, to);
        let given = put(
            self.fractions,
            fraction_key(donor.fingerprint, to),
            NFTokenFractionRecord { amount: (r.amount + amount) as FractionAmount, ..r },
        );
        if donor.amount == amount {
            del(given, record_key(donor))
        } else {
            put(
                given,
                record_key(donor),
                NFTokenFractionRecord {
                    amount: (donor.amount - amount) as FractionAmount,
                    ..donor
                },
            )
        }
    }

    /// Moving `amount` shares from `donor` to `to`, where the share store
    /// answered `moved`.
    pub open spec fn transfer_fraction(
        self,
        donor: NFTokenFractionRecord,
        to: AccountId,
        amount: FractionAmount,
        moved: Result<(), DispatchError>,
    ) -> (Result<(), Error>, LedgerState) {
        match self.transfer_fraction_order(donor, to, amount) {
            Err(e) => (Err(e), self),
            Ok(_) => match moved {
                Err(e) => (Err(Error::Backing(e)), self),
                Ok(_) => (
                    Ok(()),
                    LedgerState { fractions: self.moved_fractions(donor, to, amount), ..self },
                ),
            },
        }
    }

    /// The guard that the transaction under way gets next for `mask`.
    pub open spec fn next_guard(self, mask: u8) -> Option<LockGuard> {
        match drawn(self.lock_numbers, self.timepoint) {
            Some(number) => Some(
                LockGuard::issued(GuardData { timepoint: self.timepoint, number, mask }),
            ),
            None => None,
        }
    }

    /// Locking `fraction` with `mask`: the flags of `mask` are set on the
    /// record, and the guard issued carries them. A record that is not the
    /// one that the ledger holds names an unknown item; where the
    /// transaction has no guard number left, the operation overflows and
    /// nothing is locked.
    pub open spec fn lock_fraction(self, fraction: NFTokenFractionRecord, mask: FractionLockMask)
        -> (Result<LockGuard, Error>, LedgerState) {
        if !self.live_fraction(fraction) {
            (Err(Error::UnknownItem), self)
        } else {
            match self.next_guard(mask.bits()) {
                None => (Err(Error::Overflow), self),
                Some(guard) => (
                    Ok(guard),
                    LedgerState {
                        fractions: put(
                            self.fractions,
                            record_key(fraction),
                            NFTokenFractionRecord {
                                lock_mask: fraction.lock_mask | mask.bits(),
                                ..fraction
                            },
                        ),
                        lock_numbers: after_draw(self.lock_numbers, self.timepoint),
                        ..self
                    },
                ),
            }
        }
    }

    /// Placing a hold of `holder_id` on `fraction`: the hold is entered
    /// under the guard issued for it, which carries no flags, and the record
    /// counts one more hold. A record that is not the one that the ledger
    /// holds names an unknown item; the operation overflows where the
    /// transaction has no guard number left, or the record cannot count one
    /// more hold; permission is wanting where a hold stands under the very
    /// key already.
    pub open spec fn hold_fraction(
        self,
        fraction: NFTokenFractionRecord,
        holder_id: FractionHolderId,
    ) -> (Result<LockGuard, Error>, LedgerState) {
        if !self.live_fraction(fraction) {
            (Err(Error::UnknownItem), self)
        } else {
            match self.next_guard(0) {
                None => (Err(Error::Overflow), self),
                Some(guard) => if has_key(self.holds, hold_key(fraction, holder_id, guard)) {
                    (Err(Error::NoPermission), self)
                } else if fraction.holds == HoldCount::MAX {
                    (Err(Error::Overflow), self)
                } else {
                    (
                        Ok(guard),
                        LedgerState {
                            holds: put(
                                self.holds,
                                hold_key(fraction, holder_id, guard),
                                (holder_id, guard),
                            ),
                            fractions: put(
                                self.fractions,
                                record_key(fraction),
                                NFTokenFractionRecord {
                                    holds: (fraction.holds + 1) as HoldCount,
                                    ..fraction
                                },
                            ),
                            lock_numbers: after_draw(self.lock_numbers, self.timepoint),
                            ..self
                        },
                    )
                },
            }
        }
    }

    /// Releasing the hold that `holder_id` placed on `fraction` under
    /// `guard`: the hold is removed, and the record counts one hold less.
    /// Permission is wanting where no such hold stands; a record that is not
    /// the one that the ledger holds names an unknown item; the operation
    /// overflows where the record counts no hold.
    pub open spec fn unhold_fraction(
        self,
        fraction: NFTokenFractionRecord,
        holder_id: FractionHolderId,
        guard: LockGuard,
    ) -> (Result<(), Error>, LedgerState) {
        if !has_key(self.holds, hold_key(fraction, holder_id, guard)) {
            (Err(Error::NoPermission), self)
        } else if !self.live_fraction(fraction) {
            (Err(Error::UnknownItem), self)
        } else if fraction.holds == 0 {
            (Err(Error::Overflow), self)
        } else {
            (
                Ok(()),
                LedgerState {
                    holds: del(self.holds, hold_key(fraction, holder_id, guard)),
                    fractions: put(
                        self.fractions,
                        record_key(fraction),
                        NFTokenFractionRecord {
                            holds: (fraction.holds - 1) as HoldCount,
                            ..fraction
                        },
                    ),
                    ..self
                },
            )
        }
    }
}

} // verus!
