//! What holds of the ledger between any two operations.

use vstd::prelude::*;
use sp_runtime::DispatchError;
use crate::guard::{after_draw, drawn, next_number, HoldKey, LockGuard};
use crate::ids::{
    AccountId, CollectionId, FTokenId, Fingerprint, FractionAmount, FractionHolderId,
    FractionKey, HoldCount, ItemId, LockNumber, Timepoint,
};
use crate::lock::FractionLockMask;
use crate::model::{fraction_key, hold_key, holding, record_key, LedgerState};
use crate::records::{
    Fractional, NFTokenCollectionRecord, NFTokenFractionRecord, NFTokenItemRecord,
};
use crate::table::{
    distinct_keys, has_key, lemma_del, lemma_put, lemma_sum_bounds, lemma_sum_del,
    lemma_sum_put, lookup, put, sum_by,
};

verus! {

/// The weight of a fraction record when the shares of `fingerprint` are
/// counted: its amount where it is of that item, and nothing otherwise.
pub open spec fn share_weight(fingerprint: Fingerprint) -> spec_fn(
    FractionKey,
    NFTokenFractionRecord,
) -> nat {
    |k: FractionKey, r: NFTokenFractionRecord|
        if k.fingerprint == fingerprint {
            r.amount as nat
        } else {
            0nat
        }
}

/// The weight of a hold when the holds on the fraction `key` are counted:
/// one where it lies on that fraction, and nothing otherwise.
pub open spec fn hold_weight(key: FractionKey) -> spec_fn(
    HoldKey,
    (FractionHolderId, LockGuard),
) -> nat {
    |k: HoldKey, v: (FractionHolderId, LockGuard)|
        if k.fingerprint == key.fingerprint && k.account == key.account {
            1nat
        } else {
            0nat
        }
}

/// The sum of the shares of `fingerprint` over all who hold some.
pub open spec fn shares_held(
    fractions: Seq<(FractionKey, NFTokenFractionRecord)>,
    fingerprint: Fingerprint,
) -> nat {
    sum_by(fractions, share_weight(fingerprint))
}

/// The total that the item `fingerprint` declares: that of its pool where
/// it is fractionalized, and nothing otherwise.
pub open spec fn declared_total(
    items: Seq<(Fingerprint, NFTokenItemRecord)>,
    fingerprint: Fingerprint,
) -> nat {
    match lookup(items, fingerprint) {
        Some(item) => match item.fractional {
            Some(fractional) => fractional.total as nat,
            None => 0,
        },
        None => 0,
    }
}

/// The number of outstanding holds on the fraction `key`.
pub open spec fn holds_placed(
    holds: Seq<(HoldKey, (FractionHolderId, LockGuard))>,
    key: FractionKey,
) -> nat {
    sum_by(holds, hold_weight(key))
}

/// The number of holds that the record of the fraction `key` counts.
pub open spec fn holds_counted(
    fractions: Seq<(FractionKey, NFTokenFractionRecord)>,
    key: FractionKey,
) -> nat {
    match lookup(fractions, key) {
        Some(r) => r.holds as nat,
        None => 0,
    }
}

impl LedgerState {
    /// No repository holds two entries under one key.
    pub open spec fn keys_distinct(self) -> bool {
        &&& distinct_keys(self.collections)
        &&& distinct_keys(self.items)
        &&& distinct_keys(self.fractions)
        &&& distinct_keys(self.fractionals)
        &&& distinct_keys(self.pools)
        &&& distinct_keys(self.holds)
        &&& distinct_keys(self.lock_numbers)
    }

    /// Every record is stored under the key that it names itself.
    pub open spec fn keyed(self) -> bool {
        &&& forall|k: CollectionId| #![trigger lookup(self.collections, k)]
            match lookup(self.collections, k) {
                Some(c) => c.collection_id == k,
                None => true,
            }
        &&& forall|k: Fingerprint| #![trigger lookup(self.items, k)]
            match lookup(self.items, k) {
                Some(i) => i.fingerprint == k,
                None => true,
            }
        &&& forall|k: FractionKey| #![trigger lookup(self.fractions, k)]
            match lookup(self.fractions, k) {
                Some(r) => record_key(r) == k,
                None => true,
            }
        &&& forall|k: HoldKey| #![trigger lookup(self.holds, k)]
            match lookup(self.holds, k) {
                Some(v) => v == (k.holder_id, k.guard),
                None => true,
            }
    }

    /// No collection holds more items than it may.
    pub open spec fn within_capacity(self) -> bool {
        forall|k: CollectionId| #![trigger lookup(self.collections, k)]
            match lookup(self.collections, k) {
                Some(c) => c.within_capacity(),
                None => true,
            }
    }

    /// The collections are numbered in the order of their creation: every
    /// internal identifier was handed out already, and no two collections
    /// share one.
    pub open spec fn collections_numbered(self) -> bool {
        &&& forall|k: CollectionId| #![trigger lookup(self.collections, k)]
            match lookup(self.collections, k) {
                Some(c) => c.internal_id < self.next_collection_id,
                None => true,
            }
        &&& forall|k: CollectionId, l: CollectionId|
            #![trigger lookup(self.collections, k), lookup(self.collections, l)]
            match (lookup(self.collections, k), lookup(self.collections, l)) {
                (Some(c), Some(d)) => k != l ==> c.internal_id != d.internal_id,
                _ => true,
            }
    }

    /// The item on record for a pool is fractionalized into that pool.
    pub open spec fn pools_indexed(self) -> bool {
        forall|k: FTokenId| #![trigger lookup(self.pools, k)]
            match lookup(self.pools, k) {
                Some(fingerprint) => match lookup(self.items, fingerprint) {
                    Some(item) => match item.fractional {
                        Some(fractional) => fractional.ft_id == k,
                        None => false,
                    },
                    None => false,
                },
                None => true,
            }
    }

    /// Every fraction record holds shares, of an item that is fractionalized
    /// into the pool that the record names.
    pub open spec fn fractions_sound(self) -> bool {
        forall|k: FractionKey| #![trigger lookup(self.fractions, k)]
            match lookup(self.fractions, k) {
                Some(r) => {
                    &&& r.amount > 0
                    &&& match lookup(self.items, k.fingerprint) {
                        Some(item) => match item.fractional {
                            Some(fractional) => fractional.ft_id == r.fractional.ft_id,
                            None => false,
                        },
                        None => false,
                    }
                },
                None => true,
            }
    }

    /// The repository of pools and totals says of each item what the item
    /// record says.
    pub open spec fn mirrored(self) -> bool {
        forall|k: Fingerprint| #![trigger lookup(self.fractionals, k)]
            lookup(self.fractionals, k) == match lookup(self.items, k) {
                Some(item) => item.fractional,
                None => None,
            }
    }

    /// The shares of each item add up to the total that the item declares.
    pub open spec fn conserved(self) -> bool {
        forall|fingerprint: Fingerprint| #![trigger shares_held(self.fractions, fingerprint)]
            shares_held(self.fractions, fingerprint) == declared_total(self.items, fingerprint)
    }

    /// Each fraction record counts the holds that are outstanding on it, and
    /// no hold lies on shares that nobody holds.
    pub open spec fn holds_agree(self) -> bool {
        forall|key: FractionKey| #![trigger holds_placed(self.holds, key)]
            holds_placed(self.holds, key) == holds_counted(self.fractions, key)
    }

    /// The guard of every outstanding hold has a number below the next
    /// number of its transaction.
    pub open spec fn guards_numbered(self) -> bool {
        forall|k: HoldKey| #![trigger has_key(self.holds, k)]
            has_key(self.holds, k) ==> k.guard@.number < next_number(
                self.lock_numbers,
                k.guard@.timepoint,
            )
    }

    /// The state is one that the operations of the ledger can reach.
    pub open spec fn inv(self) -> bool {
        &&& self.keys_distinct()
        &&& self.keyed()
        &&& self.within_capacity()
        &&& self.collections_numbered()
        &&& self.pools_indexed()
        &&& self.fractions_sound()
        &&& self.mirrored()
        &&& self.conserved()
        &&& self.holds_agree()
        &&& self.guards_numbered()
    }
}

/// The empty ledger is sound.
pub proof fn lemma_empty_inv(timepoint: Timepoint)
    ensures
        LedgerState::empty(timepoint).inv(),
{
    let s = LedgerState::empty(timepoint);
    assert forall|fingerprint: Fingerprint| #![trigger shares_held(s.fractions, fingerprint)]
        shares_held(s.fractions, fingerprint) == declared_total(s.items, fingerprint) by {
    }
}

/// A transfer of shares keeps the ledger sound.
pub proof fn lemma_transfer_fraction(
    s: LedgerState,
    donor: NFTokenFractionRecord,
    to: AccountId,
    amount: FractionAmount,
    moved: Result<(), DispatchError>,
)
    requires
        s.inv(),
    ensures
        s.transfer_fraction(donor, to, amount, moved).1.inv(),
{
    let (r, t) = s.transfer_fraction(donor, to, amount, moved);
    if r.is_ok() {
        let rk = fraction_key(donor.fingerprint, to);
        let dk = record_key(donor);
        let rec = s.recipient(donor, to);
        let rec2 = NFTokenFractionRecord { amount: (rec.amount + amount) as FractionAmount, ..rec };
        let donor2 = NFTokenFractionRecord {
            amount: (donor.amount - amount) as FractionAmount,
            ..donor
        };
        let given = put(s.fractions, rk, rec2);
        lemma_put(s.fractions, rk, rec2);
        assert(lookup(s.fractions, dk) == Some(donor));
        assert(lookup(s.fractions, rk) matches Some(x) ==> record_key(x) == rk);
        if donor.amount == amount {
            lemma_del(given, dk);
        } else {
            lemma_put(given, dk, donor2);
        }
        assert(t.keyed());
        assert(t.fractions_sound());
        assert forall|fingerprint: Fingerprint| #![trigger shares_held(t.fractions, fingerprint)]
            shares_held(t.fractions, fingerprint) == declared_total(
                t.items,
                fingerprint,
            ) by {
            let w = share_weight(fingerprint);
            lemma_sum_put(s.fractions, rk, rec2, w);
            if donor.amount == amount {
                lemma_sum_del(given, dk, w);
            } else {
                lemma_sum_put(given, dk, donor2, w);
            }
            assert(shares_held(s.fractions, fingerprint) == declared_total(s.items, fingerprint));
        }
        assert forall|key: FractionKey| #![trigger holds_placed(t.holds, key)]
            holds_placed(t.holds, key) == holds_counted(t.fractions, key) by {
            assert(holds_placed(s.holds, key) == holds_counted(s.fractions, key));
            assert(holds_placed(s.holds, rk) == holds_counted(s.fractions, rk));
            assert(holds_placed(s.holds, dk) == holds_counted(s.fractions, dk));
        }
    }
}

/// Creating a collection keeps the ledger sound.
pub proof fn lemma_create_collection(
    s: LedgerState,
    account: AccountId,
    id: CollectionId,
    max_items: ItemId,
    created: Result<(), DispatchError>,
)
    requires
        s.inv(),
    ensures
        s.create_collection(account, id, max_items, created).1.inv(),
{
    let (r, t) = s.create_collection(account, id, max_items, created);
    if r.is_ok() {
        let record = NFTokenCollectionRecord {
            account,
            collection_id: id,
            internal_id: s.next_collection_id,
            max_items,
            items: 0,
        };
        lemma_put(s.collections, id, record);
    }
}

/// Minting an item keeps the ledger sound.
pub proof fn lemma_mint_item(
    s: LedgerState,
    collection: NFTokenCollectionRecord,
    fingerprint: Fingerprint,
    minted: Result<(), DispatchError>,
)
    requires
        s.inv(),
    ensures
        s.mint_item(collection, fingerprint, minted).1.inv(),
{
    let (r, t) = s.mint_item(collection, fingerprint, minted);
    if r.is_ok() {
        let item = NFTokenItemRecord {
            account: collection.account,
            fingerprint,
            item_id: collection.items,
            collection_id: collection.internal_id,
            fractional: None,
        };
        lemma_put(s.collections, collection.collection_id, collection.with_next_item());
        lemma_put(s.items, fingerprint, item);
        assert(lookup(s.items, fingerprint).is_none());
        assert forall|k: FractionKey| #![trigger lookup(t.fractions, k)]
            lookup(t.fractions, k).is_some() implies k.fingerprint != fingerprint by {
        }
        assert(t.fractions_sound());
        assert forall|k: Fingerprint| #![trigger lookup(t.fractionals, k)]
            lookup(t.fractionals, k) == match lookup(t.items, k) {
                Some(item) => item.fractional,
                None => None,
            } by {
            assert(lookup(s.fractionals, k) == match lookup(s.items, k) {
                Some(item) => item.fractional,
                None => None,
            });
        }
        assert forall|f: Fingerprint| #![trigger shares_held(t.fractions, f)]
            shares_held(t.fractions, f) == declared_total(t.items, f) by {
            assert(shares_held(s.fractions, f) == declared_total(s.items, f));
        }
    }
}

/// Giving a collection away keeps the ledger sound.
pub proof fn lemma_transfer_collection(
    s: LedgerState,
    collection: NFTokenCollectionRecord,
    to: AccountId,
)
    requires
        s.inv(),
    ensures
        s.transfer_collection(collection, to).1.inv(),
{
    let (r, t) = s.transfer_collection(collection, to);
    if r.is_ok() {
        lemma_put(
            s.collections,
            collection.collection_id,
            NFTokenCollectionRecord { account: to, ..collection },
        );
    }
}

/// Giving an item away keeps the ledger sound.
pub proof fn lemma_transfer_item(
    s: LedgerState,
    item: NFTokenItemRecord,
    to: AccountId,
    moved: Result<(), DispatchError>,
)
    requires
        s.inv(),
    ensures
        s.transfer_item(item, to, moved).1.inv(),
{
    let (r, t) = s.transfer_item(item, to, moved);
    if r.is_ok() {
        lemma_put(s.items, item.fingerprint, NFTokenItemRecord { account: to, ..item });
        assert forall|k: FractionKey| #![trigger lookup(t.fractions, k)]
            lookup(t.fractions, k).is_some() implies k.fingerprint != item.fingerprint by {
        }
        assert(t.fractions_sound());
        assert forall|k: Fingerprint| #![trigger lookup(t.fractionals, k)]
            lookup(t.fractionals, k) == match lookup(t.items, k) {
                Some(item) => item.fractional,
                None => None,
            } by {
            assert(lookup(s.fractionals, k) == match lookup(s.items, k) {
                Some(item) => item.fractional,
                None => None,
            });
        }
        assert forall|f: Fingerprint| #![trigger shares_held(t.fractions, f)]
            shares_held(t.fractions, f) == declared_total(t.items, f) by {
            assert(shares_held(s.fractions, f) == declared_total(s.items, f));
        }
    }
}

/// Adding shares to a holder, and as many to the total of the item, keeps
/// the ledger sound.
pub proof fn lemma_credited(
    s: LedgerState,
    item: NFTokenItemRecord,
    account: AccountId,
    amount: FractionAmount,
    tag: Fractional,
)
    requires
        s.inv(),
        s.live_item(item),
        amount > 0,
        tag.total == declared_total(s.items, item.fingerprint) + amount,
        holding(s.fractions, item.fingerprint, account) + amount <= FractionAmount::MAX,
        item.fractional matches Some(fractional) ==> fractional.ft_id == tag.ft_id,
    ensures
        s.credited(item, account, amount, tag).inv(),
{
    let t = s.credited(item, account, amount, tag);
    let fp = item.fingerprint;
    let key = fraction_key(fp, account);
    let item2 = NFTokenItemRecord { fractional: Some(tag), ..item };
    lemma_put(s.items, fp, item2);
    lemma_put(s.fractionals, fp, tag);
    let record = match lookup(s.fractions, key) {
        Some(r) => NFTokenFractionRecord {
            amount: (r.amount + amount) as FractionAmount,
            fractional: tag,
            ..r
        },
        None => NFTokenFractionRecord {
            account,
            fingerprint: fp,
            fractional: tag,
            amount,
            holds: 0,
            lock_mask: 0,
        },
    };
    assert(t.fractions == put(s.fractions, key, record));
    lemma_put(s.fractions, key, record);
    assert(lookup(s.fractions, key) matches Some(x) ==> record_key(x) == key);
    assert(t.keyed());
    assert forall|k: FractionKey| #![trigger lookup(t.fractions, k)]
        match lookup(t.fractions, k) {
            Some(r) => {
                &&& r.amount > 0
                &&& match lookup(t.items, k.fingerprint) {
                    Some(item) => match item.fractional {
                        Some(fractional) => fractional.ft_id == r.fractional.ft_id,
                        None => false,
                    },
                    None => false,
                }
            },
            None => true,
        } by {
        if k != key {
            assert(lookup(t.fractions, k) == lookup(s.fractions, k));
        }
    }
    assert forall|k: Fingerprint| #![trigger lookup(t.fractionals, k)]
        lookup(t.fractionals, k) == match lookup(t.items, k) {
            Some(item) => item.fractional,
            None => None,
        } by {
        assert(lookup(s.fractionals, k) == match lookup(s.items, k) {
            Some(item) => item.fractional,
            None => None,
        });
    }
    assert forall|f: Fingerprint| #![trigger shares_held(t.fractions, f)]
        shares_held(t.fractions, f) == declared_total(t.items, f) by {
        lemma_sum_put(s.fractions, key, record, share_weight(f));
        assert(shares_held(s.fractions, f) == declared_total(s.items, f));
    }
    assert forall|k: FractionKey| #![trigger holds_placed(t.holds, k)]
        holds_placed(t.holds, k) == holds_counted(t.fractions, k) by {
        assert(holds_placed(s.holds, k) == holds_counted(s.fractions, k));
    }
}

/// Taking shares from a holder, and as many from the total of the item,
/// keeps the ledger sound.
pub proof fn lemma_debited(
    s: LedgerState,
    item: NFTokenItemRecord,
    account: AccountId,
    amount: FractionAmount,
    tag: Fractional,
)
    requires
        s.inv(),
        s.live_item(item),
        item.fractional.is_some(),
        tag.ft_id == item.fractional.unwrap().ft_id,
        amount <= item.fractional.unwrap().total,
        tag.total == item.fractional.unwrap().total - amount,
        amount <= holding(s.fractions, item.fingerprint, account),
        !s.empties_held(item.fingerprint, account, amount),
    ensures
        s.debited(item, account, amount, tag).inv(),
{
    let t = s.debited(item, account, amount, tag);
    let fp = item.fingerprint;
    let key = fraction_key(fp, account);
    let item2 = NFTokenItemRecord { fractional: Some(tag), ..item };
    lemma_put(s.items, fp, item2);
    lemma_put(s.fractionals, fp, tag);
    match lookup(s.fractions, key) {
        Some(r) => {
            let record = NFTokenFractionRecord {
                amount: (r.amount - amount) as FractionAmount,
                fractional: tag,
                ..r
            };
            assert(record_key(r) == key);
            if r.amount == amount {
                lemma_del(s.fractions, key);
            } else {
                lemma_put(s.fractions, key, record);
            }
            assert forall|f: Fingerprint| #![trigger shares_held(t.fractions, f)]
                shares_held(t.fractions, f) == declared_total(t.items, f) by {
                if r.amount == amount {
                    lemma_sum_del(s.fractions, key, share_weight(f));
                } else {
                    lemma_sum_put(s.fractions, key, record, share_weight(f));
                }
                assert(shares_held(s.fractions, f) == declared_total(s.items, f));
            }
        },
        None => {
            assert forall|f: Fingerprint| #![trigger shares_held(t.fractions, f)]
                shares_held(t.fractions, f) == declared_total(t.items, f) by {
                assert(shares_held(s.fractions, f) == declared_total(s.items, f));
            }
        },
    }
    assert(t.keyed());
    assert forall|k: FractionKey| #![trigger lookup(t.fractions, k)]
        match lookup(t.fractions, k) {
            Some(r) => {
                &&& r.amount > 0
                &&& match lookup(t.items, k.fingerprint) {
                    Some(item) => match item.fractional {
                        Some(fractional) => fractional.ft_id == r.fractional.ft_id,
                        None => false,
                    },
                    None => false,
                }
            },
            None => true,
        } by {
        if k != key {
            assert(lookup(t.fractions, k) == lookup(s.fractions, k));
        }
    }
    assert forall|k: Fingerprint| #![trigger lookup(t.fractionals, k)]
        lookup(t.fractionals, k) == match lookup(t.items, k) {
            Some(item) => item.fractional,
            None => None,
        } by {
        assert(lookup(s.fractionals, k) == match lookup(s.items, k) {
            Some(item) => item.fractional,
            None => None,
        });
    }
    assert forall|k: FractionKey| #![trigger holds_placed(t.holds, k)]
        holds_placed(t.holds, k) == holds_counted(t.fractions, k) by {
        assert(holds_placed(s.holds, k) == holds_counted(s.fractions, k));
    }
}

/// In a sound ledger nobody holds shares of an item that is whole.
pub proof fn lemma_whole_item_unheld(s: LedgerState, item: NFTokenItemRecord, account: AccountId)
    requires
        s.inv(),
        s.live_item(item),
        item.fractional.is_none(),
    ensures
        lookup(s.fractions, fraction_key(item.fingerprint, account)).is_none(),
        holding(s.fractions, item.fingerprint, account) == 0,
{
}

/// In a sound ledger nobody holds more shares of an item than the item
/// declares in all.
pub proof fn lemma_holding_bounded(s: LedgerState, fingerprint: Fingerprint, account: AccountId)
    requires
        s.inv(),
    ensures
        holding(s.fractions, fingerprint, account) <= declared_total(s.items, fingerprint),
{
    lemma_sum_bounds(
        s.fractions,
        fraction_key(fingerprint, account),
        share_weight(fingerprint),
    );
    assert(shares_held(s.fractions, fingerprint) == declared_total(s.items, fingerprint));
}

/// Splitting an item into shares keeps the ledger sound.
pub proof fn lemma_fractionalize(
    s: LedgerState,
    item: NFTokenItemRecord,
    total: FractionAmount,
    limited: bool,
    pool: Result<FTokenId, DispatchError>,
    may_mint: bool,
    minted: Result<(), DispatchError>,
    locked: Result<(), DispatchError>,
)
    requires
        s.inv(),
    ensures
        s.fractionalize(item, total, limited, pool, may_mint, minted, locked).1.inv(),
{
    let (r, t) = s.fractionalize(item, total, limited, pool, may_mint, minted, locked);
    if r.is_ok() {
        let ft_id = pool->Ok_0;
        let tag = Fractional { ft_id, total };
        let split = s.credited(item, item.account, total, tag);
        lemma_whole_item_unheld(s, item, item.account);
        lemma_credited(s, item, item.account, total, tag);
        lemma_put(s.pools, ft_id, item.fingerprint);
        lemma_put(
            s.items,
            item.fingerprint,
            NFTokenItemRecord { fractional: Some(tag), ..item },
        );
        assert forall|k: FTokenId| #![trigger lookup(t.pools, k)]
            match lookup(t.pools, k) {
                Some(fingerprint) => match lookup(t.items, fingerprint) {
                    Some(item) => match item.fractional {
                        Some(fractional) => fractional.ft_id == k,
                        None => false,
                    },
                    None => false,
                },
                None => true,
            } by {
            if k != ft_id {
                assert(lookup(t.pools, k) == lookup(split.pools, k));
            }
        }
    }
}

/// Minting shares keeps the ledger sound.
pub proof fn lemma_mint_fraction(
    s: LedgerState,
    item: NFTokenItemRecord,
    who: AccountId,
    amount: FractionAmount,
    may_mint: bool,
    minted: Result<(), DispatchError>,
)
    requires
        s.inv(),
    ensures
        s.mint_fraction(item, who, amount, may_mint, minted).1.inv(),
{
    let (r, t) = s.mint_fraction(item, who, amount, may_mint, minted);
    if r.is_ok() {
        let fractional = item.fractional.unwrap();
        let tag = Fractional {
            ft_id: fractional.ft_id,
            total: (fractional.total + amount) as FractionAmount,
        };
        lemma_holding_bounded(s, item.fingerprint, who);
        lemma_credited(s, item, who, amount, tag);
    }
}

/// Burning shares keeps the ledger sound.
pub proof fn lemma_burn_fraction(
    s: LedgerState,
    item: NFTokenItemRecord,
    who: AccountId,
    amount: FractionAmount,
    may_burn: bool,
    burned: Result<FractionAmount, DispatchError>,
)
    requires
        s.inv(),
    ensures
        s.burn_fraction(item, who, amount, may_burn, burned).1.inv(),
{
    let (r, t) = s.burn_fraction(item, who, amount, may_burn, burned);
    if r.is_ok() {
        let fractional = item.fractional.unwrap();
        let withdrawn = burned->Ok_0;
        let tag = Fractional {
            ft_id: fractional.ft_id,
            total: (fractional.total - withdrawn) as FractionAmount,
        };
        lemma_debited(s, item, who, withdrawn, tag);
    }
}

/// A draw of a guard number leaves no number of any transaction lower than
/// it was, and leaves the number of the transaction that drew higher.
pub proof fn lemma_after_draw(numbers: Seq<(Timepoint, LockNumber)>, timepoint: Timepoint)
    requires
        distinct_keys(numbers),
    ensures
        distinct_keys(after_draw(numbers, timepoint)),
        forall|t: Timepoint| #![trigger next_number(after_draw(numbers, timepoint), t)]
            next_number(numbers, t) <= next_number(
                after_draw(numbers, timepoint),
                t,
            ),
        drawn(numbers, timepoint) matches Some(n) ==> n < next_number(
            after_draw(numbers, timepoint),
            timepoint,
        ),
{
    let n = next_number(numbers, timepoint);
    if n < LockNumber::MAX {
        lemma_put(numbers, timepoint, (n + 1) as LockNumber);
    }
}

/// Locking a fraction keeps the ledger sound.
pub proof fn lemma_lock_fraction(
    s: LedgerState,
    fraction: NFTokenFractionRecord,
    mask: FractionLockMask,
)
    requires
        s.inv(),
    ensures
        s.lock_fraction(fraction, mask).1.inv(),
{
    let (r, t) = s.lock_fraction(fraction, mask);
    if r.is_ok() {
        let key = record_key(fraction);
        let record = NFTokenFractionRecord {
            lock_mask: fraction.lock_mask | mask.bits(),
            ..fraction
        };
        lemma_put(s.fractions, key, record);
        lemma_after_draw(s.lock_numbers, s.timepoint);
        assert(t.keyed());
        assert(t.fractions_sound());
        assert forall|f: Fingerprint| #![trigger shares_held(t.fractions, f)]
            shares_held(t.fractions, f) == declared_total(t.items, f) by {
            lemma_sum_put(s.fractions, key, record, share_weight(f));
            assert(shares_held(s.fractions, f) == declared_total(s.items, f));
        }
        assert forall|k: FractionKey| #![trigger holds_placed(t.holds, k)]
            holds_placed(t.holds, k) == holds_counted(t.fractions, k) by {
            assert(holds_placed(s.holds, k) == holds_counted(s.fractions, k));
        }
        assert forall|k: HoldKey| #![trigger has_key(t.holds, k)]
            has_key(t.holds, k) implies k.guard@.number < next_number(
                t.lock_numbers,
                k.guard@.timepoint,
            ) by {
            assert(has_key(s.holds, k));
        }
    }
}

/// Placing a hold keeps the ledger sound.
pub proof fn lemma_hold_fraction(
    s: LedgerState,
    fraction: NFTokenFractionRecord,
    holder_id: FractionHolderId,
)
    requires
        s.inv(),
    ensures
        s.hold_fraction(fraction, holder_id).1.inv(),
{
    broadcast use LockGuard::lemma_issued;

    let (r, t) = s.hold_fraction(fraction, holder_id);
    if r.is_ok() {
        let guard = r->Ok_0;
        let key = record_key(fraction);
        let hk = hold_key(fraction, holder_id, guard);
        let record = NFTokenFractionRecord {
            holds: (fraction.holds + 1) as HoldCount,
            ..fraction
        };
        lemma_put(s.fractions, key, record);
        lemma_put(s.holds, hk, (holder_id, guard));
        lemma_after_draw(s.lock_numbers, s.timepoint);
        assert(t.keyed());
        assert(t.fractions_sound());
        assert forall|f: Fingerprint| #![trigger shares_held(t.fractions, f)]
            shares_held(t.fractions, f) == declared_total(t.items, f) by {
            lemma_sum_put(s.fractions, key, record, share_weight(f));
            assert(shares_held(s.fractions, f) == declared_total(s.items, f));
        }
        assert forall|k: FractionKey| #![trigger holds_placed(t.holds, k)]
            holds_placed(t.holds, k) == holds_counted(t.fractions, k) by {
            lemma_sum_put(s.holds, hk, (holder_id, guard), hold_weight(k));
            assert(holds_placed(s.holds, k) == holds_counted(s.fractions, k));
        }
        assert forall|k: HoldKey| #![trigger has_key(t.holds, k)]
            has_key(t.holds, k) implies k.guard@.number < next_number(
                t.lock_numbers,
                k.guard@.timepoint,
            ) by {
            if k != hk {
                assert(has_key(s.holds, k));
            }
        }
    }
}

/// Releasing a hold keeps the ledger sound.
pub proof fn lemma_unhold_fraction(
    s: LedgerState,
    fraction: NFTokenFractionRecord,
    holder_id: FractionHolderId,
    guard: LockGuard,
)
    requires
        s.inv(),
    ensures
        s.unhold_fraction(fraction, holder_id, guard).1.inv(),
{
    let (r, t) = s.unhold_fraction(fraction, holder_id, guard);
    if r.is_ok() {
        let key = record_key(fraction);
        let hk = hold_key(fraction, holder_id, guard);
        let record = NFTokenFractionRecord {
            holds: (fraction.holds - 1) as HoldCount,
            ..fraction
        };
        lemma_put(s.fractions, key, record);
        lemma_del(s.holds, hk);
        assert(t.keyed());
        assert(t.fractions_sound());
        assert forall|f: Fingerprint| #![trigger shares_held(t.fractions, f)]
            shares_held(t.fractions, f) == declared_total(t.items, f) by {
            lemma_sum_put(s.fractions, key, record, share_weight(f));
            assert(shares_held(s.fractions, f) == declared_total(s.items, f));
        }
        assert forall|k: FractionKey| #![trigger holds_placed(t.holds, k)]
            holds_placed(t.holds, k) == holds_counted(t.fractions, k) by {
            lemma_sum_del(s.holds, hk, hold_weight(k));
            assert(holds_placed(s.holds, k) == holds_counted(s.fractions, k));
        }
        assert forall|k: HoldKey| #![trigger has_key(t.holds, k)]
            has_key(t.holds, k) implies k.guard@.number < next_number(
                t.lock_numbers,
                k.guard@.timepoint,
            ) by {
            assert(has_key(s.holds, k));
        }
    }
}

} // verus!
