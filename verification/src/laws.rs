//! What holds of the ledger whatever is asked of it, in whatever order.
//!
//! A [`Call`] is one operation with its arguments and with the answers that
//! the backing stores gave to it. The laws below speak of single calls and
//! of sequences of calls, and so of every history of a ledger.

use vstd::prelude::*;
use sp_runtime::DispatchError;
use crate::error::Error;
use crate::guard::{next_number, LockGuard};
use crate::ids::{
    AccountId, CollectionId, FTokenId, Fingerprint, FractionAmount, FractionHolderId,
    FractionKey, ItemId, Timepoint,
};
use crate::lock::FractionLockMask;
use crate::model::{fraction_key, hold_key, holding, record_key, LedgerState};
use crate::records::{
    Fractional, NFTokenCollectionRecord, NFTokenFractionRecord, NFTokenItemRecord,
};
use crate::sound::{
    declared_total, hold_weight, holds_counted, holds_placed, lemma_after_draw,
    lemma_burn_fraction, lemma_create_collection, lemma_empty_inv, lemma_fractionalize,
    lemma_hold_fraction, lemma_holding_bounded, lemma_lock_fraction, lemma_mint_fraction,
    lemma_mint_item, lemma_transfer_collection, lemma_transfer_fraction, lemma_transfer_item,
    lemma_unhold_fraction, shares_held,
};
use crate::table::{has_key, lemma_del, lemma_put, lemma_sum_bounds, lookup, put};

verus! {

/// One operation on the ledger, with the answers of the backing stores.
pub enum Call {
    CreateCollection {
        account: AccountId,
        id: CollectionId,
        max_items: ItemId,
        created: Result<(), DispatchError>,
    },
    MintItem {
        collection: NFTokenCollectionRecord,
        fingerprint: Fingerprint,
        minted: Result<(), DispatchError>,
    },
    TransferCollection { collection: NFTokenCollectionRecord, to: AccountId },
    TransferItem { item: NFTokenItemRecord, to: AccountId, moved: Result<(), DispatchError> },
    Fractionalize {
        item: NFTokenItemRecord,
        total: FractionAmount,
        limited: bool,
        pool: Result<FTokenId, DispatchError>,
        may_mint: bool,
        minted: Result<(), DispatchError>,
        locked: Result<(), DispatchError>,
    },
    MintFraction {
        item: NFTokenItemRecord,
        who: AccountId,
        amount: FractionAmount,
        may_mint: bool,
        minted: Result<(), DispatchError>,
    },
    BurnFraction {
        item: NFTokenItemRecord,
        who: AccountId,
        amount: FractionAmount,
        may_burn: bool,
        burned: Result<FractionAmount, DispatchError>,
    },
    TransferFraction {
        donor: NFTokenFractionRecord,
        to: AccountId,
        amount: FractionAmount,
        moved: Result<(), DispatchError>,
    },
    LockFraction { fraction: NFTokenFractionRecord, mask: FractionLockMask },
    HoldFraction { fraction: NFTokenFractionRecord, holder_id: FractionHolderId },
    UnholdFraction {
        fraction: NFTokenFractionRecord,
        holder_id: FractionHolderId,
        guard: LockGuard,
    },
    SetTimepoint { timepoint: Timepoint },
}

/// The state after `call`.
pub open spec fn step(s: LedgerState, call: Call) -> LedgerState {
    match call {
        Call::CreateCollection { account, id, max_items, created } => s.create_collection(
            account,
            id,
            max_items,
            created,
        ).1,
        Call::MintItem { collection, fingerprint, minted } => s.mint_item(
            collection,
            fingerprint,
            minted,
        ).1,
        Call::TransferCollection { collection, to } => s.transfer_collection(collection, to).1,
        Call::TransferItem { item, to, moved } => s.transfer_item(item, to, moved).1,
        Call::Fractionalize {
            item,
            total,
            limited,
            pool,
            may_mint,
            minted,
            locked,
        } => s.fractionalize(item, total, limited, pool, may_mint, minted, locked).1,
        Call::MintFraction { item, who, amount, may_mint, minted } => s.mint_fraction(
            item,
            who,
            amount,
            may_mint,
            minted,
        ).1,
        Call::BurnFraction { item, who, amount, may_burn, burned } => s.burn_fraction(
            item,
            who,
            amount,
            may_burn,
            burned,
        ).1,
        Call::TransferFraction { donor, to, amount, moved } => s.transfer_fraction(
            donor,
            to,
            amount,
            moved,
        ).1,
        Call::LockFraction { fraction, mask } => s.lock_fraction(fraction, mask).1,
        Call::HoldFraction { fraction, holder_id } => s.hold_fraction(fraction, holder_id).1,
        Call::UnholdFraction { fraction, holder_id, guard } => s.unhold_fraction(
            fraction,
            holder_id,
            guard,
        ).1,
        Call::SetTimepoint { timepoint } => LedgerState { timepoint, ..s },
    }
}

/// The guard that `call` issues in the state `s`, where it issues one.
pub open spec fn issued_by(s: LedgerState, call: Call) -> Option<LockGuard> {
    match call {
        Call::LockFraction { fraction, mask } => match s.lock_fraction(fraction, mask).0 {
            Ok(guard) => Some(guard),
            Err(_) => None,
        },
        Call::HoldFraction { fraction, holder_id } => match s.hold_fraction(
            fraction,
            holder_id,
        ).0 {
            Ok(guard) => Some(guard),
            Err(_) => None,
        },
        _ => None,
    }
}

/// The state after the calls of `calls`, one after the other.
pub open spec fn run(s: LedgerState, calls: Seq<Call>) -> LedgerState
    decreases calls.len(),
{
    if calls.len() == 0 {
        s
    } else {
        step(run(s, calls.drop_last()), calls.last())
    }
}

/// Every operation keeps the ledger sound, whatever its arguments and
/// whatever the backing stores answer.
pub proof fn law_step_sound(s: LedgerState, call: Call)
    requires
        s.inv(),
    ensures
        step(s, call).inv(),
{
    match call {
        Call::CreateCollection { account, id, max_items, created } => {
            lemma_create_collection(s, account, id, max_items, created);
        },
        Call::MintItem { collection, fingerprint, minted } => {
            lemma_mint_item(s, collection, fingerprint, minted);
        },
        Call::TransferCollection { collection, to } => {
            lemma_transfer_collection(s, collection, to);
        },
        Call::TransferItem { item, to, moved } => {
            lemma_transfer_item(s, item, to, moved);
        },
        Call::Fractionalize { item, total, limited, pool, may_mint, minted, locked } => {
            lemma_fractionalize(s, item, total, limited, pool, may_mint, minted, locked);
        },
        Call::MintFraction { item, who, amount, may_mint, minted } => {
            lemma_mint_fraction(s, item, who, amount, may_mint, minted);
        },
        Call::BurnFraction { item, who, amount, may_burn, burned } => {
            lemma_burn_fraction(s, item, who, amount, may_burn, burned);
        },
        Call::TransferFraction { donor, to, amount, moved } => {
            lemma_transfer_fraction(s, donor, to, amount, moved);
        },
        Call::LockFraction { fraction, mask } => {
            lemma_lock_fraction(s, fraction, mask);
        },
        Call::HoldFraction { fraction, holder_id } => {
            lemma_hold_fraction(s, fraction, holder_id);
        },
        Call::UnholdFraction { fraction, holder_id, guard } => {
            lemma_unhold_fraction(s, fraction, holder_id, guard);
        },
        Call::SetTimepoint { timepoint } => {},
    }
}

/// Every sequence of operations keeps the ledger sound.
pub proof fn law_run_sound(s: LedgerState, calls: Seq<Call>)
    requires
        s.inv(),
    ensures
        run(s, calls).inv(),
    decreases calls.len(),
{
    if calls.len() > 0 {
        law_run_sound(s, calls.drop_last());
        law_step_sound(run(s, calls.drop_last()), calls.last());
    }
}

/// Every state that a new ledger reaches is sound: what the laws below ask
/// of the state at which they start holds of every ledger in use.
pub proof fn law_history_sound(timepoint: Timepoint, calls: Seq<Call>)
    ensures
        run(LedgerState::empty(timepoint), calls).inv(),
{
    lemma_empty_inv(timepoint);
    law_run_sound(LedgerState::empty(timepoint), calls);
}

/// After any sequence of operations on a sound ledger, no collection holds
/// more items than it may.
pub proof fn law_capacity_respected(s: LedgerState, calls: Seq<Call>, id: CollectionId)
    requires
        s.inv(),
    ensures
        match lookup(run(s, calls).collections, id) {
            Some(collection) => collection.items <= collection.max_items,
            None => true,
        },
{
    law_run_sound(s, calls);
}

/// After any sequence of operations on a sound ledger, two collections
/// have different internal identifiers, both below the identifier that the
/// next collection gets.
pub proof fn law_collections_numbered_apart(
    s: LedgerState,
    calls: Seq<Call>,
    one: CollectionId,
    other: CollectionId,
)
    requires
        s.inv(),
        one != other,
    ensures
        match (lookup(run(s, calls).collections, one), lookup(run(s, calls).collections, other)) {
            (Some(c), Some(d)) => c.internal_id != d.internal_id && c.internal_id < run(
                s,
                calls,
            ).next_collection_id,
            _ => true,
        },
{
    law_run_sound(s, calls);
}

/// After any sequence of operations on a sound ledger, the item on record
/// for a pool is an item that is fractionalized into that pool.
pub proof fn law_pool_names_its_item(s: LedgerState, calls: Seq<Call>, ft_id: FTokenId)
    requires
        s.inv(),
    ensures
        match lookup(run(s, calls).pools, ft_id) {
            Some(fingerprint) => match lookup(run(s, calls).items, fingerprint) {
                Some(item) => match item.fractional {
                    Some(fractional) => fractional.ft_id == ft_id,
                    None => false,
                },
                None => false,
            },
            None => true,
        },
{
    law_run_sound(s, calls);
}

/// Minting into a collection that is full fails, and changes nothing.
pub proof fn law_mint_past_capacity_fails(
    s: LedgerState,
    collection: NFTokenCollectionRecord,
    fingerprint: Fingerprint,
    minted: Result<(), DispatchError>,
)
    requires
        collection.items >= collection.max_items,
    ensures
        s.mint_item(collection, fingerprint, minted) == (Err::<(), Error>(Error::NoPermission), s),
{
}

/// No operation removes an item: a fingerprint that names an item names
/// one after any sequence of operations.
pub proof fn law_items_stay(s: LedgerState, calls: Seq<Call>, fingerprint: Fingerprint)
    requires
        s.inv(),
        has_key(s.items, fingerprint),
    ensures
        has_key(run(s, calls).items, fingerprint),
    decreases calls.len(),
{
    if calls.len() > 0 {
        let before = run(s, calls.drop_last());
        law_items_stay(s, calls.drop_last(), fingerprint);
        law_run_sound(s, calls.drop_last());
        match calls.last() {
            Call::MintItem { collection, fingerprint: minted_fingerprint, minted } => {
                if before.mint_item(collection, minted_fingerprint, minted).0.is_ok() {
                    lemma_put(
                        before.items,
                        minted_fingerprint,
                        NFTokenItemRecord {
                            account: collection.account,
                            fingerprint: minted_fingerprint,
                            item_id: collection.items,
                            collection_id: collection.internal_id,
                            fractional: None,
                        },
                    );
                }
            },
            Call::TransferItem { item, to, moved } => {
                lemma_put(
                    before.items,
                    item.fingerprint,
                    NFTokenItemRecord { account: to, ..item },
                );
            },
            Call::Fractionalize { item, total, limited, pool, may_mint, minted, locked } => {
                if before.fractionalize(
                    item,
                    total,
                    limited,
                    pool,
                    may_mint,
                    minted,
                    locked,
                ).0.is_ok() {
                    lemma_put(
                        before.items,
                        item.fingerprint,
                        NFTokenItemRecord {
                            fractional: Some(
                                Fractional { ft_id: pool->Ok_0, total },
                            ),
                            ..item
                        },
                    );
                }
            },
            Call::MintFraction { item, who, amount, may_mint, minted } => {
                if before.mint_fraction(item, who, amount, may_mint, minted).0.is_ok() {
                    lemma_put(
                        before.items,
                        item.fingerprint,
                        NFTokenItemRecord {
                            fractional: Some(
                                Fractional {
                                    ft_id: item.fractional.unwrap().ft_id,
                                    total: (item.fractional.unwrap().total
                                        + amount) as FractionAmount,
                                },
                            ),
                            ..item
                        },
                    );
                }
            },
            Call::BurnFraction { item, who, amount, may_burn, burned } => {
                if before.burn_fraction(item, who, amount, may_burn, burned).0.is_ok() {
                    lemma_put(
                        before.items,
                        item.fingerprint,
                        NFTokenItemRecord {
                            fractional: Some(
                                Fractional {
                                    ft_id: item.fractional.unwrap().ft_id,
                                    total: (item.fractional.unwrap().total
                                        - burned->Ok_0) as FractionAmount,
                                },
                            ),
                            ..item
                        },
                    );
                }
            },
            _ => {},
        }
    }
}

/// A fingerprint names one item for good: once an item was minted under
/// it, minting under it again fails and changes nothing, whatever was done
/// in between.
pub proof fn law_fingerprint_minted_once(
    s: LedgerState,
    first: NFTokenCollectionRecord,
    fingerprint: Fingerprint,
    first_minted: Result<(), DispatchError>,
    between: Seq<Call>,
    second: NFTokenCollectionRecord,
    second_minted: Result<(), DispatchError>,
)
    requires
        s.inv(),
        s.mint_item(first, fingerprint, first_minted).0.is_ok(),
    ensures
        ({
            let later = run(s.mint_item(first, fingerprint, first_minted).1, between);
            later.mint_item(second, fingerprint, second_minted) == (
                Err::<(), Error>(Error::NoPermission),
                later,
            )
        }),
{
    let minted = s.mint_item(first, fingerprint, first_minted).1;
    lemma_mint_item(s, first, fingerprint, first_minted);
    lemma_put(
        s.items,
        fingerprint,
        NFTokenItemRecord {
            account: first.account,
            fingerprint,
            item_id: first.items,
            collection_id: first.internal_id,
            fractional: None,
        },
    );
    law_items_stay(minted, between, fingerprint);
}

/// After any sequence of operations on a sound ledger, the shares of each
/// fractionalized item add up to the total that the item declares, which is
/// also the total on record for its pool; and nobody holds shares of an
/// item that is whole, or of none.
pub proof fn law_shares_conserved(s: LedgerState, calls: Seq<Call>, fingerprint: Fingerprint)
    requires
        s.inv(),
    ensures
        ({
            let t = run(s, calls);
            &&& shares_held(t.fractions, fingerprint) == declared_total(t.items, fingerprint)
            &&& match lookup(t.items, fingerprint) {
                Some(item) => lookup(t.fractionals, fingerprint) == item.fractional,
                None => lookup(t.fractionals, fingerprint).is_none(),
            }
        }),
{
    law_run_sound(s, calls);
    let t = run(s, calls);
    assert(shares_held(t.fractions, fingerprint) == declared_total(t.items, fingerprint));
    assert(lookup(t.fractionals, fingerprint) == match lookup(t.items, fingerprint) {
        Some(item) => item.fractional,
        None => None,
    });
}

/// Minting conserves: where the store permits and mints, and the total
/// stays in its range, minting `amount` shares of a stored item to `who`
/// succeeds; the total of the item and the shares of `who` grow by
/// `amount`, the shares of the item add up to the new total, and the record
/// of every other holder stays as it was.
pub proof fn law_mint_conserves(
    s: LedgerState,
    item: NFTokenItemRecord,
    who: AccountId,
    amount: FractionAmount,
    minted: Result<(), DispatchError>,
)
    requires
        s.inv(),
        s.live_item(item),
        item.fractional.is_some(),
        amount > 0,
        item.fractional.unwrap().total + amount <= FractionAmount::MAX,
        minted.is_ok(),
    ensures
        ({
            let (r, t) = s.mint_fraction(item, who, amount, true, minted);
            let fp = item.fingerprint;
            let total = item.fractional.unwrap().total + amount;
            &&& r == Ok::<(), Error>(())
            &&& declared_total(t.items, fp) == total
            &&& shares_held(t.fractions, fp) == total
            &&& holding(t.fractions, fp, who) == holding(s.fractions, fp, who) + amount
            &&& forall|k: FractionKey| #![trigger lookup(t.fractions, k)]
                k != fraction_key(fp, who) ==> lookup(t.fractions, k) == lookup(s.fractions, k)
        }),
{
    let (r, t) = s.mint_fraction(item, who, amount, true, minted);
    let fp = item.fingerprint;
    let key = fraction_key(fp, who);
    let tag = Fractional {
        ft_id: item.fractional.unwrap().ft_id,
        total: (item.fractional.unwrap().total + amount) as FractionAmount,
    };
    lemma_mint_fraction(s, item, who, amount, true, minted);
    lemma_holding_bounded(s, fp, who);
    lemma_put(s.items, fp, NFTokenItemRecord { fractional: Some(tag), ..item });
    assert(shares_held(t.fractions, fp) == declared_total(t.items, fp));
    match lookup(s.fractions, key) {
        Some(record) => {
            lemma_put(
                s.fractions,
                key,
                NFTokenFractionRecord {
                    amount: (record.amount + amount) as FractionAmount,
                    fractional: tag,
                    ..record
                },
            );
        },
        None => {
            lemma_put(
                s.fractions,
                key,
                NFTokenFractionRecord {
                    account: who,
                    fingerprint: fp,
                    fractional: tag,
                    amount,
                    holds: 0,
                    lock_mask: 0,
                },
            );
        },
    }
}

/// Burning conserves: where the store permits and withdraws `withdrawn`
/// shares, no more than the owner holds and not the last shares of a
/// record on which holds lie, burning shares of a stored item succeeds and
/// gives `withdrawn`; the total of the item and the shares of the owner
/// shrink by `withdrawn`, the shares of the item add up to the new total,
/// and the record of every other holder stays as it was. Holds on the
/// shares of the owner do not stand in the way.
pub proof fn law_burn_conserves(
    s: LedgerState,
    item: NFTokenItemRecord,
    amount: FractionAmount,
    burned: Result<FractionAmount, DispatchError>,
)
    requires
        s.inv(),
        s.live_item(item),
        item.fractional.is_some(),
        0 < amount <= item.fractional.unwrap().total,
        burned.is_ok(),
        burned.unwrap() <= holding(s.fractions, item.fingerprint, item.account),
        !s.empties_held(item.fingerprint, item.account, burned.unwrap()),
    ensures
        ({
            let who = item.account;
            let withdrawn = burned.unwrap();
            let (r, t) = s.burn_fraction(item, who, amount, true, burned);
            let fp = item.fingerprint;
            let total = item.fractional.unwrap().total - withdrawn;
            &&& r == Ok::<FractionAmount, Error>(withdrawn)
            &&& declared_total(t.items, fp) == total
            &&& shares_held(t.fractions, fp) == total
            &&& holding(t.fractions, fp, who) == holding(s.fractions, fp, who) - withdrawn
            &&& forall|k: FractionKey| #![trigger lookup(t.fractions, k)]
                k != fraction_key(fp, who) ==> lookup(t.fractions, k) == lookup(s.fractions, k)
        }),
{
    let who = item.account;
    let withdrawn = burned.unwrap();
    let (r, t) = s.burn_fraction(item, who, amount, true, burned);
    let fp = item.fingerprint;
    let key = fraction_key(fp, who);
    lemma_holding_bounded(s, fp, who);
    let tag = Fractional {
        ft_id: item.fractional.unwrap().ft_id,
        total: (item.fractional.unwrap().total - withdrawn) as FractionAmount,
    };
    lemma_burn_fraction(s, item, who, amount, true, burned);
    lemma_put(s.items, fp, NFTokenItemRecord { fractional: Some(tag), ..item });
    assert(shares_held(t.fractions, fp) == declared_total(t.items, fp));
    match lookup(s.fractions, key) {
        Some(record) => {
            if record.amount == withdrawn {
                lemma_del(s.fractions, key);
            } else {
                lemma_put(
                    s.fractions,
                    key,
                    NFTokenFractionRecord {
                        amount: (record.amount - withdrawn) as FractionAmount,
                        fractional: tag,
                        ..record
                    },
                );
            }
        },
        None => {},
    }
}

/// A transfer conserves: where the ledger has no objection and the store
/// moves the shares, the transfer succeeds; the shares of the donor shrink
/// and those of `to` grow by `amount`, the total of the item and the sum of
/// its shares stay as they were, and the record of every other holder
/// stays as it was.
pub proof fn law_transfer_conserves(
    s: LedgerState,
    donor: NFTokenFractionRecord,
    to: AccountId,
    amount: FractionAmount,
    moved: Result<(), DispatchError>,
)
    requires
        s.inv(),
        s.transfer_fraction_order(donor, to, amount).is_ok(),
        moved.is_ok(),
    ensures
        ({
            let (r, t) = s.transfer_fraction(donor, to, amount, moved);
            let fp = donor.fingerprint;
            &&& r == Ok::<(), Error>(())
            &&& t.items == s.items
            &&& shares_held(t.fractions, fp) == shares_held(s.fractions, fp)
            &&& shares_held(t.fractions, fp) == declared_total(t.items, fp)
            &&& holding(t.fractions, fp, donor.account) == donor.amount - amount
            &&& holding(t.fractions, fp, to) == holding(s.fractions, fp, to) + amount
            &&& forall|k: FractionKey| #![trigger lookup(t.fractions, k)]
                k != record_key(donor) && k != fraction_key(fp, to) ==> lookup(t.fractions, k)
                    == lookup(s.fractions, k)
        }),
{
    let (r, t) = s.transfer_fraction(donor, to, amount, moved);
    let fp = donor.fingerprint;
    lemma_transfer_fraction(s, donor, to, amount, moved);
    assert(shares_held(t.fractions, fp) == declared_total(t.items, fp));
    assert(shares_held(s.fractions, fp) == declared_total(s.items, fp));
    let rec = s.recipient(donor, to);
    let rec2 = NFTokenFractionRecord { amount: (rec.amount + amount) as FractionAmount, ..rec };
    let given = put(s.fractions, fraction_key(fp, to), rec2);
    lemma_put(s.fractions, fraction_key(fp, to), rec2);
    if donor.amount == amount {
        lemma_del(given, record_key(donor));
    } else {
        lemma_put(
            given,
            record_key(donor),
            NFTokenFractionRecord { amount: (donor.amount - amount) as FractionAmount, ..donor },
        );
    }
}

/// Shares on which a hold lies, or a lock that forbids transfers, are not
/// transferred: the transfer fails for want of permission, whatever the
/// amount and the balance, and changes nothing. (A transfer to the holder
/// itself, or of nothing, is refused for that reason first.)
pub proof fn law_blocked_shares_stay(
    s: LedgerState,
    donor: NFTokenFractionRecord,
    to: AccountId,
    amount: FractionAmount,
    moved: Result<(), DispatchError>,
)
    requires
        donor.holds > 0 || donor.lock_mask & 0b0001u8 == 0b0001u8,
        donor.account != to,
        amount != 0,
    ensures
        s.transfer_fraction(donor, to, amount, moved) == (
            Err::<(), Error>(Error::NoPermission),
            s,
        ),
{
}

/// A transfer that takes all the shares of the donor leaves no record of
/// the donor behind.
pub proof fn law_drained_record_removed(
    s: LedgerState,
    donor: NFTokenFractionRecord,
    to: AccountId,
    amount: FractionAmount,
    moved: Result<(), DispatchError>,
)
    requires
        s.inv(),
        s.transfer_fraction(donor, to, amount, moved).0.is_ok(),
        amount == donor.amount,
    ensures
        lookup(s.transfer_fraction(donor, to, amount, moved).1.fractions, record_key(donor))
            .is_none(),
{
    let r = s.recipient(donor, to);
    let given = put(
        s.fractions,
        fraction_key(donor.fingerprint, to),
        NFTokenFractionRecord { amount: (r.amount + amount) as FractionAmount, ..r },
    );
    lemma_put(
        s.fractions,
        fraction_key(donor.fingerprint, to),
        NFTokenFractionRecord { amount: (r.amount + amount) as FractionAmount, ..r },
    );
    lemma_del(given, record_key(donor));
}

/// After any sequence of operations on a sound ledger, every record of
/// shares holds some.
pub proof fn law_no_empty_record(s: LedgerState, calls: Seq<Call>, key: FractionKey)
    requires
        s.inv(),
    ensures
        match lookup(run(s, calls).fractions, key) {
            Some(fraction) => fraction.amount > 0,
            None => true,
        },
{
    law_run_sound(s, calls);
}

/// After any sequence of operations on a sound ledger, each record of
/// shares counts the holds that are outstanding on it.
pub proof fn law_holds_counted(s: LedgerState, calls: Seq<Call>, key: FractionKey)
    requires
        s.inv(),
    ensures
        holds_placed(run(s, calls).holds, key) == holds_counted(run(s, calls).fractions, key),
{
    law_run_sound(s, calls);
}

/// No operation lowers the next guard number of any transaction.
pub proof fn law_numbers_grow(s: LedgerState, calls: Seq<Call>, timepoint: Timepoint)
    requires
        s.inv(),
    ensures
        next_number(s.lock_numbers, timepoint) <= next_number(
            run(s, calls).lock_numbers,
            timepoint,
        ),
    decreases calls.len(),
{
    if calls.len() > 0 {
        let before = run(s, calls.drop_last());
        law_numbers_grow(s, calls.drop_last(), timepoint);
        law_run_sound(s, calls.drop_last());
        lemma_after_draw(before.lock_numbers, before.timepoint);
    }
}

/// Two guards issued in one transaction carry different numbers, whatever
/// was done between the two calls: the later guard has the higher number.
pub proof fn law_guards_distinct(s: LedgerState, first: Call, between: Seq<Call>, second: Call)
    requires
        s.inv(),
        issued_by(s, first).is_some(),
        issued_by(run(step(s, first), between), second).is_some(),
        issued_by(s, first).unwrap()@.timepoint == issued_by(
            run(step(s, first), between),
            second,
        ).unwrap()@.timepoint,
    ensures
        issued_by(s, first).unwrap()@.number < issued_by(
            run(step(s, first), between),
            second,
        ).unwrap()@.number,
        issued_by(s, first).unwrap() != issued_by(run(step(s, first), between), second).unwrap(),
{
    broadcast use LockGuard::lemma_issued;

    let g1 = issued_by(s, first).unwrap();
    let s1 = step(s, first);
    let s2 = run(s1, between);
    let g2 = issued_by(s2, second).unwrap();
    law_step_sound(s, first);
    lemma_after_draw(s.lock_numbers, s.timepoint);
    law_numbers_grow(s1, between, g1@.timepoint);
    assert(g1@.timepoint == s.timepoint);
    assert(g1@.number < next_number(s1.lock_numbers, s.timepoint));
    assert(g2@.timepoint == s2.timepoint);
    assert(g2@.number == next_number(s2.lock_numbers, s2.timepoint));
}

/// A hold is released only with the guard that was issued for it: where no
/// hold of this holder under this guard lies on the shares, the release
/// fails for want of permission and changes nothing.
pub proof fn law_unhold_needs_its_guard(
    s: LedgerState,
    fraction: NFTokenFractionRecord,
    holder_id: FractionHolderId,
    guard: LockGuard,
)
    requires
        !has_key(s.holds, hold_key(fraction, holder_id, guard)),
    ensures
        s.unhold_fraction(fraction, holder_id, guard) == (
            Err::<(), Error>(Error::NoPermission),
            s,
        ),
{
}

/// In a sound ledger the guard of a new hold is new: placing a hold never
/// fails for want of permission.
pub proof fn law_hold_guard_is_new(
    s: LedgerState,
    fraction: NFTokenFractionRecord,
    holder_id: FractionHolderId,
)
    requires
        s.inv(),
    ensures
        s.hold_fraction(fraction, holder_id).0 != Err::<LockGuard, Error>(Error::NoPermission),
{
    broadcast use LockGuard::lemma_issued;

    match s.next_guard(0) {
        Some(guard) => {
            let key = hold_key(fraction, holder_id, guard);
            if has_key(s.holds, key) {
                assert(key.guard@.number < next_number(s.lock_numbers, key.guard@.timepoint));
            }
        },
        None => {},
    }
}

/// In a sound ledger a hold that is outstanding on live shares can be
/// released: the release with its guard succeeds.
pub proof fn law_unhold_succeeds(
    s: LedgerState,
    fraction: NFTokenFractionRecord,
    holder_id: FractionHolderId,
    guard: LockGuard,
)
    requires
        s.inv(),
        s.live_fraction(fraction),
        has_key(s.holds, hold_key(fraction, holder_id, guard)),
    ensures
        s.unhold_fraction(fraction, holder_id, guard).0.is_ok(),
{
    let key = hold_key(fraction, holder_id, guard);
    let fk = record_key(fraction);
    lemma_sum_bounds(s.holds, key, hold_weight(fk));
    assert(holds_placed(s.holds, fk) == holds_counted(s.fractions, fk));
}

} // verus!
