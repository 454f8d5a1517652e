//! The ledger: the repositories of collections, items, fractions and holds,
//! and the operations on them.

use vstd::prelude::*;
use sp_runtime::DispatchError;
use crate::backing::{
    Backing, CreateClass, CreatePool, Fungibles, MintToken, MoveShares, MoveToken,
    Nonfungibles, PoolOrder,
};
use crate::error::Error;
use crate::guard::{GuardData, HoldKey, LockGuard, LockGuardT};
use crate::ids::{
    AccountId, CollectionId, FTokenId, Fingerprint, FractionAmount, FractionHolderId,
    FractionKey, InternalCollectionId, ItemId, LockNumber, Timepoint,
};
use crate::lock::FractionLockMask;
use crate::model::{credit, fraction_key, hold_key, holding, record_key, LedgerState};
use crate::records::{
    CollectionRecordT, Fractional, FractionRecordT, FractionalT, ItemRecordT,
    NFTokenCollectionRecord, NFTokenFractionRecord, NFTokenItemRecord,
};
use crate::sound::{
    lemma_burn_fraction, lemma_create_collection, lemma_empty_inv, lemma_fractionalize,
    lemma_holding_bounded, lemma_hold_fraction, lemma_lock_fraction, lemma_mint_fraction,
    lemma_mint_item, lemma_transfer_collection, lemma_transfer_fraction, lemma_transfer_item,
    lemma_unhold_fraction, lemma_whole_item_unheld,
};
use crate::restore::{
    collections_ok, fractionals_ok, fractions_ok, holds_ok, items_ok, lemma_sound_by_entries,
    pools_ok,
};
use crate::table::{del, lookup, put, Table};

verus! {

/// The ledger: the repositories of collections, items, fractions, pools
/// and holds, the counters from which identifiers and guard numbers are
/// drawn, and the transaction that is under way. Every change goes through
/// an operation, so that a ledger stays in a state that [`Ledger::wf`]
/// describes.
pub struct Ledger {
    collections: Table<CollectionId, NFTokenCollectionRecord>,
    items: Table<Fingerprint, NFTokenItemRecord>,
    fractions: Table<FractionKey, NFTokenFractionRecord>,
    fractionals: Table<Fingerprint, Fractional>,
    pools: Table<FTokenId, Fingerprint>,
    holds: Table<HoldKey, (FractionHolderId, LockGuard)>,
    lock_numbers: Table<Timepoint, LockNumber>,
    next_collection_id: InternalCollectionId,
    timepoint: Timepoint,
}

impl View for Ledger {
    type V = LedgerState;

    closed spec fn view(&self) -> LedgerState {
        LedgerState {
            collections: self.collections@,
            items: self.items@,
            fractions: self.fractions@,
            fractionals: self.fractionals@,
            pools: self.pools@,
            holds: self.holds@,
            lock_numbers: self.lock_numbers@,
            next_collection_id: self.next_collection_id,
            timepoint: self.timepoint,
        }
    }
}

/// A hold in plain values: the fraction it lies on, who placed it, and what
/// the guard that was issued for it says.
#[derive(Clone, Copy, Debug, PartialEq, Eq, Structural)]
pub struct StoredHold {
    pub fingerprint: Fingerprint,
    pub account: AccountId,
    pub holder_id: FractionHolderId,
    pub timepoint: Timepoint,
    pub number: LockNumber,
    pub mask: u8,
}

/// The entry of the repository of holds that `hold` stands for.
pub open spec fn hold_entry(hold: StoredHold) -> (HoldKey, (FractionHolderId, LockGuard)) {
    let guard = LockGuard::issued(
        GuardData { timepoint: hold.timepoint, number: hold.number, mask: hold.mask },
    );
    (
        HoldKey {
            fingerprint: hold.fingerprint,
            account: hold.account,
            holder_id: hold.holder_id,
            guard,
        },
        (hold.holder_id, guard),
    )
}

/// The entries of the repository of holds that `holds` stand for, in their
/// order.
pub open spec fn hold_entries(holds: Seq<StoredHold>) -> Seq<
    (HoldKey, (FractionHolderId, LockGuard)),
> {
    Seq::new(holds.len(), |i: int| hold_entry(holds[i]))
}

/// The contents of a ledger in plain values, as they are written to storage
/// and read back: the entries of each repository in their order, the
/// counter of collections, and the transaction under way.
pub struct LedgerParts {
    pub collections: Vec<(CollectionId, NFTokenCollectionRecord)>,
    pub items: Vec<(Fingerprint, NFTokenItemRecord)>,
    pub fractions: Vec<(FractionKey, NFTokenFractionRecord)>,
    pub fractionals: Vec<(Fingerprint, Fractional)>,
    pub pools: Vec<(FTokenId, Fingerprint)>,
    pub holds: Vec<StoredHold>,
    pub lock_numbers: Vec<(Timepoint, LockNumber)>,
    pub next_collection_id: InternalCollectionId,
    pub timepoint: Timepoint,
}

impl LedgerParts {
    /// The state that the parts describe.
    pub open spec fn state(&self) -> LedgerState {
        LedgerState {
            collections: self.collections@,
            items: self.items@,
            fractions: self.fractions@,
            fractionals: self.fractionals@,
            pools: self.pools@,
            holds: hold_entries(self.holds@),
            lock_numbers: self.lock_numbers@,
            next_collection_id: self.next_collection_id,
            timepoint: self.timepoint,
        }
    }
}

/// The entries of the repository of holds that `holds` stand for.
fn holds_from(holds: &Vec<StoredHold>) -> (entries: Vec<(HoldKey, (FractionHolderId, LockGuard))>)
    ensures
        entries@ == hold_entries(holds@),
{
    let mut entries: Vec<(HoldKey, (FractionHolderId, LockGuard))> = Vec::new();
    let mut i: usize = 0;
    while i < holds.len()
        invariant
            i <= holds.len(),
            entries@ == hold_entries(holds@.take(i as int)),
        decreases holds.len() - i,
    {
        let hold = holds[i];
        let guard = LockGuard::new(hold.timepoint, hold.number, hold.mask);
        let key = HoldKey {
            fingerprint: hold.fingerprint,
            account: hold.account,
            holder_id: hold.holder_id,
            guard,
        };
        entries.push((key, (hold.holder_id, guard)));
        assert(entries@ =~= hold_entries(holds@.take(i + 1)));
        i = i + 1;
    }
    assert(holds@.take(holds@.len() as int) == holds@);
    entries
}

/// The holds in plain values that stand for the entries `entries`.
fn holds_to(entries: &Vec<(HoldKey, (FractionHolderId, LockGuard))>) -> (holds: Vec<StoredHold>)
    requires
        forall|i: int|
            0 <= i < entries@.len() ==> (#[trigger] entries@[i]).1 == (
                entries@[i].0.holder_id,
                entries@[i].0.guard,
            ),
    ensures
        hold_entries(holds@) == entries@,
{
    let mut holds: Vec<StoredHold> = Vec::new();
    let mut i: usize = 0;
    while i < entries.len()
        invariant
            i <= entries.len(),
            forall|j: int|
                0 <= j < entries@.len() ==> (#[trigger] entries@[j]).1 == (
                    entries@[j].0.holder_id,
                    entries@[j].0.guard,
                ),
            holds@.len() == i,
            hold_entries(holds@) == entries@.take(i as int),
        decreases entries.len() - i,
    {
        let (key, _) = entries[i];
        let ghost before = holds@;
        holds.push(
            StoredHold {
                fingerprint: key.fingerprint,
                account: key.account,
                holder_id: key.holder_id,
                timepoint: key.guard.timepoint(),
                number: key.guard.number(),
                mask: key.guard.mask(),
            },
        );
        proof {
            let guard = key.guard;
            LockGuard::lemma_view(guard);
            assert(guard@ == (GuardData {
                timepoint: guard@.timepoint,
                number: guard@.number,
                mask: guard@.mask,
            }));
            assert(entries@[i as int].1 == (key.holder_id, key.guard));
            assert(hold_entry(holds@[i as int]) == entries@[i as int]);
            assert forall|j: int| 0 <= j < i implies hold_entries(holds@)[j] == entries@.take(
                i + 1,
            )[j] by {
                assert(holds@[j] == before[j]);
                assert(hold_entries(before)[j] == entries@.take(i as int)[j]);
            }
            assert(hold_entries(holds@) =~= entries@.take(i + 1));
        }
        i = i + 1;
    }
    assert(entries@.take(entries@.len() as int) == entries@);
    holds
}

/// The transaction that is under way in `ledger`.
pub fn now(ledger: &Ledger) -> (t: Timepoint)
    ensures
        t == ledger@.timepoint,
{
    ledger.timepoint
}

impl Ledger {
    /// The ledger is in a state that its operations can reach.
    pub open spec fn wf(&self) -> bool {
        self@.inv()
    }

    /// A ledger that holds nothing, in the transaction `timepoint`.
    pub fn new(timepoint: Timepoint) -> (ledger: Self)
        ensures
            ledger@ == LedgerState::empty(timepoint),
            ledger.wf(),
    {
        proof {
            lemma_empty_inv(timepoint);
        }
        Ledger {
            collections: Table::new(),
            items: Table::new(),
            fractions: Table::new(),
            fractionals: Table::new(),
            pools: Table::new(),
            holds: Table::new(),
            lock_numbers: Table::new(),
            next_collection_id: 0,
            timepoint,
        }
    }

    /// The contents of the ledger in plain values, to be written to
    /// storage.
    pub fn parts(&self) -> (parts: LedgerParts)
        requires
            self.wf(),
        ensures
            parts.state() == self@,
    {
        let entries = self.holds.entries();
        proof {
            assert forall|i: int| 0 <= i < entries@.len() implies (#[trigger] entries@[i]).1 == (
                entries@[i].0.holder_id,
                entries@[i].0.guard,
            ) by {
                crate::table::lemma_position(self@.holds, i);
            }
        }
        LedgerParts {
            collections: self.collections.entries(),
            items: self.items.entries(),
            fractions: self.fractions.entries(),
            fractionals: self.fractionals.entries(),
            pools: self.pools.entries(),
            holds: holds_to(&entries),
            lock_numbers: self.lock_numbers.entries(),
            next_collection_id: self.next_collection_id,
            timepoint: self.timepoint,
        }
    }

    /// The ledger whose contents are `parts`, where they are the contents
    /// of a sound ledger; and nothing where they are not: where a key
    /// occurs twice in a repository, or the repositories do not agree with
    /// each other as those of a ledger do.
    pub fn restore(parts: &LedgerParts) -> (r: Option<Ledger>)
        ensures
            r.is_some() == parts.state().inv(),
            r matches Some(ledger) ==> ledger@ == parts.state() && ledger.wf(),
    {
        let collections = match Table::from_entries(&parts.collections) {
            None => {
                return None;
            },
            Some(table) => table,
        };
        let items = match Table::from_entries(&parts.items) {
            None => {
                return None;
            },
            Some(table) => table,
        };
        let fractions = match Table::from_entries(&parts.fractions) {
            None => {
                return None;
            },
            Some(table) => table,
        };
        let fractionals = match Table::from_entries(&parts.fractionals) {
            None => {
                return None;
            },
            Some(table) => table,
        };
        let pools = match Table::from_entries(&parts.pools) {
            None => {
                return None;
            },
            Some(table) => table,
        };
        let holds = match Table::from_entries(&holds_from(&parts.holds)) {
            None => {
                return None;
            },
            Some(table) => table,
        };
        let lock_numbers = match Table::from_entries(&parts.lock_numbers) {
            None => {
                return None;
            },
            Some(table) => table,
        };
        proof {
            lemma_sound_by_entries(parts.state());
        }
        let sound = collections_ok(&collections, parts.next_collection_id) && items_ok(
            &items,
            &fractionals,
            &fractions,
        ) && fractions_ok(&fractions, &items, &holds) && fractionals_ok(&fractionals, &items)
            && pools_ok(&pools, &items) && holds_ok(&holds, &fractions, &lock_numbers);
        if !sound {
            return None;
        }
        Some(
            Ledger {
                collections,
                items,
                fractions,
                fractionals,
                pools,
                holds,
                lock_numbers,
                next_collection_id: parts.next_collection_id,
                timepoint: parts.timepoint,
            },
        )
    }

    /// Enters the transaction `timepoint`: guards issued from now on are
    /// numbered within it.
    pub fn set_timepoint(&mut self, timepoint: Timepoint)
        requires
            old(self).wf(),
        ensures
            final(self)@ == (LedgerState { timepoint, ..old(self)@ }),
            final(self).wf(),
    {
        self.timepoint = timepoint;
    }

    fn _insert_collection(&mut self, collection: NFTokenCollectionRecord)
        requires
            old(self)@.keys_distinct(),
        ensures
            final(self)@ == (LedgerState {
                collections: put(old(self)@.collections, collection.collection_id, collection),
                ..old(self)@
            }),
            final(self)@.keys_distinct(),
    {
        self.collections.insert(*collection.collection_id(), collection);
    }

    fn _insert_item(&mut self, item: NFTokenItemRecord)
        requires
            old(self)@.keys_distinct(),
        ensures
            final(self)@ == (LedgerState {
                items: put(old(self)@.items, item.fingerprint, item),
                ..old(self)@
            }),
            final(self)@.keys_distinct(),
    {
        self.items.insert(*item.fingerprint(), item);
    }

    fn _insert_fraction(&mut self, fraction: NFTokenFractionRecord)
        requires
            old(self)@.keys_distinct(),
        ensures
            final(self)@ == (LedgerState {
                fractions: put(old(self)@.fractions, record_key(fraction), fraction),
                ..old(self)@
            }),
            final(self)@.keys_distinct(),
    {
        let key = FractionKey {
            fingerprint: *fraction.fingerprint(),
            account: *fraction.account(),
        };
        self.fractions.insert(key, fraction);
    }

    fn _insert_fractional(&mut self, fingerprint: &Fingerprint, fractional: &Fractional)
        requires
            old(self)@.keys_distinct(),
        ensures
            final(self)@ == (LedgerState {
                fractionals: put(old(self)@.fractionals, *fingerprint, *fractional),
                ..old(self)@
            }),
            final(self)@.keys_distinct(),
    {
        self.fractionals.insert(*fingerprint, *fractional);
    }

    fn _remove_fraction(&mut self, fraction: &NFTokenFractionRecord)
        requires
            old(self)@.keys_distinct(),
        ensures
            final(self)@ == (LedgerState {
                fractions: del(old(self)@.fractions, record_key(*fraction)),
                ..old(self)@
            }),
            final(self)@.keys_distinct(),
    {
        let key = FractionKey {
            fingerprint: *fraction.fingerprint(),
            account: *fraction.account(),
        };
        self.fractions.remove(&key);
    }

    /// The key of the hold on `fraction` that `holder_id` placed under
    /// `guard`.
    fn _fraction_hold_key(
        fraction: &NFTokenFractionRecord,
        holder_id: FractionHolderId,
        guard: LockGuard,
    ) -> (key: HoldKey)
        ensures
            key == hold_key(*fraction, holder_id, guard),
    {
        HoldKey {
            fingerprint: *fraction.fingerprint(),
            account: *fraction.account(),
            holder_id,
            guard,
        }
    }

    /// Whether `collection` is the record that the ledger holds.
    fn is_live_collection(&self, collection: &NFTokenCollectionRecord) -> (b: bool)
        requires
            self@.keys_distinct(),
        ensures
            b == self@.live_collection(*collection),
    {
        match self.collections.get(collection.collection_id()) {
            Some(c) => c == *collection,
            None => false,
        }
    }

    /// Whether `item` is the record that the ledger holds.
    fn is_live_item(&self, item: &NFTokenItemRecord) -> (b: bool)
        requires
            self@.keys_distinct(),
        ensures
            b == self@.live_item(*item),
    {
        match self.items.get(item.fingerprint()) {
            Some(i) => i == *item,
            None => false,
        }
    }

    /// Whether `fraction` is the record that the ledger holds.
    fn is_live_fraction(&self, fraction: &NFTokenFractionRecord) -> (b: bool)
        requires
            self@.keys_distinct(),
        ensures
            b == self@.live_fraction(*fraction),
    {
        let key = FractionKey {
            fingerprint: *fraction.fingerprint(),
            account: *fraction.account(),
        };
        match self.fractions.get(&key) {
            Some(f) => f == *fraction,
            None => false,
        }
    }

    /// The record to which a transfer from `donor` to `to` adds.
    fn recipient_of(&self, donor: &NFTokenFractionRecord, to: &AccountId) -> (r:
        NFTokenFractionRecord)
        requires
            self@.keys_distinct(),
        ensures
            r == self@.recipient(*donor, *to),
    {
        let key = FractionKey { fingerprint: *donor.fingerprint(), account: *to };
        match self.fractions.get(&key) {
            Some(r) => r,
            None => NFTokenFractionRecord::new(to, *donor.fingerprint(), *donor.fractional(), 0, 0),
        }
    }

    /// What a transfer of `amount` shares from `donor` to `to` asks of the
    /// share store, or why the transfer stops before it asks.
    pub fn transfer_fraction_order(
        &self,
        donor: &NFTokenFractionRecord,
        to: &AccountId,
        amount: FractionAmount,
    ) -> (r: Result<MoveShares, Error>)
        requires
            self.wf(),
        ensures
            r == self@.transfer_fraction_order(*donor, *to, amount),
    {
        if *donor.account() == *to {
            return Err(Error::BadTarget);
        }
        if amount == 0 {
            return Err(Error::BadValue);
        }
        if donor.transfer_blocked() {
            return Err(Error::NoPermission);
        }
        if amount > *donor.amount() {
            return Err(Error::InsufficientBalance);
        }
        if !self.is_live_fraction(donor) {
            return Err(Error::UnknownItem);
        }
        let recipient = self.recipient_of(donor, to);
        if recipient.on_hold() {
            return Err(Error::NoPermission);
        }
        if recipient.amount().checked_add(amount).is_none() {
            return Err(Error::Overflow);
        }
        Ok(
            MoveShares {
                ft_id: *donor.fractional().ft_id(),
                from: *donor.account(),
                to: *to,
                amount,
            },
        )
    }

    /// Completes a transfer of `amount` shares from `donor` to `to` to
    /// which the share store answered `moved`.
    pub fn transfer_fraction_settle(
        &mut self,
        donor: NFTokenFractionRecord,
        to: &AccountId,
        amount: FractionAmount,
        moved: Result<(), DispatchError>,
    ) -> (r: Result<(), Error>)
        requires
            old(self).wf(),
        ensures
            (r, final(self)@) == old(self)@.transfer_fraction(donor, *to, amount, moved),
            final(self).wf(),
    {
        proof {
            lemma_transfer_fraction(self@, donor, *to, amount, moved);
        }
        match self.transfer_fraction_order(&donor, to, amount) {
            Err(e) => Err(e),
            Ok(_) => match moved {
                Err(e) => Err(Error::Backing(e)),
                Ok(_) => {
                    let mut recipient = self.recipient_of(&donor, to);
                    let mut donor = donor;
                    let _ = recipient.increase_amount(amount);
                    self._insert_fraction(recipient);
                    let _ = donor.decrease_amount(amount);
                    if *donor.amount() == 0 {
                        self._remove_fraction(&donor);
                    } else {
                        self._insert_fraction(donor);
                    }
                    Ok(())
                },
            },
        }
    }

    /// Hands out the identifier of the next collection and counts it; hands
    /// out nothing, and changes nothing, where the count is at the top of
    /// its range.
    fn _obtain_collection_id(&mut self) -> (r: Option<InternalCollectionId>)
        ensures
            old(self)@.next_collection_id < InternalCollectionId::MAX ==> r == Some(
                old(self)@.next_collection_id,
            ) && final(self)@ == (LedgerState {
                next_collection_id: (old(self)@.next_collection_id + 1) as InternalCollectionId,
                ..old(self)@
            }),
            old(self)@.next_collection_id == InternalCollectionId::MAX ==> r.is_none()
                && final(self)@ == old(self)@,
    {
        let id: InternalCollectionId = self.next_collection_id;
        match id.checked_add(1) {
            Some(next) => {
                self.next_collection_id = next;
                Some(id)
            },
            None => None,
        }
    }

    /// Writes the new pool and total of `item` to the item record and to
    /// the repository of pools and totals, and the record of the holder
    /// whose shares changed to the repository of fractions: a record
    /// without shares is removed there.
    fn _update_fractions_amount(
        &mut self,
        item: NFTokenItemRecord,
        tag: Fractional,
        fraction: Option<NFTokenFractionRecord>,
    )
        requires
            old(self)@.keys_distinct(),
        ensures
            final(self)@ == (LedgerState {
                items: put(
                    old(self)@.items,
                    item.fingerprint,
                    NFTokenItemRecord { fractional: Some(tag), ..item },
                ),
                fractionals: put(old(self)@.fractionals, item.fingerprint, tag),
                fractions: match fraction {
                    Some(f) => if f.amount == 0 {
                        del(old(self)@.fractions, record_key(f))
                    } else {
                        put(old(self)@.fractions, record_key(f), f)
                    },
                    None => old(self)@.fractions,
                },
                ..old(self)@
            }),
            final(self)@.keys_distinct(),
    {
        let mut item = item;
        let fingerprint = *item.fingerprint();
        self._insert_fractional(&fingerprint, &tag);
        match fraction {
            Some(f) => {
                if *f.amount() == 0 {
                    self._remove_fraction(&f);
                } else {
                    self._insert_fraction(f);
                }
            },
            None => {},
        }
        item.set_fractional(tag);
        self._insert_item(item);
    }

    /// What creating a collection asks of the token store, or why the
    /// operation stops before it asks.
    pub fn create_collection_order(&self, account: &AccountId, max_items: ItemId) -> (r: Result<
        CreateClass,
        Error,
    >)
        requires
            self.wf(),
        ensures
            r == self@.create_collection_order(*account, max_items),
    {
        if max_items == 0 {
            return Err(Error::BadValue);
        }
        if self.next_collection_id == InternalCollectionId::MAX {
            return Err(Error::Overflow);
        }
        Ok(CreateClass { class: self.next_collection_id, who: *account, admin: *account })
    }

    /// Completes the creation of a collection to which the token store
    /// answered `created`.
    pub fn create_collection_settle(
        &mut self,
        account: &AccountId,
        id: CollectionId,
        max_items: ItemId,
        created: Result<(), DispatchError>,
    ) -> (r: Result<(), Error>)
        requires
            old(self).wf(),
        ensures
            (r, final(self)@) == old(self)@.create_collection(*account, id, max_items, created),
            final(self).wf(),
    {
        proof {
            lemma_create_collection(self@, *account, id, max_items, created);
        }
        match self.create_collection_order(account, max_items) {
            Err(e) => Err(e),
            Ok(_) => match self._obtain_collection_id() {
                None => Err(Error::Overflow),
                Some(internal_id) => match created {
                    Err(e) => Err(Error::Backing(e)),
                    Ok(_) => {
                        let collection = NFTokenCollectionRecord::new(
                            account,
                            id,
                            internal_id,
                            max_items,
                            0,
                        );
                        self._insert_collection(collection);
                        Ok(())
                    },
                },
            },
        }
    }

    /// What minting an item asks of the token store, or why the operation
    /// stops before it asks.
    pub fn mint_item_order(&self, collection: &NFTokenCollectionRecord, fingerprint: Fingerprint)
        -> (r: Result<MintToken, Error>)
        requires
            self.wf(),
        ensures
            r == self@.mint_item_order(*collection, fingerprint),
    {
        if self.items.contains_key(&fingerprint) {
            return Err(Error::NoPermission);
        }
        if *collection.items() >= *collection.max_items() {
            return Err(Error::NoPermission);
        }
        if !self.is_live_collection(collection) {
            return Err(Error::UnknownCollection);
        }
        Ok(
            MintToken {
                class: *collection.internal_id(),
                instance: *collection.items(),
                who: *collection.account(),
            },
        )
    }

    /// Completes the minting of an item to which the token store answered
    /// `minted`.
    pub fn mint_item_settle(
        &mut self,
        collection: NFTokenCollectionRecord,
        fingerprint: Fingerprint,
        minted: Result<(), DispatchError>,
    ) -> (r: Result<(), Error>)
        requires
            old(self).wf(),
        ensures
            (r, final(self)@) == old(self)@.mint_item(collection, fingerprint, minted),
            final(self).wf(),
    {
        proof {
            lemma_mint_item(self@, collection, fingerprint, minted);
        }
        match self.mint_item_order(&collection, fingerprint) {
            Err(e) => Err(e),
            Ok(_) => match minted {
                Err(e) => Err(Error::Backing(e)),
                Ok(_) => {
                    let mut collection = collection;
                    match collection.obtain_item_id() {
                        None => Err(Error::NoPermission),
                        Some(id) => {
                            let item = NFTokenItemRecord::new(
                                collection.account(),
                                fingerprint,
                                id,
                                *collection.internal_id(),
                                None,
                            );
                            self._insert_collection(collection);
                            self._insert_item(item);
                            Ok(())
                        },
                    }
                },
            },
        }
    }

    /// What giving an item away asks of the token store, or why the
    /// operation stops before it asks.
    pub fn transfer_item_order(&self, item: &NFTokenItemRecord, to: &AccountId) -> (r: Result<
        MoveToken,
        Error,
    >)
        requires
            self.wf(),
        ensures
            r == self@.transfer_item_order(*item, *to),
    {
        if item.is_fractional() {
            return Err(Error::NoPermission);
        }
        if !self.is_live_item(item) {
            return Err(Error::UnknownItem);
        }
        Ok(MoveToken { class: *item.collection_id(), instance: *item.item_id(), destination: *to })
    }

    /// Completes the transfer of an item to which the token store answered
    /// `moved`.
    pub fn transfer_item_settle(
        &mut self,
        item: NFTokenItemRecord,
        to: &AccountId,
        moved: Result<(), DispatchError>,
    ) -> (r: Result<(), Error>)
        requires
            old(self).wf(),
        ensures
            (r, final(self)@) == old(self)@.transfer_item(item, *to, moved),
            final(self).wf(),
    {
        proof {
            lemma_transfer_item(self@, item, *to, moved);
        }
        match self.transfer_item_order(&item, to) {
            Err(e) => Err(e),
            Ok(_) => match moved {
                Err(e) => Err(Error::Backing(e)),
                Ok(_) => {
                    let mut item = item;
                    item.transfer_item(to);
                    self._insert_item(item);
                    Ok(())
                },
            },
        }
    }

    /// The record of `who` once `amount` shares of `fingerprint` are added
    /// to it, with `tag` as its pool and total.
    fn credited_record(
        &self,
        fingerprint: &Fingerprint,
        who: &AccountId,
        amount: FractionAmount,
        tag: Fractional,
    ) -> (r: NFTokenFractionRecord)
        requires
            self.wf(),
            holding(self@.fractions, *fingerprint, *who) + amount
                <= FractionAmount::MAX,
        ensures
            put(self@.fractions, fraction_key(*fingerprint, *who), r) == credit(
                self@.fractions,
                *fingerprint,
                *who,
                amount,
                tag,
            ),
            record_key(r) == fraction_key(*fingerprint, *who),
            r.amount == holding(self@.fractions, *fingerprint, *who) + amount,
    {
        let key = FractionKey { fingerprint: *fingerprint, account: *who };
        match self.fractions.get(&key) {
            Some(f) => NFTokenFractionRecord {
                account: f.account,
                fingerprint: f.fingerprint,
                fractional: tag,
                amount: f.amount + amount,
                holds: f.holds,
                lock_mask: f.lock_mask,
            },
            None => NFTokenFractionRecord::new(who, *fingerprint, tag, amount, 0),
        }
    }

    /// What splitting an item asks first of the share store, or why the
    /// operation stops before it asks.
    pub fn fractionalize_order(&self, item: &NFTokenItemRecord, total: FractionAmount) -> (r:
        Result<CreatePool, Error>)
        requires
            self.wf(),
        ensures
            r == self@.fractionalize_order(*item, total),
    {
        if total == 0 {
            return Err(Error::BadValue);
        }
        if item.is_fractional() {
            return Err(Error::NoPermission);
        }
        if !self.is_live_item(item) {
            return Err(Error::UnknownItem);
        }
        Ok(CreatePool { account: *item.account(), minimum_balance: 1 })
    }

    /// What splitting `item` asks of the share store once the store has
    /// created the pool `ft_id`: to mint every share to the owner of the
    /// item, and then, where no more may be minted later, to forbid minting
    /// in that pool to that account.
    pub fn fractionalize_mint_order(
        item: &NFTokenItemRecord,
        total: FractionAmount,
        ft_id: FTokenId,
    ) -> (r: PoolOrder)
        ensures
            r == LedgerState::fractionalize_mint_order(*item, total, ft_id),
    {
        PoolOrder { ft_id, who: *item.account(), amount: total }
    }

    /// Completes the splitting of an item for which the share store
    /// answered `pool`, `may_mint`, `minted` and `locked`.
    pub fn fractionalize_settle(
        &mut self,
        item: NFTokenItemRecord,
        total: FractionAmount,
        limited: bool,
        pool: Result<FTokenId, DispatchError>,
        may_mint: bool,
        minted: Result<(), DispatchError>,
        locked: Result<(), DispatchError>,
    ) -> (r: Result<(), Error>)
        requires
            old(self).wf(),
        ensures
            (r, final(self)@) == old(self)@.fractionalize(
                item,
                total,
                limited,
                pool,
                may_mint,
                minted,
                locked,
            ),
            final(self).wf(),
    {
        proof {
            lemma_fractionalize(self@, item, total, limited, pool, may_mint, minted, locked);
        }
        match self.fractionalize_order(&item, total) {
            Err(e) => Err(e),
            Ok(_) => match pool {
                Err(e) => Err(Error::Backing(e)),
                Ok(ft_id) => {
                    if !may_mint {
                        return Err(Error::NoPermission);
                    }
                    match minted {
                        Err(e) => Err(Error::Backing(e)),
                        Ok(_) => {
                            if limited {
                                match locked {
                                    Err(e) => {
                                        return Err(Error::Backing(e));
                                    },
                                    Ok(_) => {},
                                }
                            }
                            let tag = Fractional::new(ft_id, total);
                            proof {
                                lemma_whole_item_unheld(self@, item, item.account);
                            }
                            let fraction = self.credited_record(
                                item.fingerprint(),
                                item.account(),
                                total,
                                tag,
                            );
                            self._update_fractions_amount(item, tag, Some(fraction));
                            self.pools.insert(ft_id, *item.fingerprint());
                            Ok(())
                        },
                    }
                },
            },
        }
    }

    /// What minting shares would ask the share store to mint, or why the
    /// operation stops before it asks anything: the store is asked first
    /// whether the account of this request may mint in its pool.
    pub fn mint_fraction_query(
        &self,
        item: &NFTokenItemRecord,
        who: &AccountId,
        amount: FractionAmount,
    ) -> (r: Result<PoolOrder, Error>)
        requires
            self.wf(),
        ensures
            r == self@.mint_fraction_query(*item, *who, amount),
    {
        if amount == 0 {
            return Err(Error::BadValue);
        }
        let fractional = match item.fractional() {
            None => {
                return Err(Error::NotFractionalized);
            },
            Some(f) => *f,
        };
        if !self.is_live_item(item) {
            return Err(Error::UnknownItem);
        }
        Ok(PoolOrder { ft_id: *fractional.ft_id(), who: *who, amount })
    }

    /// What minting shares asks the share store to mint, where the store
    /// answered `may_mint` to the question whether `who` may mint, or why
    /// the operation stops before it asks to mint.
    pub fn mint_fraction_order(
        &self,
        item: &NFTokenItemRecord,
        who: &AccountId,
        amount: FractionAmount,
        may_mint: bool,
    ) -> (r: Result<PoolOrder, Error>)
        requires
            self.wf(),
        ensures
            r == self@.mint_fraction_order(*item, *who, amount, may_mint),
    {
        let order = match self.mint_fraction_query(item, who, amount) {
            Err(e) => {
                return Err(e);
            },
            Ok(order) => order,
        };
        if !may_mint {
            return Err(Error::NoPermission);
        }
        let total: FractionAmount = match item.fractional() {
            Some(f) => *f.total(),
            None => 0,
        };
        if total.checked_add(amount).is_none() {
            return Err(Error::Overflow);
        }
        Ok(order)
    }

    /// Completes the minting of shares for which the share store answered
    /// `may_mint` and `minted`.
    pub fn mint_fraction_settle(
        &mut self,
        item: NFTokenItemRecord,
        who: &AccountId,
        amount: FractionAmount,
        may_mint: bool,
        minted: Result<(), DispatchError>,
    ) -> (r: Result<(), Error>)
        requires
            old(self).wf(),
        ensures
            (r, final(self)@) == old(self)@.mint_fraction(item, *who, amount, may_mint, minted),
            final(self).wf(),
    {
        proof {
            lemma_mint_fraction(self@, item, *who, amount, may_mint, minted);
        }
        match self.mint_fraction_order(&item, who, amount, may_mint) {
            Err(e) => Err(e),
            Ok(order) => match minted {
                Err(e) => Err(Error::Backing(e)),
                Ok(_) => {
                    let total: FractionAmount = match item.fractional() {
                        Some(f) => *f.total(),
                        None => 0,
                    };
                    let tag = Fractional::new(order.ft_id, total + amount);
                    proof {
                        lemma_holding_bounded(self@, item.fingerprint, *who);
                    }
                    let fraction = self.credited_record(item.fingerprint(), who, amount, tag);
                    self._update_fractions_amount(item, tag, Some(fraction));
                    Ok(())
                },
            },
        }
    }

    /// What burning shares asks of the share store, or why the operation
    /// stops before it asks.
    pub fn burn_fraction_order(
        &self,
        item: &NFTokenItemRecord,
        who: &AccountId,
        amount: FractionAmount,
    ) -> (r: Result<PoolOrder, Error>)
        requires
            self.wf(),
        ensures
            r == self@.burn_fraction_order(*item, *who, amount),
    {
        if *item.account() != *who {
            return Err(Error::WrongOwner);
        }
        if amount == 0 {
            return Err(Error::BadValue);
        }
        let fractional = match item.fractional() {
            None => {
                return Err(Error::NotFractionalized);
            },
            Some(f) => *f,
        };
        if amount > *fractional.total() {
            return Err(Error::InsufficientBalance);
        }
        if !self.is_live_item(item) {
            return Err(Error::UnknownItem);
        }
        Ok(PoolOrder { ft_id: *fractional.ft_id(), who: *who, amount })
    }

    /// Completes the burning of shares for which the share store answered
    /// `may_burn` and `burned`; gives the amount that was withdrawn.
    pub fn burn_fraction_settle(
        &mut self,
        item: NFTokenItemRecord,
        who: &AccountId,
        amount: FractionAmount,
        may_burn: bool,
        burned: Result<FractionAmount, DispatchError>,
    ) -> (r: Result<FractionAmount, Error>)
        requires
            old(self).wf(),
        ensures
            (r, final(self)@) == old(self)@.burn_fraction(item, *who, amount, may_burn, burned),
            final(self).wf(),
    {
        proof {
            lemma_burn_fraction(self@, item, *who, amount, may_burn, burned);
        }
        let order = match self.burn_fraction_order(&item, who, amount) {
            Err(e) => {
                return Err(e);
            },
            Ok(order) => order,
        };
        if !may_burn {
            return Err(Error::NoPermission);
        }
        let withdrawn = match burned {
            Err(e) => {
                return Err(Error::Backing(e));
            },
            Ok(withdrawn) => withdrawn,
        };
        let total: FractionAmount = match item.fractional() {
            Some(f) => *f.total(),
            None => 0,
        };
        let rest = match total.checked_sub(withdrawn) {
            None => {
                return Err(Error::Overflow);
            },
            Some(rest) => rest,
        };
        let tag = Fractional::new(order.ft_id, rest);
        let key = FractionKey { fingerprint: *item.fingerprint(), account: *who };
        match self.fractions.get(&key) {
            None => {
                if withdrawn > 0 {
                    return Err(Error::Overflow);
                }
                self._update_fractions_amount(item, tag, None);
            },
            Some(f) => {
                let mut fraction = NFTokenFractionRecord {
                    account: f.account,
                    fingerprint: f.fingerprint,
                    fractional: tag,
                    amount: f.amount,
                    holds: f.holds,
                    lock_mask: f.lock_mask,
                };
                match fraction.decrease_amount(withdrawn) {
                    Err(_) => {
                        return Err(Error::Overflow);
                    },
                    Ok(_) => {},
                }
                if *fraction.amount() == 0 && fraction.on_hold() {
                    return Err(Error::NoPermission);
                }
                self._update_fractions_amount(item, tag, Some(fraction));
            },
        }
        Ok(withdrawn)
    }
}

/// The operations of the ledger.
///
/// An operation that takes a record takes the record that the caller read
/// from the ledger. A record that is no longer the one that the ledger holds
/// is refused, after the checks on the arguments themselves.
/// An operation that needs a backing store is handed the store. Its result
/// and the state that follows are those that the model gives for the
/// answers of the store, whatever they were, and what it asked of the store
/// is on record there, each request with the answer that was given. An
/// operation that stops before it asks leaves the ledger as it was.
pub trait NFTImplT: Sized {
    /// The state of the ledger.
    spec fn state(&self) -> LedgerState;

    /// The collection known as `id`.
    fn find_collection(&self, id: CollectionId) -> (r: Option<NFTokenCollectionRecord>)
        requires
            self.state().inv(),
        ensures
            r == lookup(self.state().collections, id),
    ;

    /// The item named `fingerprint`.
    fn find_item(&self, fingerprint: Fingerprint) -> (r: Option<NFTokenItemRecord>)
        requires
            self.state().inv(),
        ensures
            r == lookup(self.state().items, fingerprint),
    ;

    /// The shares of `fingerprint` that `account` holds.
    fn find_fraction(&self, fingerprint: Fingerprint, account: &AccountId) -> (r: Option<
        NFTokenFractionRecord,
    >)
        requires
            self.state().inv(),
        ensures
            r == lookup(self.state().fractions, fraction_key(fingerprint, *account)),
    ;

    /// The pool and total of the item named `fingerprint`.
    fn find_fractional(&self, fingerprint: Fingerprint) -> (r: Option<Fractional>)
        requires
            self.state().inv(),
        ensures
            r == lookup(self.state().fractionals, fingerprint),
    ;

    /// The item behind the pool `ft_id`.
    fn get_fingerprint_by_fraction_token_id(&self, ft_id: &FTokenId) -> (r: Result<
        Fingerprint,
        Error,
    >)
        requires
            self.state().inv(),
        ensures
            r == match lookup(self.state().pools, *ft_id) {
                Some(fingerprint) => Ok::<Fingerprint, Error>(fingerprint),
                None => Err(Error::UnknownItem),
            },
    ;

    /// Creates the collection `id` of at most `max_items` items for
    /// `account`, and its class in the token store.
    fn create_collection<N: Nonfungibles>(
        &mut self,
        tokens: &mut Backing<N>,
        account: &AccountId,
        id: CollectionId,
        max_items: ItemId,
    ) -> (r: Result<(), Error>)
        requires
            old(self).state().inv(),
        ensures
            final(self).state().inv(),
            ({
                let s = old(self).state();
                exists|created: Result<(), DispatchError>|
                    {
                        &&& (r, final(self).state()) == s.create_collection(
                            *account,
                            id,
                            max_items,
                            created,
                        )
                        &&& final(tokens).asked() == old(tokens).asked()
                            + s.create_collection_asks(*account, max_items, created)
                    }
            }),
    ;

    /// Mints the item named `fingerprint` into `collection`, for the owner
    /// of the collection, and its token in the token store.
    fn mint_item<N: Nonfungibles>(
        &mut self,
        tokens: &mut Backing<N>,
        collection: NFTokenCollectionRecord,
        fingerprint: Fingerprint,
    ) -> (r: Result<(), Error>)
        requires
            old(self).state().inv(),
        ensures
            final(self).state().inv(),
            ({
                let s = old(self).state();
                exists|minted: Result<(), DispatchError>|
                    {
                        &&& (r, final(self).state()) == s.mint_item(collection, fingerprint, minted)
                        &&& final(tokens).asked() == old(tokens).asked() + s.mint_item_asks(
                            collection,
                            fingerprint,
                            minted,
                        )
                    }
            }),
    ;

    /// Splits `item` into `total` shares of a new pool, all for the owner
    /// of the item; where `limited` is set, no more can be minted later.
    fn fractionalize<F: Fungibles>(
        &mut self,
        shares: &mut Backing<F>,
        item: NFTokenItemRecord,
        total: FractionAmount,
        limited: bool,
    ) -> (r: Result<(), Error>)
        requires
            old(self).state().inv(),
        ensures
            final(self).state().inv(),
            ({
                let s = old(self).state();
                exists|
                    pool: Result<FTokenId, DispatchError>,
                    may_mint: bool,
                    minted: Result<(), DispatchError>,
                    locked: Result<(), DispatchError>,
                |
                    {
                        &&& (r, final(self).state()) == s.fractionalize(
                            item,
                            total,
                            limited,
                            pool,
                            may_mint,
                            minted,
                            locked,
                        )
                        &&& final(shares).asked() == old(shares).asked() + s.fractionalize_asks(
                            item,
                            total,
                            limited,
                            pool,
                            may_mint,
                            minted,
                            locked,
                        )
                    }
            }),
    ;

    /// Mints `amount` shares of `item` to `who`.
    fn mint_fraction<F: Fungibles>(
        &mut self,
        shares: &mut Backing<F>,
        item: NFTokenItemRecord,
        who: &AccountId,
        amount: FractionAmount,
    ) -> (r: Result<(), Error>)
        requires
            old(self).state().inv(),
        ensures
            final(self).state().inv(),
            ({
                let s = old(self).state();
                exists|may_mint: bool, minted: Result<(), DispatchError>|
                    {
                        &&& (r, final(self).state()) == s.mint_fraction(
                            item,
                            *who,
                            amount,
                            may_mint,
                            minted,
                        )
                        &&& final(shares).asked() == old(shares).asked() + s.mint_fraction_asks(
                            item,
                            *who,
                            amount,
                            may_mint,
                            minted,
                        )
                    }
            }),
    ;

    /// Burns `amount` shares of `item` that its owner `who` holds; gives the
    /// amount that the share store withdrew.
    fn burn_fraction<F: Fungibles>(
        &mut self,
        shares: &mut Backing<F>,
        item: NFTokenItemRecord,
        who: &AccountId,
        amount: FractionAmount,
    ) -> (r: Result<FractionAmount, Error>)
        requires
            old(self).state().inv(),
        ensures
            final(self).state().inv(),
            ({
                let s = old(self).state();
                exists|may_burn: bool, burned: Result<FractionAmount, DispatchError>|
                    {
                        &&& (r, final(self).state()) == s.burn_fraction(
                            item,
                            *who,
                            amount,
                            may_burn,
                            burned,
                        )
                        &&& final(shares).asked() == old(shares).asked() + s.burn_fraction_asks(
                            item,
                            *who,
                            amount,
                            may_burn,
                            burned,
                        )
                    }
            }),
    ;

    /// Gives `collection` to `to`.
    fn transfer_collection(&mut self, collection: NFTokenCollectionRecord, to: &AccountId) -> (r:
        Result<(), Error>)
        requires
            old(self).state().inv(),
        ensures
            final(self).state().inv(),
            (r, final(self).state()) == old(self).state().transfer_collection(collection, *to),
    ;

    /// Gives the whole item `item` to `to`.
    fn transfer_item<N: Nonfungibles>(
        &mut self,
        tokens: &mut Backing<N>,
        item: NFTokenItemRecord,
        to: &AccountId,
    ) -> (r: Result<(), Error>)
        requires
            old(self).state().inv(),
        ensures
            final(self).state().inv(),
            ({
                let s = old(self).state();
                exists|moved: Result<(), DispatchError>|
                    {
                        &&& (r, final(self).state()) == s.transfer_item(item, *to, moved)
                        &&& final(tokens).asked() == old(tokens).asked() + s.transfer_item_asks(
                            item,
                            *to,
                            moved,
                        )
                    }
            }),
    ;

    /// Moves `amount` of the shares that `donor` records to `to`.
    fn transfer_fraction<F: Fungibles>(
        &mut self,
        shares: &mut Backing<F>,
        donor: NFTokenFractionRecord,
        to: &AccountId,
        amount: FractionAmount,
    ) -> (r: Result<(), Error>)
        requires
            old(self).state().inv(),
        ensures
            final(self).state().inv(),
            ({
                let s = old(self).state();
                exists|moved: Result<(), DispatchError>|
                    {
                        &&& (r, final(self).state()) == s.transfer_fraction(
                            donor,
                            *to,
                            amount,
                            moved,
                        )
                        &&& final(shares).asked() == old(shares).asked()
                            + s.transfer_fraction_asks(donor, *to, amount, moved)
                    }
            }),
    ;

    /// Sets the flags of `mask` on the shares that `fraction` records; gives
    /// the guard that stands for the lock.
    fn lock_fraction(&mut self, fraction: NFTokenFractionRecord, mask: FractionLockMask) -> (r:
        Result<LockGuard, Error>)
        requires
            old(self).state().inv(),
        ensures
            final(self).state().inv(),
            (r, final(self).state()) == old(self).state().lock_fraction(fraction, mask),
    ;

    /// Places a hold of `holder_id` on the shares that `fraction` records;
    /// gives the guard with which the hold is released.
    fn hold_fraction(&mut self, fraction: NFTokenFractionRecord, holder_id: FractionHolderId) -> (r:
        Result<LockGuard, Error>)
        requires
            old(self).state().inv(),
        ensures
            final(self).state().inv(),
            (r, final(self).state()) == old(self).state().hold_fraction(fraction, holder_id),
    ;

    /// Releases the hold that `holder_id` placed on the shares that
    /// `fraction` records and for which `guard` was issued.
    fn unhold_fraction(
        &mut self,
        fraction: NFTokenFractionRecord,
        holder_id: FractionHolderId,
        guard: LockGuard,
    ) -> (r: Result<(), Error>)
        requires
            old(self).state().inv(),
        ensures
            final(self).state().inv(),
            (r, final(self).state()) == old(self).state().unhold_fraction(
                fraction,
                holder_id,
                guard,
            ),
    ;
}

impl NFTImplT for Ledger {
    open spec fn state(&self) -> LedgerState {
        self@
    }

    fn find_collection(&self, id: CollectionId) -> (r: Option<NFTokenCollectionRecord>) {
        self.collections.get(&id)
    }

    fn find_item(&self, fingerprint: Fingerprint) -> (r: Option<NFTokenItemRecord>) {
        self.items.get(&fingerprint)
    }

    fn find_fraction(&self, fingerprint: Fingerprint, account: &AccountId) -> (r: Option<
        NFTokenFractionRecord,
    >) {
        self.fractions.get(&FractionKey { fingerprint, account: *account })
    }

    fn find_fractional(&self, fingerprint: Fingerprint) -> (r: Option<Fractional>) {
        self.fractionals.get(&fingerprint)
    }

    fn get_fingerprint_by_fraction_token_id(&self, ft_id: &FTokenId) -> (r: Result<
        Fingerprint,
        Error,
    >) {
        match self.pools.get(ft_id) {
            Some(fingerprint) => Ok(fingerprint),
            None => Err(Error::UnknownItem),
        }
    }

    fn create_collection<N: Nonfungibles>(
        &mut self,
        tokens: &mut Backing<N>,
        account: &AccountId,
        id: CollectionId,
        max_items: ItemId,
    ) -> (r: Result<(), Error>) {
        let ghost s = self@;
        let ghost asked = tokens.asked();
        let created = match self.create_collection_order(account, max_items) {
            Err(e) => {
                let ghost unasked: Result<(), DispatchError> = Ok(());
                assert((Err::<(), Error>(e), s) == s.create_collection(
                    *account,
                    id,
                    max_items,
                    unasked,
                ));
                assert(asked == asked + s.create_collection_asks(*account, max_items, unasked));
                return Err(e);
            },
            Ok(order) => tokens.create_class(order),
        };
        let r = self.create_collection_settle(account, id, max_items, created);
        assert(tokens.asked() == asked + s.create_collection_asks(*account, max_items, created));
        r
    }

    fn mint_item<N: Nonfungibles>(
        &mut self,
        tokens: &mut Backing<N>,
        collection: NFTokenCollectionRecord,
        fingerprint: Fingerprint,
    ) -> (r: Result<(), Error>) {
        let ghost s = self@;
        let ghost asked = tokens.asked();
        let minted = match self.mint_item_order(&collection, fingerprint) {
            Err(e) => {
                let ghost unasked: Result<(), DispatchError> = Ok(());
                assert((Err::<(), Error>(e), s) == s.mint_item(collection, fingerprint, unasked));
                assert(asked == asked + s.mint_item_asks(collection, fingerprint, unasked));
                return Err(e);
            },
            Ok(order) => tokens.mint_into(order),
        };
        let r = self.mint_item_settle(collection, fingerprint, minted);
        assert(tokens.asked() == asked + s.mint_item_asks(collection, fingerprint, minted));
        r
    }

    fn fractionalize<F: Fungibles>(
        &mut self,
        shares: &mut Backing<F>,
        item: NFTokenItemRecord,
        total: FractionAmount,
        limited: bool,
    ) -> (r: Result<(), Error>) {
        let ghost s = self@;
        let ghost asked = shares.asked();
        let done: Result<(), DispatchError> = Ok(());
        let order = match self.fractionalize_order(&item, total) {
            Err(e) => {
                let ghost none: Result<FTokenId, DispatchError> = Ok(0);
                assert((Err::<(), Error>(e), s) == s.fractionalize(
                    item,
                    total,
                    limited,
                    none,
                    true,
                    done,
                    done,
                ));
                assert(asked == asked + s.fractionalize_asks(
                    item,
                    total,
                    limited,
                    none,
                    true,
                    done,
                    done,
                ));
                return Err(e);
            },
            Ok(order) => order,
        };
        let pool = shares.create_ft(order);
        let mut may_mint = true;
        let mut minted = done;
        let mut locked = done;
        match pool {
            Err(_) => {},
            Ok(ft_id) => {
                let mint = Self::fractionalize_mint_order(&item, total, ft_id);
                may_mint = shares.can_mint(mint.ft_id, &mint.who);
                if may_mint {
                    minted = shares.mint_ft(mint);
                    if minted.is_ok() && limited {
                        locked = shares.lock_minting(mint.ft_id, &mint.who);
                    }
                }
            },
        }
        let r = self.fractionalize_settle(item, total, limited, pool, may_mint, minted, locked);
        assert(shares.asked() == asked + s.fractionalize_asks(
            item,
            total,
            limited,
            pool,
            may_mint,
            minted,
            locked,
        ));
        r
    }

    fn mint_fraction<F: Fungibles>(
        &mut self,
        shares: &mut Backing<F>,
        item: NFTokenItemRecord,
        who: &AccountId,
        amount: FractionAmount,
    ) -> (r: Result<(), Error>) {
        let ghost s = self@;
        let ghost asked = shares.asked();
        let done: Result<(), DispatchError> = Ok(());
        let query = match self.mint_fraction_query(&item, who, amount) {
            Err(e) => {
                assert((Err::<(), Error>(e), s) == s.mint_fraction(item, *who, amount, true, done));
                assert(asked == asked + s.mint_fraction_asks(item, *who, amount, true, done));
                return Err(e);
            },
            Ok(query) => query,
        };
        let may_mint = shares.can_mint(query.ft_id, &query.who);
        let minted = match self.mint_fraction_order(&item, who, amount, may_mint) {
            Err(_) => done,
            Ok(order) => shares.mint_ft(order),
        };
        let r = self.mint_fraction_settle(item, who, amount, may_mint, minted);
        assert(shares.asked() == asked + s.mint_fraction_asks(
            item,
            *who,
            amount,
            may_mint,
            minted,
        ));
        r
    }

    fn burn_fraction<F: Fungibles>(
        &mut self,
        shares: &mut Backing<F>,
        item: NFTokenItemRecord,
        who: &AccountId,
        amount: FractionAmount,
    ) -> (r: Result<FractionAmount, Error>) {
        let ghost s = self@;
        let ghost asked = shares.asked();
        let none: Result<FractionAmount, DispatchError> = Ok(0);
        let order = match self.burn_fraction_order(&item, who, amount) {
            Err(e) => {
                assert((Err::<FractionAmount, Error>(e), s) == s.burn_fraction(
                    item,
                    *who,
                    amount,
                    true,
                    none,
                ));
                assert(asked == asked + s.burn_fraction_asks(item, *who, amount, true, none));
                return Err(e);
            },
            Ok(order) => order,
        };
        let may_burn = shares.can_burn(order.ft_id, &order.who);
        let burned = if may_burn {
            shares.burn_ft(order)
        } else {
            none
        };
        let r = self.burn_fraction_settle(item, who, amount, may_burn, burned);
        assert(shares.asked() == asked + s.burn_fraction_asks(
            item,
            *who,
            amount,
            may_burn,
            burned,
        ));
        r
    }

    fn transfer_collection(&mut self, collection: NFTokenCollectionRecord, to: &AccountId) -> (r:
        Result<(), Error>) {
        proof {
            lemma_transfer_collection(self@, collection, *to);
        }
        if !self.is_live_collection(&collection) {
            return Err(Error::UnknownCollection);
        }
        let mut collection = collection;
        collection.transfer_collection(to);
        self._insert_collection(collection);
        Ok(())
    }

    fn transfer_item<N: Nonfungibles>(
        &mut self,
        tokens: &mut Backing<N>,
        item: NFTokenItemRecord,
        to: &AccountId,
    ) -> (r: Result<(), Error>) {
        let ghost s = self@;
        let ghost asked = tokens.asked();
        let moved = match self.transfer_item_order(&item, to) {
            Err(e) => {
                let ghost unasked: Result<(), DispatchError> = Ok(());
                assert((Err::<(), Error>(e), s) == s.transfer_item(item, *to, unasked));
                assert(asked == asked + s.transfer_item_asks(item, *to, unasked));
                return Err(e);
            },
            Ok(order) => tokens.transfer_token(order),
        };
        let r = self.transfer_item_settle(item, to, moved);
        assert(tokens.asked() == asked + s.transfer_item_asks(item, *to, moved));
        r
    }

    fn transfer_fraction<F: Fungibles>(
        &mut self,
        shares: &mut Backing<F>,
        donor: NFTokenFractionRecord,
        to: &AccountId,
        amount: FractionAmount,
    ) -> (r: Result<(), Error>) {
        let ghost s = self@;
        let ghost asked = shares.asked();
        let moved = match self.transfer_fraction_order(&donor, to, amount) {
            Err(e) => {
                let ghost unasked: Result<(), DispatchError> = Ok(());
                assert((Err::<(), Error>(e), s) == s.transfer_fraction(
                    donor,
                    *to,
                    amount,
                    unasked,
                ));
                assert(asked == asked + s.transfer_fraction_asks(donor, *to, amount, unasked));
                return Err(e);
            },
            Ok(order) => shares.transfer_shares(order),
        };
        let r = self.transfer_fraction_settle(donor, to, amount, moved);
        assert(shares.asked() == asked + s.transfer_fraction_asks(donor, *to, amount, moved));
        r
    }

    fn lock_fraction(&mut self, fraction: NFTokenFractionRecord, mask: FractionLockMask) -> (r:
        Result<LockGuard, Error>) {
        proof {
            lemma_lock_fraction(self@, fraction, mask);
        }
        if !self.is_live_fraction(&fraction) {
            return Err(Error::UnknownItem);
        }
        let timepoint = self.timepoint;
        let number = match LockGuard::obtain_number(&mut self.lock_numbers, &timepoint) {
            None => {
                return Err(Error::Overflow);
            },
            Some(number) => number,
        };
        let mut fraction = fraction;
        fraction.lock(mask);
        self._insert_fraction(fraction);
        Ok(LockGuard::new(timepoint, number, mask.bits()))
    }

    fn hold_fraction(&mut self, fraction: NFTokenFractionRecord, holder_id: FractionHolderId) -> (r:
        Result<LockGuard, Error>) {
        proof {
            lemma_hold_fraction(self@, fraction, holder_id);
        }
        if !self.is_live_fraction(&fraction) {
            return Err(Error::UnknownItem);
        }
        let timepoint = self.timepoint;
        let number = match self.lock_numbers.get(&timepoint) {
            Some(n) => n,
            None => 0,
        };
        if number == LockNumber::MAX {
            return Err(Error::Overflow);
        }
        let guard = LockGuard::new(timepoint, number, 0);
        let key = Self::_fraction_hold_key(&fraction, holder_id, guard);
        if self.holds.contains_key(&key) {
            return Err(Error::NoPermission);
        }
        let mut fraction = fraction;
        match fraction.inc_holds() {
            Err(_) => {
                return Err(Error::Overflow);
            },
            Ok(_) => {},
        }
        self.lock_numbers.insert(timepoint, number + 1);
        self.holds.insert(key, (holder_id, guard));
        self._insert_fraction(fraction);
        Ok(guard)
    }

    fn unhold_fraction(
        &mut self,
        fraction: NFTokenFractionRecord,
        holder_id: FractionHolderId,
        guard: LockGuard,
    ) -> (r: Result<(), Error>) {
        proof {
            lemma_unhold_fraction(self@, fraction, holder_id, guard);
        }
        let key = Self::_fraction_hold_key(&fraction, holder_id, guard);
        if !self.holds.contains_key(&key) {
            return Err(Error::NoPermission);
        }
        if !self.is_live_fraction(&fraction) {
            return Err(Error::UnknownItem);
        }
        let mut fraction = fraction;
        match fraction.dec_holds() {
            Err(_) => {
                return Err(Error::Overflow);
            },
            Ok(_) => {},
        }
        self.holds.remove(&key);
        self._insert_fraction(fraction);
        Ok(())
    }
}

} // verus!
