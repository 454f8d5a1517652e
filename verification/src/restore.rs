//! Testing whether given repositories make a sound ledger.
//!
//! The state of a ledger is sound when something holds of every entry of
//! each of its repositories. The functions here test the repositories entry
//! by entry, and [`lemma_sound_by_entries`] shows that this is the same as
//! the soundness that the operations keep.

use vstd::prelude::*;
use crate::guard::{next_number, HoldKey, LockGuard};
use crate::ids::{
    CollectionId, FTokenId, Fingerprint, FractionAmount, FractionHolderId, FractionKey,
    InternalCollectionId, LockNumber, Timepoint,
};
use crate::model::{record_key, LedgerState};
use crate::records::{
    Fractional, NFTokenCollectionRecord, NFTokenFractionRecord, NFTokenItemRecord,
};
use crate::sound::{
    declared_total, hold_weight, holds_counted, holds_placed, share_weight, shares_held,
};
use crate::table::{
    every, every_found, has_key, lemma_every, lemma_position, lemma_sum_bounds, lemma_sum_take,
    lemma_sum_zero, lookup, sum_by, Table,
};

verus! {

/// Another collection does not have the internal identifier of the
/// collection `c` stored under `k`.
pub open spec fn apart(k: CollectionId, c: NFTokenCollectionRecord) -> spec_fn(
    CollectionId,
    NFTokenCollectionRecord,
) -> bool {
    |l: CollectionId, d: NFTokenCollectionRecord| k != l ==> c.internal_id != d.internal_id
}

/// What holds of every collection of a sound ledger.
pub open spec fn collection_ok(
    collections: Seq<(CollectionId, NFTokenCollectionRecord)>,
    next: InternalCollectionId,
) -> spec_fn(CollectionId, NFTokenCollectionRecord) -> bool {
    |k: CollectionId, c: NFTokenCollectionRecord|
        {
            &&& c.collection_id == k
            &&& c.within_capacity()
            &&& c.internal_id < next
            &&& every(collections, apart(k, c))
        }
}

/// What holds of every item of a sound ledger.
pub open spec fn item_ok(
    fractionals: Seq<(Fingerprint, Fractional)>,
    fractions: Seq<(FractionKey, NFTokenFractionRecord)>,
) -> spec_fn(Fingerprint, NFTokenItemRecord) -> bool {
    |k: Fingerprint, item: NFTokenItemRecord|
        {
            &&& item.fingerprint == k
            &&& lookup(fractionals, k) == item.fractional
            &&& shares_held(fractions, k) == match item.fractional {
                Some(fractional) => fractional.total as nat,
                None => 0,
            }
        }
}

/// What holds of every fraction record of a sound ledger.
pub open spec fn fraction_ok(
    items: Seq<(Fingerprint, NFTokenItemRecord)>,
    holds: Seq<(HoldKey, (FractionHolderId, LockGuard))>,
) -> spec_fn(FractionKey, NFTokenFractionRecord) -> bool {
    |k: FractionKey, r: NFTokenFractionRecord|
        {
            &&& record_key(r) == k
            &&& r.amount > 0
            &&& match lookup(items, k.fingerprint) {
                Some(item) => match item.fractional {
                    Some(fractional) => fractional.ft_id == r.fractional.ft_id,
                    None => false,
                },
                None => false,
            }
            &&& holds_placed(holds, k) == r.holds
        }
}

/// What holds of every entry of the pools and totals of a sound ledger.
pub open spec fn fractional_ok(items: Seq<(Fingerprint, NFTokenItemRecord)>) -> spec_fn(
    Fingerprint,
    Fractional,
) -> bool {
    |k: Fingerprint, f: Fractional| lookup(items, k).is_some()
}

/// What holds of every entry of the pool index of a sound ledger.
pub open spec fn pool_ok(items: Seq<(Fingerprint, NFTokenItemRecord)>) -> spec_fn(
    FTokenId,
    Fingerprint,
) -> bool {
    |k: FTokenId, fingerprint: Fingerprint|
        match lookup(items, fingerprint) {
            Some(item) => match item.fractional {
                Some(fractional) => fractional.ft_id == k,
                None => false,
            },
            None => false,
        }
}

/// What holds of every hold of a sound ledger.
pub open spec fn hold_ok(
    fractions: Seq<(FractionKey, NFTokenFractionRecord)>,
    numbers: Seq<(Timepoint, LockNumber)>,
) -> spec_fn(HoldKey, (FractionHolderId, LockGuard)) -> bool {
    |k: HoldKey, v: (FractionHolderId, LockGuard)|
        {
            &&& v == (k.holder_id, k.guard)
            &&& lookup(
                fractions,
                FractionKey { fingerprint: k.fingerprint, account: k.account },
            ).is_some()
            &&& k.guard@.number < next_number(numbers, k.guard@.timepoint)
        }
}

/// What holds of every entry of every repository of a sound ledger.
pub open spec fn sound_by_entries(s: LedgerState) -> bool {
    &&& every(s.collections, collection_ok(s.collections, s.next_collection_id))
    &&& every(s.items, item_ok(s.fractionals, s.fractions))
    &&& every(s.fractions, fraction_ok(s.items, s.holds))
    &&& every(s.fractionals, fractional_ok(s.items))
    &&& every(s.pools, pool_ok(s.items))
    &&& every(s.holds, hold_ok(s.fractions, s.lock_numbers))
}

proof fn lemma_entries_give_sound(s: LedgerState)
    requires
        s.keys_distinct(),
        sound_by_entries(s),
    ensures
        s.inv(),
{
    lemma_every(s.collections, collection_ok(s.collections, s.next_collection_id));
    lemma_every(s.items, item_ok(s.fractionals, s.fractions));
    lemma_every(s.fractions, fraction_ok(s.items, s.holds));
    lemma_every(s.fractionals, fractional_ok(s.items));
    lemma_every(s.pools, pool_ok(s.items));
    lemma_every(s.holds, hold_ok(s.fractions, s.lock_numbers));
    assert(s.keyed());
    assert(s.within_capacity());
    assert forall|k: CollectionId, l: CollectionId|
        #![trigger lookup(s.collections, k), lookup(s.collections, l)]
        match (lookup(s.collections, k), lookup(s.collections, l)) {
            (Some(c), Some(d)) => k != l ==> c.internal_id != d.internal_id,
            _ => true,
        } by {
        match (lookup(s.collections, k), lookup(s.collections, l)) {
            (Some(c), Some(d)) => {
                lemma_every(s.collections, apart(k, c));
                assert(every_found(s.collections, apart(k, c)));
            },
            _ => {},
        }
    }
    assert(s.collections_numbered());
    assert(s.pools_indexed());
    assert(s.fractions_sound());
    assert forall|k: Fingerprint| #![trigger lookup(s.fractionals, k)]
        lookup(s.fractionals, k) == match lookup(s.items, k) {
            Some(item) => item.fractional,
            None => None,
        } by {
    }
    assert forall|fingerprint: Fingerprint| #![trigger shares_held(s.fractions, fingerprint)]
        shares_held(s.fractions, fingerprint) == declared_total(s.items, fingerprint) by {
        if lookup(s.items, fingerprint).is_none() {
            let w = share_weight(fingerprint);
            assert forall|i: int| 0 <= i < s.fractions.len() implies w(
                (#[trigger] s.fractions[i]).0,
                s.fractions[i].1,
            ) == 0 by {
                lemma_position(s.fractions, i);
            }
            lemma_sum_zero(s.fractions, w);
        }
    }
    assert forall|key: FractionKey| #![trigger holds_placed(s.holds, key)]
        holds_placed(s.holds, key) == holds_counted(s.fractions, key) by {
        if lookup(s.fractions, key).is_none() {
            let w = hold_weight(key);
            assert forall|i: int| 0 <= i < s.holds.len() implies w(
                (#[trigger] s.holds[i]).0,
                s.holds[i].1,
            ) == 0 by {
                lemma_position(s.holds, i);
                let k = s.holds[i].0;
                if k.fingerprint == key.fingerprint && k.account == key.account {
                    assert(FractionKey { fingerprint: k.fingerprint, account: k.account } == key);
                }
            }
            lemma_sum_zero(s.holds, w);
        }
    }
    assert forall|k: HoldKey| #![trigger has_key(s.holds, k)]
        has_key(s.holds, k) implies k.guard@.number < next_number(
            s.lock_numbers,
            k.guard@.timepoint,
        ) by {
        assert(lookup(s.holds, k).is_some());
    }
}

proof fn lemma_sound_gives_entries(s: LedgerState)
    requires
        s.inv(),
    ensures
        sound_by_entries(s),
{
    assert(every_found(s.collections, collection_ok(s.collections, s.next_collection_id))) by {
        assert forall|k: CollectionId| #![trigger lookup(s.collections, k)]
            match lookup(s.collections, k) {
                Some(c) => collection_ok(s.collections, s.next_collection_id)(k, c),
                None => true,
            } by {
            match lookup(s.collections, k) {
                Some(c) => {
                    assert(every_found(s.collections, apart(k, c))) by {
                        assert forall|l: CollectionId| #![trigger lookup(s.collections, l)]
                            match lookup(s.collections, l) {
                                Some(d) => apart(k, c)(l, d),
                                None => true,
                            } by {
                            let _ = (lookup(s.collections, k), lookup(s.collections, l));
                        }
                    }
                    lemma_every(s.collections, apart(k, c));
                },
                None => {},
            }
        }
    }
    assert(every_found(s.items, item_ok(s.fractionals, s.fractions))) by {
        assert forall|k: Fingerprint| #![trigger lookup(s.items, k)]
            match lookup(s.items, k) {
                Some(item) => item_ok(s.fractionals, s.fractions)(k, item),
                None => true,
            } by {
            assert(shares_held(s.fractions, k) == declared_total(s.items, k));
            let _ = lookup(s.fractionals, k);
        }
    }
    assert(every_found(s.fractions, fraction_ok(s.items, s.holds))) by {
        assert forall|k: FractionKey| #![trigger lookup(s.fractions, k)]
            match lookup(s.fractions, k) {
                Some(r) => fraction_ok(s.items, s.holds)(k, r),
                None => true,
            } by {
            assert(holds_placed(s.holds, k) == holds_counted(s.fractions, k));
        }
    }
    assert(every_found(s.fractionals, fractional_ok(s.items)));
    assert(every_found(s.pools, pool_ok(s.items)));
    assert(every_found(s.holds, hold_ok(s.fractions, s.lock_numbers))) by {
        assert forall|k: HoldKey| #![trigger lookup(s.holds, k)]
            match lookup(s.holds, k) {
                Some(v) => hold_ok(s.fractions, s.lock_numbers)(k, v),
                None => true,
            } by {
            if lookup(s.holds, k).is_some() {
                let key = FractionKey { fingerprint: k.fingerprint, account: k.account };
                assert(has_key(s.holds, k));
                lemma_sum_bounds(s.holds, k, hold_weight(key));
                assert(holds_placed(s.holds, key) == holds_counted(s.fractions, key));
            }
        }
    }
    lemma_every(s.collections, collection_ok(s.collections, s.next_collection_id));
    lemma_every(s.items, item_ok(s.fractionals, s.fractions));
    lemma_every(s.fractions, fraction_ok(s.items, s.holds));
    lemma_every(s.fractionals, fractional_ok(s.items));
    lemma_every(s.pools, pool_ok(s.items));
    lemma_every(s.holds, hold_ok(s.fractions, s.lock_numbers));
}

/// A state with distinct keys is sound where its repositories pass the
/// test entry by entry, and only there.
pub proof fn lemma_sound_by_entries(s: LedgerState)
    requires
        s.keys_distinct(),
    ensures
        s.inv() == sound_by_entries(s),
{
    if s.inv() {
        lemma_sound_gives_entries(s);
    }
    if sound_by_entries(s) {
        lemma_entries_give_sound(s);
    }
}

/// The shares of `fingerprint` over all who hold some, or nothing where
/// they add up to more than an amount can say.
fn sum_shares(fractions: &Table<FractionKey, NFTokenFractionRecord>, fingerprint: &Fingerprint)
    -> (sum: Option<FractionAmount>)
    ensures
        match sum {
            Some(n) => n == shares_held(fractions@, *fingerprint),
            None => shares_held(fractions@, *fingerprint) > FractionAmount::MAX,
        },
{
    let ghost w = share_weight(*fingerprint);
    let mut sum: FractionAmount = 0;
    let mut i: usize = 0;
    proof {
        lemma_sum_take(fractions@, 0, w);
    }
    while i < fractions.len()
        invariant
            i <= fractions@.len(),
            w == share_weight(*fingerprint),
            sum == sum_by(fractions@.take(i as int), w),
        decreases fractions@.len() - i,
    {
        let (key, record) = fractions.entry(i);
        proof {
            lemma_sum_take(fractions@, i + 1, w);
        }
        if key.fingerprint == *fingerprint {
            match sum.checked_add(record.amount) {
                Some(more) => {
                    sum = more;
                },
                None => {
                    return None;
                },
            }
        }
        i = i + 1;
    }
    proof {
        assert(fractions@.take(fractions@.len() as int) == fractions@);
    }
    Some(sum)
}

/// The number of holds on the fraction `key`.
fn count_holds(holds: &Table<HoldKey, (FractionHolderId, LockGuard)>, key: &FractionKey) -> (count:
    usize)
    ensures
        count == holds_placed(holds@, *key),
{
    let ghost w = hold_weight(*key);
    let mut count: usize = 0;
    let mut i: usize = 0;
    proof {
        lemma_sum_take(holds@, 0, w);
    }
    while i < holds.len()
        invariant
            i <= holds@.len(),
            w == hold_weight(*key),
            count <= i,
            count == sum_by(holds@.take(i as int), w),
        decreases holds@.len() - i,
    {
        let (hold, _) = holds.entry(i);
        proof {
            lemma_sum_take(holds@, i + 1, w);
        }
        if hold.fingerprint == key.fingerprint && hold.account == key.account {
            count = count + 1;
        }
        i = i + 1;
    }
    proof {
        assert(holds@.take(holds@.len() as int) == holds@);
    }
    count
}

/// Whether no other collection has the internal identifier of `c`.
fn is_apart(
    collections: &Table<CollectionId, NFTokenCollectionRecord>,
    k: &CollectionId,
    c: &NFTokenCollectionRecord,
) -> (b: bool)
    ensures
        b == every(collections@, apart(*k, *c)),
{
    let mut i: usize = 0;
    while i < collections.len()
        invariant
            i <= collections@.len(),
            forall|j: int|
                0 <= j < i ==> apart(*k, *c)((#[trigger] collections@[j]).0, collections@[j].1),
        decreases collections@.len() - i,
    {
        let (l, d) = collections.entry(i);
        if !(*k == l) && c.internal_id == d.internal_id {
            assert(!apart(*k, *c)(collections@[i as int].0, collections@[i as int].1));
            return false;
        }
        i = i + 1;
    }
    true
}

/// Whether the collections are those of a sound ledger.
pub(crate) fn collections_ok(
    collections: &Table<CollectionId, NFTokenCollectionRecord>,
    next: InternalCollectionId,
) -> (b: bool)
    ensures
        b == every(collections@, collection_ok(collections@, next)),
{
    let ghost p = collection_ok(collections@, next);
    let mut i: usize = 0;
    while i < collections.len()
        invariant
            i <= collections@.len(),
            p == collection_ok(collections@, next),
            forall|j: int| 0 <= j < i ==> p((#[trigger] collections@[j]).0, collections@[j].1),
        decreases collections@.len() - i,
    {
        let (k, c) = collections.entry(i);
        let ok = c.collection_id == k && c.items <= c.max_items && c.internal_id < next
            && is_apart(collections, &k, &c);
        if !ok {
            assert(!p(collections@[i as int].0, collections@[i as int].1));
            return false;
        }
        i = i + 1;
    }
    true
}

/// Whether the items are those of a sound ledger with these pools and
/// totals and these fractions.
pub(crate) fn items_ok(
    items: &Table<Fingerprint, NFTokenItemRecord>,
    fractionals: &Table<Fingerprint, Fractional>,
    fractions: &Table<FractionKey, NFTokenFractionRecord>,
) -> (b: bool)
    requires
        fractionals.wf(),
    ensures
        b == every(items@, item_ok(fractionals@, fractions@)),
{
    let ghost p = item_ok(fractionals@, fractions@);
    let mut i: usize = 0;
    while i < items.len()
        invariant
            i <= items@.len(),
            fractionals.wf(),
            p == item_ok(fractionals@, fractions@),
            forall|j: int| 0 <= j < i ==> p((#[trigger] items@[j]).0, items@[j].1),
        decreases items@.len() - i,
    {
        let (k, item) = items.entry(i);
        let total: FractionAmount = match item.fractional {
            Some(fractional) => fractional.total,
            None => 0,
        };
        let mirrored = match (fractionals.get(&k), item.fractional) {
            (Some(f), Some(g)) => f == g,
            (None, None) => true,
            _ => false,
        };
        let conserved = match sum_shares(fractions, &k) {
            Some(sum) => sum == total,
            None => false,
        };
        if !(item.fingerprint == k && mirrored && conserved) {
            assert(!p(items@[i as int].0, items@[i as int].1));
            return false;
        }
        i = i + 1;
    }
    true
}

/// Whether the fractions are those of a sound ledger with these items and
/// these holds.
pub(crate) fn fractions_ok(
    fractions: &Table<FractionKey, NFTokenFractionRecord>,
    items: &Table<Fingerprint, NFTokenItemRecord>,
    holds: &Table<HoldKey, (FractionHolderId, LockGuard)>,
) -> (b: bool)
    requires
        items.wf(),
    ensures
        b == every(fractions@, fraction_ok(items@, holds@)),
{
    let ghost p = fraction_ok(items@, holds@);
    let mut i: usize = 0;
    while i < fractions.len()
        invariant
            i <= fractions@.len(),
            items.wf(),
            p == fraction_ok(items@, holds@),
            forall|j: int| 0 <= j < i ==> p((#[trigger] fractions@[j]).0, fractions@[j].1),
        decreases fractions@.len() - i,
    {
        let (k, r) = fractions.entry(i);
        let tagged = match items.get(&k.fingerprint) {
            Some(item) => match item.fractional {
                Some(fractional) => fractional.ft_id == r.fractional.ft_id,
                None => false,
            },
            None => false,
        };
        let keyed = r.fingerprint == k.fingerprint && r.account == k.account;
        let count = count_holds(holds, &k);
        let counted = r.holds as usize == count;
        if !(keyed && r.amount > 0 && tagged && counted) {
            assert(!p(fractions@[i as int].0, fractions@[i as int].1));
            return false;
        }
        i = i + 1;
    }
    true
}

/// Whether the pools and totals are those of a sound ledger with these
/// items.
pub(crate) fn fractionals_ok(
    fractionals: &Table<Fingerprint, Fractional>,
    items: &Table<Fingerprint, NFTokenItemRecord>,
) -> (b: bool)
    requires
        items.wf(),
    ensures
        b == every(fractionals@, fractional_ok(items@)),
{
    let ghost p = fractional_ok(items@);
    let mut i: usize = 0;
    while i < fractionals.len()
        invariant
            i <= fractionals@.len(),
            items.wf(),
            p == fractional_ok(items@),
            forall|j: int| 0 <= j < i ==> p((#[trigger] fractionals@[j]).0, fractionals@[j].1),
        decreases fractionals@.len() - i,
    {
        let (k, _) = fractionals.entry(i);
        if !items.contains_key(&k) {
            assert(!p(fractionals@[i as int].0, fractionals@[i as int].1));
            return false;
        }
        i = i + 1;
    }
    true
}

/// Whether the pool index is that of a sound ledger with these items.
pub(crate) fn pools_ok(
    pools: &Table<FTokenId, Fingerprint>,
    items: &Table<Fingerprint, NFTokenItemRecord>,
) -> (b: bool)
    requires
        items.wf(),
    ensures
        b == every(pools@, pool_ok(items@)),
{
    let ghost p = pool_ok(items@);
    let mut i: usize = 0;
    while i < pools.len()
        invariant
            i <= pools@.len(),
            items.wf(),
            p == pool_ok(items@),
            forall|j: int| 0 <= j < i ==> p((#[trigger] pools@[j]).0, pools@[j].1),
        decreases pools@.len() - i,
    {
        let (k, fingerprint) = pools.entry(i);
        let indexed = match items.get(&fingerprint) {
            Some(item) => match item.fractional {
                Some(fractional) => fractional.ft_id == k,
                None => false,
            },
            None => false,
        };
        if !indexed {
            assert(!p(pools@[i as int].0, pools@[i as int].1));
            return false;
        }
        i = i + 1;
    }
    true
}

/// Whether the holds are those of a sound ledger with these fractions and
/// these guard numbers.
pub(crate) fn holds_ok(
    holds: &Table<HoldKey, (FractionHolderId, LockGuard)>,
    fractions: &Table<FractionKey, NFTokenFractionRecord>,
    numbers: &Table<Timepoint, LockNumber>,
) -> (b: bool)
    requires
        fractions.wf(),
        numbers.wf(),
    ensures
        b == every(holds@, hold_ok(fractions@, numbers@)),
{
    let ghost p = hold_ok(fractions@, numbers@);
    let mut i: usize = 0;
    while i < holds.len()
        invariant
            i <= holds@.len(),
            fractions.wf(),
            numbers.wf(),
            p == hold_ok(fractions@, numbers@),
            forall|j: int| 0 <= j < i ==> p((#[trigger] holds@[j]).0, holds@[j].1),
        decreases holds@.len() - i,
    {
        let (k, v) = holds.entry(i);
        let key = FractionKey { fingerprint: k.fingerprint, account: k.account };
        let next: LockNumber = match numbers.get(&k.guard.timepoint()) {
            Some(n) => n,
            None => 0,
        };
        let ok = v.0 == k.holder_id && v.1 == k.guard && fractions.contains_key(&key)
            && k.guard.number() < next;
        if !ok {
            assert(!p(holds@[i as int].0, holds@[i as int].1));
            return false;
        }
        i = i + 1;
    }
    true
}

} // verus!
