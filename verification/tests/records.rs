use deip_asset_system::{
    AccountId, CollectionRecordT, Error, Fingerprint, FractionKey, FractionLockGuardT,
    FractionLockMask, FractionRecordT, Fractional, FractionalT, HoldCount, ItemLockMask,
    ItemRecordT, Key, LockGuard, LockGuardT, LockNumber, NFTokenCollectionRecord,
    NFTokenFractionRecord, NFTokenItemRecord, PayloadAssetId, PayloadDetails, Table, Timepoint,
    H160, H256,
};

fn account(n: u128) -> AccountId {
    H256 { hi: 0, lo: n }
}

fn print(n: u128) -> Fingerprint {
    H256 { hi: 7, lo: n }
}

fn collection(max_items: u32, items: u32) -> NFTokenCollectionRecord {
    NFTokenCollectionRecord::new(&account(1), H160 { hi: 0, lo: 10 }, 3, max_items, items)
}

fn fraction(amount: u128, holds: u32) -> NFTokenFractionRecord {
    NFTokenFractionRecord::new(
        &account(1),
        print(1),
        Fractional::new(40, 100),
        amount,
        holds,
    )
}

#[test]
fn fractional_keeps_pool_and_total() {
    let f = Fractional::new(40, 100);
    assert_eq!((*f.ft_id(), *f.total()), (40, 100));
    assert_eq!(f, Fractional { ft_id: 40, total: 100 });
}

#[test]
fn collection_record_keeps_its_fields() {
    let c = collection(5, 2);
    assert_eq!(*c.account(), account(1));
    assert_eq!(*c.collection_id(), H160 { hi: 0, lo: 10 });
    assert_eq!(*c.internal_id(), 3);
    assert_eq!(*c.max_items(), 5);
    assert_eq!(*c.items(), 2);
}

#[test]
fn obtain_item_id_hands_out_the_count() {
    let mut c = collection(2, 0);
    assert_eq!(c.obtain_item_id(), Some(0));
    assert_eq!(c.items, 1);
    assert_eq!(c.obtain_item_id(), Some(1));
    assert_eq!(c.items, 2);
}

#[test]
fn obtain_item_id_stops_at_capacity() {
    let mut c = collection(2, 2);
    assert_eq!(c.obtain_item_id(), None);
    assert_eq!(c, collection(2, 2));
    let mut over = collection(2, 5);
    assert_eq!(over.obtain_item_id(), None);
    assert_eq!(over, collection(2, 5));
    let mut top = collection(u32::MAX, u32::MAX);
    assert_eq!(top.obtain_item_id(), None);
    assert_eq!(top.items, u32::MAX);
}

#[test]
fn inc_items_saturates() {
    let mut c = collection(5, 2);
    c._inc_items();
    assert_eq!(c.items, 3);
    let mut top = collection(5, u32::MAX);
    top._inc_items();
    assert_eq!(top.items, u32::MAX);
}

#[test]
fn collection_changes_hands() {
    let mut c = collection(5, 2);
    c.transfer_collection(&account(2));
    assert_eq!(c, NFTokenCollectionRecord { account: account(2), ..collection(5, 2) });
    *c._mut_account() = account(3);
    assert_eq!(c.account, account(3));
}

#[test]
fn item_record_steps() {
    let mut item = NFTokenItemRecord::new(&account(1), print(1), 4, 3, None);
    assert_eq!(*item.account(), account(1));
    assert_eq!(*item.fingerprint(), print(1));
    assert_eq!(*item.item_id(), 4);
    assert_eq!(*item.collection_id(), 3);
    assert_eq!(item.fractional(), None);
    assert!(!item.is_fractional());
    item.transfer_item(&account(2));
    assert_eq!(item.account, account(2));
    item.set_fractional(Fractional::new(40, 100));
    assert!(item.is_fractional());
    assert_eq!(item.fractional(), Some(&Fractional { ft_id: 40, total: 100 }));
    item.set_fractional(Fractional::new(41, 7));
    assert_eq!(item.fractional, Some(Fractional { ft_id: 41, total: 7 }));
    item.fuse();
    assert_eq!(item, NFTokenItemRecord::new(&account(2), print(1), 4, 3, None));
    *item._mut_fractional() = Some(Fractional::new(1, 1));
    *item._mut_account() = account(5);
    assert_eq!(item.fractional, Some(Fractional { ft_id: 1, total: 1 }));
    assert_eq!(item.account, account(5));
}

#[test]
fn fraction_record_keeps_its_fields() {
    let f = fraction(60, 2);
    assert_eq!(*f.account(), account(1));
    assert_eq!(*f.fingerprint(), print(1));
    assert_eq!(*f.fractional(), Fractional { ft_id: 40, total: 100 });
    assert_eq!(*f.amount(), 60);
    assert_eq!(*f.holds(), 2);
    assert_eq!(f.lock_mask(), FractionLockMask::none());
    assert_eq!(f.lock_mask, 0);
}

#[test]
fn can_fuse_needs_every_share() {
    assert!(fraction(100, 0).can_fuse());
    assert!(!fraction(99, 0).can_fuse());
    assert!(!fraction(101, 0).can_fuse());
}

#[test]
fn holds_and_locks_block_transfer() {
    assert!(!fraction(1, 0).on_hold());
    assert!(fraction(1, 1).on_hold());
    assert!(!fraction(1, 0).transfer_blocked());
    assert!(fraction(1, 1).transfer_blocked());
    let mut locked = fraction(1, 0);
    locked.lock(FractionLockMask::transfer());
    assert!(locked.transfer_blocked());
    assert!(!locked.on_hold());
    let mut other = fraction(1, 0);
    other.lock(FractionLockMask::from_bits(0b0110));
    assert!(!other.transfer_blocked());
}

#[test]
fn amounts_are_checked() {
    let mut f = fraction(60, 0);
    assert_eq!(f.increase_amount(40), Ok(()));
    assert_eq!(f.amount, 100);
    assert_eq!(f.decrease_amount(100), Ok(()));
    assert_eq!(f.amount, 0);
    assert_eq!(f.decrease_amount(1), Err(()));
    assert_eq!(f.amount, 0);
    let mut top = fraction(u128::MAX - 1, 0);
    assert_eq!(top.increase_amount(2), Err(()));
    assert_eq!(top.amount, u128::MAX - 1);
    assert_eq!(top.increase_amount(1), Ok(()));
    assert_eq!(top.amount, u128::MAX);
    *top._mut_amount() = 3;
    assert_eq!(top.amount, 3);
}

#[test]
fn holds_are_checked() {
    let mut f = fraction(60, 0);
    assert_eq!(f.dec_holds(), Err(()));
    assert_eq!(f.holds, 0);
    assert_eq!(f.inc_holds(), Ok(()));
    assert_eq!(f.inc_holds(), Ok(()));
    assert_eq!(f.holds, 2);
    assert_eq!(f.dec_holds(), Ok(()));
    assert_eq!(f.holds, 1);
    let mut top = fraction(60, HoldCount::MAX);
    assert_eq!(top.inc_holds(), Err(()));
    assert_eq!(top.holds, HoldCount::MAX);
    *top._mut_holds() = 4;
    assert_eq!(top.holds, 4);
}

#[test]
fn lock_and_unlock_set_and_clear_flags() {
    let mut f = fraction(60, 0);
    f.lock(FractionLockMask::from_bits(0b0100));
    f.lock(FractionLockMask::transfer());
    assert_eq!(f.lock_mask, 0b0101);
    assert_eq!(f.lock_mask(), FractionLockMask::from_bits(0b0101));
    f.unlock(FractionLockMask::transfer());
    assert_eq!(f.lock_mask, 0b0100);
    f.unlock(FractionLockMask::transfer());
    assert_eq!(f.lock_mask, 0b0100);
    *f._mut_lock_mask() = 0;
    assert_eq!(f, fraction(60, 0));
}

#[test]
fn fraction_masks_are_sets_of_bits() {
    let t = FractionLockMask::transfer();
    assert_eq!(t.bits(), 0b0001);
    assert_eq!(FractionLockMask::none().bits(), 0);
    assert_eq!(FractionLockMask::all_flags().bits(), 0b0001);
    assert_eq!(FractionLockMask::from_bits(0b1010).bits(), 0b1010);
    assert!(FractionLockMask::none().is_none());
    assert!(!t.is_none());
    assert_eq!(t.not().bits(), 0b1111_1110);
    assert_eq!(t.or(FractionLockMask::from_bits(0b0100)).bits(), 0b0101);
    let six = FractionLockMask::from_bits(0b0110);
    let three = FractionLockMask::from_bits(0b0011);
    assert_eq!(six.and(three).bits(), 0b0010);
    assert_eq!(six.xor(three).bits(), 0b0101);
    assert_eq!(FractionLockMask::from(0b0110u8), six);
    assert_eq!(u8::from(three), 0b0011);
    assert!(FractionLockMask::from_bits(0b0101).contains(t));
    assert!(!FractionLockMask::from_bits(0b0100).contains(t));
    assert!(t.contains(FractionLockMask::none()));
    assert!(FractionLockMask::from_bits(0b0101).intersects(t));
    assert!(!FractionLockMask::from_bits(0b0100).intersects(t));
    assert!(FractionLockMask::from_bits(0b0100).intersects(FractionLockMask::none()));
}

#[test]
fn item_masks_are_sets_of_bits() {
    assert_eq!(ItemLockMask::transfer().bits(), 0b0001);
    assert_eq!(ItemLockMask::mint_fraction().bits(), 0b0010);
    assert_eq!(ItemLockMask::burn_fraction().bits(), 0b0100);
    assert_eq!(ItemLockMask::none().bits(), 0);
    assert_eq!(ItemLockMask::all_flags().bits(), 0b0111);
    assert!(ItemLockMask::none().is_none());
    let both = ItemLockMask::transfer().or(ItemLockMask::burn_fraction());
    assert_eq!(both.bits(), 0b0101);
    assert!(both.contains(ItemLockMask::transfer()));
    assert!(!both.contains(ItemLockMask::mint_fraction()));
    assert!(both.intersects(ItemLockMask::all_flags()));
    assert!(!both.intersects(ItemLockMask::mint_fraction()));
    assert_eq!(both.and(ItemLockMask::transfer().not()).bits(), 0b0100);
    assert_eq!(both.xor(ItemLockMask::all_flags()).bits(), 0b0010);
    assert_eq!(ItemLockMask::from_bits(0b1000).bits(), 0b1000);
    assert_eq!(ItemLockMask::transfer().not().bits(), 0b1111_1110);
    assert_eq!(ItemLockMask::from(0b0101u8), both);
    assert_eq!(u8::from(both), 0b0101);
}

#[test]
fn table_stores_one_value_per_key() {
    let mut t: Table<u32, u128> = Table::new();
    assert_eq!(t.len(), 0);
    assert_eq!(t.get(&1), None);
    assert!(!t.contains_key(&1));
    t.insert(1, 10);
    t.insert(2, 20);
    t.insert(1, 11);
    assert_eq!(t.len(), 2);
    assert_eq!(t.get(&1), Some(11));
    assert_eq!(t.get(&2), Some(20));
    assert!(t.contains_key(&2));
    t.remove(&1);
    t.remove(&3);
    assert_eq!(t.len(), 1);
    assert_eq!(t.get(&1), None);
    assert_eq!(t.get(&2), Some(20));
}

#[test]
fn obtain_number_counts_per_timepoint() {
    let mut numbers: Table<Timepoint, LockNumber> = Table::new();
    let a = Timepoint { block_number: 1, extrinsic_id: 0 };
    let b = Timepoint { block_number: 1, extrinsic_id: 1 };
    assert_eq!(LockGuard::obtain_number(&mut numbers, &a), Some(0));
    assert_eq!(LockGuard::obtain_number(&mut numbers, &a), Some(1));
    assert_eq!(LockGuard::obtain_number(&mut numbers, &b), Some(0));
    assert_eq!(LockGuard::obtain_number(&mut numbers, &a), Some(2));
    assert_eq!(numbers.get(&a), Some(3));
    assert_eq!(numbers.get(&b), Some(1));
}

#[test]
fn obtain_number_stops_at_the_top() {
    let mut numbers: Table<Timepoint, LockNumber> = Table::new();
    let a = Timepoint { block_number: 1, extrinsic_id: 0 };
    numbers.insert(a, LockNumber::MAX - 1);
    assert_eq!(LockGuard::obtain_number(&mut numbers, &a), Some(LockNumber::MAX - 1));
    assert_eq!(LockGuard::obtain_number(&mut numbers, &a), None);
    assert_eq!(numbers.get(&a), Some(LockNumber::MAX));
}

#[test]
fn guard_lock_counts_holds_beside_the_record() {
    let mut counts: Table<FractionKey, HoldCount> = Table::new();
    let key = FractionKey { fingerprint: print(1), account: account(1) };
    let mut f = fraction(60, 0);
    assert_eq!(LockGuard::lock(&mut counts, &mut f), Ok(()));
    assert_eq!(f.holds, 1);
    assert_eq!(counts.get(&key), Some(1));
    assert_eq!(LockGuard::lock(&mut counts, &mut f), Ok(()));
    assert_eq!(f.holds, 2);
    assert_eq!(counts.get(&key), Some(2));
    let mut top = fraction(60, HoldCount::MAX);
    assert_eq!(LockGuard::lock(&mut counts, &mut top), Err(Error::Overflow));
    assert_eq!(top.holds, HoldCount::MAX);
    assert_eq!(counts.get(&key), Some(2));
}

#[test]
fn guard_unlock_forgets_a_fraction_without_holds() {
    let mut counts: Table<FractionKey, HoldCount> = Table::new();
    let key = FractionKey { fingerprint: print(1), account: account(1) };
    let mut f = fraction(60, 2);
    counts.insert(key, 2);
    assert_eq!(LockGuard::unlock(&mut counts, &mut f), Ok(()));
    assert_eq!(f.holds, 1);
    assert_eq!(counts.get(&key), Some(1));
    assert_eq!(LockGuard::unlock(&mut counts, &mut f), Ok(()));
    assert_eq!(f.holds, 0);
    assert_eq!(counts.get(&key), None);
    counts.insert(key, 7);
    assert_eq!(LockGuard::unlock(&mut counts, &mut f), Err(Error::Overflow));
    assert_eq!(f.holds, 0);
    assert_eq!(counts.get(&key), Some(7));
}

#[test]
fn payload_names_its_asset() {
    let details = PayloadDetails { owner: account(1) };
    assert_eq!(details.clone().owner, account(1));
    let pool: PayloadAssetId<u32, u32> = PayloadAssetId::Ft(40);
    let class: PayloadAssetId<u32, u32> = PayloadAssetId::Nft(40);
    assert_ne!(pool, class);
    assert_eq!(pool.clone(), PayloadAssetId::Ft(40));
}

#[test]
fn keys_are_the_same_when_equal() {
    assert!(7u32.same(&7));
    assert!(!7u32.same(&8));
    assert!(account(1).same(&account(1)));
    assert!(!account(1).same(&H256 { hi: 1, lo: 1 }));
    assert!(!account(1).same(&account(2)));
    let id = H160 { hi: 0, lo: 10 };
    assert!(id.same(&id));
    assert!(!id.same(&H160 { hi: 1, lo: 10 }));
    let at = Timepoint { block_number: 1, extrinsic_id: 0 };
    assert!(at.same(&at));
    assert!(!at.same(&Timepoint { block_number: 1, extrinsic_id: 1 }));
    let key = FractionKey { fingerprint: print(1), account: account(1) };
    assert!(key.same(&key));
    assert!(!key.same(&FractionKey { fingerprint: print(1), account: account(2) }));
}

#[test]
fn table_keeps_entries_apart_by_key() {
    let mut t: Table<FractionKey, u32> = Table::new();
    let a = FractionKey { fingerprint: print(1), account: account(1) };
    let b = FractionKey { fingerprint: print(1), account: account(2) };
    let c = FractionKey { fingerprint: print(2), account: account(1) };
    t.insert(a, 1);
    t.insert(b, 2);
    t.insert(c, 3);
    t.remove(&b);
    assert_eq!((t.get(&a), t.get(&b), t.get(&c)), (Some(1), None, Some(3)));
    assert_eq!(t.len(), 2);
}

#[test]
fn table_entries_go_out_and_come_back() {
    let mut t: Table<u32, u128> = Table::new();
    t.insert(3, 30);
    t.insert(1, 10);
    t.insert(3, 31);
    assert_eq!(t.entries(), vec![(3, 31), (1, 10)]);
    assert_eq!(t.entry(1), (1, 10));
    let back: Table<u32, u128> = Table::from_entries(&t.entries()).unwrap();
    assert_eq!(back.entries(), vec![(3, 31), (1, 10)]);
    assert!(Table::<u32, u128>::from_entries(&vec![(1, 1), (2, 2), (1, 3)]).is_none());
    assert_eq!(Table::<u32, u128>::from_entries(&Vec::new()).unwrap().len(), 0);
}
