use deip_asset_system::{
    now, AccountId, Backing, CollectionId, CreateClass, CreatePool, Error, FTokenId, Fingerprint,
    FractionAmount, FractionHolderId, FractionLockMask, Fractional, Fungibles, InternalCollectionId,
    ItemId, Ledger, LedgerParts, LockGuard, LockGuardT, MintToken, MoveShares, MoveToken, NFTImplT,
    NFTokenCollectionRecord, NFTokenFractionRecord, NFTokenItemRecord, Nonfungibles, PoolOrder,
    StoredHold, Timepoint, H160, H256,
};
use sp_runtime::DispatchError;

fn account(n: u128) -> AccountId {
    H256 { hi: 0, lo: n }
}

fn print(n: u128) -> Fingerprint {
    H256 { hi: 7, lo: n }
}

fn named(n: u128) -> CollectionId {
    H160 { hi: 0, lo: n }
}

fn holder(n: u128) -> FractionHolderId {
    H160 { hi: 1, lo: n }
}

fn at(block_number: u64, extrinsic_id: u32) -> Timepoint {
    Timepoint { block_number, extrinsic_id }
}

fn refusal() -> DispatchError {
    DispatchError::Other("refused")
}

/// A token store that records what it is asked and refuses on demand.
#[derive(Default)]
struct Tokens {
    refuse: bool,
    classes: Vec<(InternalCollectionId, AccountId, AccountId)>,
    minted: Vec<(InternalCollectionId, ItemId, AccountId)>,
    moved: Vec<(InternalCollectionId, ItemId, AccountId)>,
}

impl Tokens {
    fn answer(&self) -> Result<(), DispatchError> {
        if self.refuse {
            Err(refusal())
        } else {
            Ok(())
        }
    }
}

impl Nonfungibles for Tokens {
    fn create_class(
        &mut self,
        class: &InternalCollectionId,
        who: &AccountId,
        admin: &AccountId,
    ) -> Result<(), DispatchError> {
        self.answer()?;
        self.classes.push((*class, *who, *admin));
        Ok(())
    }

    fn mint_into(
        &mut self,
        class: &InternalCollectionId,
        instance: &ItemId,
        who: &AccountId,
    ) -> Result<(), DispatchError> {
        self.answer()?;
        self.minted.push((*class, *instance, *who));
        Ok(())
    }

    fn transfer(
        &mut self,
        class: &InternalCollectionId,
        instance: &ItemId,
        destination: &AccountId,
    ) -> Result<(), DispatchError> {
        self.answer()?;
        self.moved.push((*class, *instance, *destination));
        Ok(())
    }
}

/// A share store that records what it is asked and refuses on demand.
struct Pools {
    next_id: FTokenId,
    refuse_create: bool,
    may_mint: bool,
    may_burn: bool,
    refuse_mint: bool,
    refuse_burn: bool,
    refuse_transfer: bool,
    refuse_lock: bool,
    burn_at_most: FractionAmount,
    created: Vec<(AccountId, FractionAmount)>,
    minted: Vec<(FTokenId, AccountId, FractionAmount)>,
    burned: Vec<(FTokenId, AccountId, FractionAmount)>,
    moved: Vec<(FTokenId, AccountId, AccountId, FractionAmount)>,
    locked: Vec<(FTokenId, AccountId)>,
}

impl Pools {
    fn new() -> Pools {
        Pools {
            next_id: 40,
            refuse_create: false,
            may_mint: true,
            may_burn: true,
            refuse_mint: false,
            refuse_burn: false,
            refuse_transfer: false,
            refuse_lock: false,
            burn_at_most: FractionAmount::MAX,
            created: Vec::new(),
            minted: Vec::new(),
            burned: Vec::new(),
            moved: Vec::new(),
            locked: Vec::new(),
        }
    }
}

impl Fungibles for Pools {
    fn create_ft(
        &mut self,
        account: AccountId,
        minimum_balance: FractionAmount,
    ) -> Result<FTokenId, DispatchError> {
        if self.refuse_create {
            return Err(refusal());
        }
        self.created.push((account, minimum_balance));
        let id = self.next_id;
        self.next_id += 1;
        Ok(id)
    }

    fn can_mint(&self, _ft_id: FTokenId, _who: &AccountId) -> bool {
        self.may_mint
    }

    fn can_burn(&self, _ft_id: FTokenId, _who: &AccountId) -> bool {
        self.may_burn
    }

    fn mint_ft(
        &mut self,
        ft_id: FTokenId,
        who: &AccountId,
        amount: FractionAmount,
    ) -> Result<(), DispatchError> {
        if self.refuse_mint {
            return Err(refusal());
        }
        self.minted.push((ft_id, *who, amount));
        Ok(())
    }

    fn burn_ft(
        &mut self,
        ft_id: FTokenId,
        who: &AccountId,
        amount: FractionAmount,
    ) -> Result<FractionAmount, DispatchError> {
        if self.refuse_burn {
            return Err(refusal());
        }
        let withdrawn = amount.min(self.burn_at_most);
        self.burned.push((ft_id, *who, withdrawn));
        Ok(withdrawn)
    }

    fn transfer(
        &mut self,
        ft_id: FTokenId,
        from: &AccountId,
        to: &AccountId,
        amount: FractionAmount,
    ) -> Result<(), DispatchError> {
        if self.refuse_transfer {
            return Err(refusal());
        }
        self.moved.push((ft_id, *from, *to, amount));
        Ok(())
    }

    fn lock_minting(&mut self, ft_id: FTokenId, who: &AccountId) -> Result<(), DispatchError> {
        if self.refuse_lock {
            return Err(refusal());
        }
        self.locked.push((ft_id, *who));
        Ok(())
    }
}

/// A ledger with one collection of `max_items` items owned by account 1.
fn with_collection(max_items: ItemId) -> (Ledger, Backing<Tokens>, Backing<Pools>) {
    let mut ledger = Ledger::new(at(1, 0));
    let mut tokens = Backing::new(Tokens::default());
    assert_eq!(ledger.create_collection(&mut tokens, &account(1), named(10), max_items), Ok(()));
    (ledger, tokens, Backing::new(Pools::new()))
}

/// A ledger with the item `print(1)` of account 1 in a collection of three.
fn with_item() -> (Ledger, Backing<Tokens>, Backing<Pools>) {
    let (mut ledger, mut tokens, pools) = with_collection(3);
    let collection = ledger.find_collection(named(10)).unwrap();
    assert_eq!(ledger.mint_item(&mut tokens, collection, print(1)), Ok(()));
    (ledger, tokens, pools)
}

/// A ledger in which `print(1)` is split into `total` shares of account 1.
fn with_shares(total: FractionAmount) -> (Ledger, Backing<Tokens>, Backing<Pools>) {
    let (mut ledger, tokens, mut pools) = with_item();
    let item = ledger.find_item(print(1)).unwrap();
    assert_eq!(ledger.fractionalize(&mut pools, item, total, false), Ok(()));
    (ledger, tokens, pools)
}

fn item_of(ledger: &Ledger, n: u128) -> NFTokenItemRecord {
    ledger.find_item(print(n)).unwrap()
}

fn shares_of(ledger: &Ledger, n: u128, who: u128) -> NFTokenFractionRecord {
    ledger.find_fraction(print(n), &account(who)).unwrap()
}

fn amount_of(ledger: &Ledger, n: u128, who: u128) -> FractionAmount {
    match ledger.find_fraction(print(n), &account(who)) {
        Some(f) => f.amount,
        None => 0,
    }
}

#[test]
fn new_ledger_is_empty() {
    let ledger = Ledger::new(at(3, 4));
    assert_eq!(now(&ledger), at(3, 4));
    assert_eq!(ledger.find_collection(named(10)), None);
    assert_eq!(ledger.find_item(print(1)), None);
    assert_eq!(ledger.find_fraction(print(1), &account(1)), None);
    assert_eq!(ledger.find_fractional(print(1)), None);
    assert_eq!(ledger.get_fingerprint_by_fraction_token_id(&40), Err(Error::UnknownItem));
}

#[test]
fn set_timepoint_changes_now_only() {
    let (mut ledger, _, _) = with_shares(100);
    let before = shares_of(&ledger, 1, 1);
    ledger.set_timepoint(at(9, 2));
    assert_eq!(now(&ledger), at(9, 2));
    assert_eq!(shares_of(&ledger, 1, 1), before);
}

#[test]
fn create_collection_stores_the_record() {
    let (ledger, tokens, _) = with_collection(5);
    assert_eq!(
        ledger.find_collection(named(10)),
        Some(NFTokenCollectionRecord {
            account: account(1),
            collection_id: named(10),
            internal_id: 0,
            max_items: 5,
            items: 0,
        })
    );
    assert_eq!(tokens.store().classes, vec![(0, account(1), account(1))]);
}

#[test]
fn create_collection_numbers_collections_in_turn() {
    let (mut ledger, mut tokens, _) = with_collection(5);
    assert_eq!(ledger.create_collection(&mut tokens, &account(2), named(11), 1), Ok(()));
    assert_eq!(ledger.find_collection(named(11)).unwrap().internal_id, 1);
    assert_eq!(
        tokens.store().classes,
        vec![(0, account(1), account(1)), (1, account(2), account(2))]
    );
}

#[test]
fn create_collection_refuses_zero_capacity() {
    let mut ledger = Ledger::new(at(1, 0));
    let mut tokens = Backing::new(Tokens::default());
    assert_eq!(
        ledger.create_collection(&mut tokens, &account(1), named(10), 0),
        Err(Error::BadValue)
    );
    assert_eq!(ledger.find_collection(named(10)), None);
    assert!(tokens.store().classes.is_empty());
    assert_eq!(ledger.create_collection(&mut tokens, &account(1), named(10), 1), Ok(()));
    assert_eq!(ledger.find_collection(named(10)).unwrap().internal_id, 0);
}

#[test]
fn create_collection_uses_up_the_identifier_when_the_store_refuses() {
    let mut ledger = Ledger::new(at(1, 0));
    let mut tokens = Backing::new(Tokens::default());
    tokens.store_mut().refuse = true;
    assert_eq!(
        ledger.create_collection(&mut tokens, &account(1), named(10), 2),
        Err(Error::Backing(refusal()))
    );
    assert_eq!(ledger.find_collection(named(10)), None);
    tokens.store_mut().refuse = false;
    assert_eq!(ledger.create_collection(&mut tokens, &account(1), named(10), 2), Ok(()));
    assert_eq!(ledger.find_collection(named(10)).unwrap().internal_id, 1);
}

#[test]
fn create_collection_order_names_the_class() {
    let (ledger, _, _) = with_collection(5);
    assert_eq!(
        ledger.create_collection_order(&account(2), 9),
        Ok(CreateClass { class: 1, who: account(2), admin: account(2) })
    );
    assert_eq!(ledger.create_collection_order(&account(2), 0), Err(Error::BadValue));
}

#[test]
fn create_collection_settle_counts_every_refusal() {
    let mut ledger = Ledger::new(at(1, 0));
    for _ in 0..4 {
        let r = ledger.create_collection_settle(&account(1), named(10), 1, Err(refusal()));
        assert_eq!(r, Err(Error::Backing(refusal())));
    }
    assert_eq!(ledger.find_collection(named(10)), None);
    assert_eq!(
        ledger.create_collection_order(&account(1), 1),
        Ok(CreateClass { class: 4, who: account(1), admin: account(1) })
    );
}

#[test]
fn mint_item_stores_item_and_counts_it() {
    let (ledger, tokens, _) = with_item();
    assert_eq!(
        ledger.find_item(print(1)),
        Some(NFTokenItemRecord {
            account: account(1),
            fingerprint: print(1),
            item_id: 0,
            collection_id: 0,
            fractional: None,
        })
    );
    assert_eq!(ledger.find_collection(named(10)).unwrap().items, 1);
    assert_eq!(tokens.store().minted, vec![(0, 0, account(1))]);
}

#[test]
fn mint_item_numbers_items_in_turn() {
    let (mut ledger, mut tokens, _) = with_item();
    let collection = ledger.find_collection(named(10)).unwrap();
    assert_eq!(ledger.mint_item(&mut tokens, collection, print(2)), Ok(()));
    assert_eq!(item_of(&ledger, 2).item_id, 1);
    assert_eq!(ledger.find_collection(named(10)).unwrap().items, 2);
    assert_eq!(tokens.store().minted, vec![(0, 0, account(1)), (0, 1, account(1))]);
}

#[test]
fn mint_item_order_names_the_token() {
    let (ledger, _, _) = with_item();
    let collection = ledger.find_collection(named(10)).unwrap();
    assert_eq!(
        ledger.mint_item_order(&collection, print(2)),
        Ok(MintToken { class: 0, instance: 1, who: account(1) })
    );
    assert_eq!(ledger.mint_item_order(&collection, print(1)), Err(Error::NoPermission));
}

#[test]
fn scenario_capacity_of_one_is_exhausted_by_one_item() {
    let (mut ledger, mut tokens, _) = with_collection(1);
    let collection = ledger.find_collection(named(10)).unwrap();
    assert_eq!(ledger.mint_item(&mut tokens, collection, print(1)), Ok(()));
    let full = ledger.find_collection(named(10)).unwrap();
    assert_eq!(full.items, 1);
    assert_eq!(ledger.mint_item(&mut tokens, full, print(2)), Err(Error::NoPermission));
    assert_eq!(ledger.find_collection(named(10)), Some(full));
    assert_eq!(ledger.find_item(print(2)), None);
    assert_eq!(tokens.store().minted.len(), 1);
}

#[test]
fn items_never_exceed_capacity() {
    let (mut ledger, mut tokens, _) = with_collection(3);
    let mut minted = 0;
    for n in 1..=6u128 {
        let collection = ledger.find_collection(named(10)).unwrap();
        if ledger.mint_item(&mut tokens, collection, print(n)).is_ok() {
            minted += 1;
        }
        let after = ledger.find_collection(named(10)).unwrap();
        assert!(after.items <= after.max_items);
    }
    assert_eq!(minted, 3);
    assert_eq!(ledger.find_collection(named(10)).unwrap().items, 3);
}

#[test]
fn mint_item_refuses_a_fingerprint_in_use() {
    let (mut ledger, mut tokens, _) = with_item();
    let collection = ledger.find_collection(named(10)).unwrap();
    let item = item_of(&ledger, 1);
    assert_eq!(ledger.mint_item(&mut tokens, collection, print(1)), Err(Error::NoPermission));
    assert_eq!(ledger.find_collection(named(10)), Some(collection));
    assert_eq!(ledger.find_item(print(1)), Some(item));
    assert_eq!(tokens.store().minted.len(), 1);
}

#[test]
fn mint_item_refuses_a_fingerprint_in_use_in_another_collection() {
    let (mut ledger, mut tokens, _) = with_item();
    assert_eq!(ledger.create_collection(&mut tokens, &account(2), named(11), 4), Ok(()));
    let other = ledger.find_collection(named(11)).unwrap();
    assert_eq!(ledger.mint_item(&mut tokens, other, print(1)), Err(Error::NoPermission));
    assert_eq!(ledger.find_collection(named(11)), Some(other));
    assert_eq!(item_of(&ledger, 1).account, account(1));
}

#[test]
fn mint_item_refuses_a_stale_collection_record() {
    let (mut ledger, mut tokens, _) = with_collection(3);
    let stale = ledger.find_collection(named(10)).unwrap();
    assert_eq!(ledger.mint_item(&mut tokens, stale, print(1)), Ok(()));
    assert_eq!(ledger.mint_item(&mut tokens, stale, print(2)), Err(Error::UnknownCollection));
    assert_eq!(ledger.find_item(print(2)), None);
    assert_eq!(ledger.find_collection(named(10)).unwrap().items, 1);
}

#[test]
fn mint_item_changes_nothing_when_the_store_refuses() {
    let (mut ledger, mut tokens, _) = with_collection(3);
    let collection = ledger.find_collection(named(10)).unwrap();
    tokens.store_mut().refuse = true;
    assert_eq!(
        ledger.mint_item(&mut tokens, collection, print(1)),
        Err(Error::Backing(refusal()))
    );
    assert_eq!(ledger.find_collection(named(10)), Some(collection));
    assert_eq!(ledger.find_item(print(1)), None);
}

#[test]
fn transfer_collection_changes_the_owner_only() {
    let (mut ledger, _, _) = with_item();
    let collection = ledger.find_collection(named(10)).unwrap();
    assert_eq!(ledger.transfer_collection(collection, &account(2)), Ok(()));
    assert_eq!(
        ledger.find_collection(named(10)),
        Some(NFTokenCollectionRecord { account: account(2), ..collection })
    );
}

#[test]
fn transfer_collection_refuses_a_stale_record() {
    let (mut ledger, _, _) = with_item();
    let collection = ledger.find_collection(named(10)).unwrap();
    let stale = NFTokenCollectionRecord { items: 0, ..collection };
    assert_eq!(ledger.transfer_collection(stale, &account(2)), Err(Error::UnknownCollection));
    assert_eq!(ledger.find_collection(named(10)), Some(collection));
}

#[test]
fn transfer_item_changes_the_owner_and_moves_the_token() {
    let (mut ledger, mut tokens, _) = with_item();
    let item = item_of(&ledger, 1);
    assert_eq!(ledger.transfer_item(&mut tokens, item, &account(2)), Ok(()));
    assert_eq!(
        ledger.find_item(print(1)),
        Some(NFTokenItemRecord { account: account(2), ..item })
    );
    assert_eq!(tokens.store().moved, vec![(0, 0, account(2))]);
}

#[test]
fn transfer_item_order_names_the_token() {
    let (ledger, _, _) = with_item();
    let item = item_of(&ledger, 1);
    assert_eq!(
        ledger.transfer_item_order(&item, &account(2)),
        Ok(MoveToken { class: 0, instance: 0, destination: account(2) })
    );
}

#[test]
fn transfer_item_refuses_a_fractionalized_item() {
    let (mut ledger, mut tokens, _) = with_shares(100);
    let item = item_of(&ledger, 1);
    assert_eq!(
        ledger.transfer_item(&mut tokens, item, &account(2)),
        Err(Error::NoPermission)
    );
    assert_eq!(ledger.find_item(print(1)), Some(item));
    assert!(tokens.store().moved.is_empty());
}

#[test]
fn transfer_item_refuses_an_unknown_item() {
    let (mut ledger, mut tokens, _) = with_item();
    let unknown = NFTokenItemRecord { fingerprint: print(2), ..item_of(&ledger, 1) };
    assert_eq!(
        ledger.transfer_item(&mut tokens, unknown, &account(2)),
        Err(Error::UnknownItem)
    );
    assert_eq!(ledger.find_item(print(2)), None);
}

#[test]
fn transfer_item_changes_nothing_when_the_store_refuses() {
    let (mut ledger, mut tokens, _) = with_item();
    let item = item_of(&ledger, 1);
    tokens.store_mut().refuse = true;
    assert_eq!(
        ledger.transfer_item(&mut tokens, item, &account(2)),
        Err(Error::Backing(refusal()))
    );
    assert_eq!(ledger.find_item(print(1)), Some(item));
}

#[test]
fn fractionalize_gives_the_owner_every_share() {
    let (ledger, _, pools) = with_shares(100);
    let tag = Fractional { ft_id: 40, total: 100 };
    assert_eq!(item_of(&ledger, 1).fractional, Some(tag));
    assert_eq!(ledger.find_fractional(print(1)), Some(tag));
    assert_eq!(
        ledger.find_fraction(print(1), &account(1)),
        Some(NFTokenFractionRecord {
            account: account(1),
            fingerprint: print(1),
            fractional: tag,
            amount: 100,
            holds: 0,
            lock_mask: 0,
        })
    );
    assert_eq!(ledger.get_fingerprint_by_fraction_token_id(&40), Ok(print(1)));
    assert_eq!(pools.store().created, vec![(account(1), 1)]);
    assert_eq!(pools.store().minted, vec![(40, account(1), 100)]);
    assert!(pools.store().locked.is_empty());
}

#[test]
fn fractionalize_limited_locks_minting() {
    let (mut ledger, _, mut pools) = with_item();
    let item = item_of(&ledger, 1);
    assert_eq!(ledger.fractionalize(&mut pools, item, 100, true), Ok(()));
    assert_eq!(pools.store().locked, vec![(40, account(1))]);
    assert_eq!(amount_of(&ledger, 1, 1), 100);
}

#[test]
fn fractionalize_order_asks_for_a_pool_of_the_owner() {
    let (ledger, _, _) = with_item();
    let item = item_of(&ledger, 1);
    assert_eq!(
        ledger.fractionalize_order(&item, 100),
        Ok(CreatePool { account: account(1), minimum_balance: 1 })
    );
}

#[test]
fn fractionalize_mint_order_mints_all_to_the_owner() {
    let (ledger, _, _) = with_item();
    let item = item_of(&ledger, 1);
    assert_eq!(
        Ledger::fractionalize_mint_order(&item, 100, 40),
        PoolOrder { ft_id: 40, who: account(1), amount: 100 }
    );
}

#[test]
fn fractionalize_refuses_zero_total() {
    let (mut ledger, _, mut pools) = with_item();
    let item = item_of(&ledger, 1);
    assert_eq!(ledger.fractionalize(&mut pools, item, 0, false), Err(Error::BadValue));
    assert_eq!(ledger.find_item(print(1)), Some(item));
    assert!(pools.store().created.is_empty());
}

#[test]
fn fractionalize_refuses_a_fractionalized_item() {
    let (mut ledger, _, mut pools) = with_shares(100);
    let item = item_of(&ledger, 1);
    assert_eq!(ledger.fractionalize(&mut pools, item, 50, false), Err(Error::NoPermission));
    assert_eq!(ledger.find_item(print(1)), Some(item));
    assert_eq!(amount_of(&ledger, 1, 1), 100);
    assert_eq!(pools.store().created.len(), 1);
}

#[test]
fn fractionalize_refuses_a_stale_item_record() {
    let (mut ledger, mut tokens, mut pools) = with_item();
    let stale = item_of(&ledger, 1);
    assert_eq!(ledger.transfer_item(&mut tokens, stale, &account(2)), Ok(()));
    assert_eq!(ledger.fractionalize(&mut pools, stale, 100, false), Err(Error::UnknownItem));
    assert_eq!(item_of(&ledger, 1).fractional, None);
}

#[test]
fn fractionalize_leaves_the_item_whole_when_a_step_fails() {
    for step in 0..4 {
        let (mut ledger, _, mut pools) = with_item();
        let item = item_of(&ledger, 1);
        let expected = match step {
            0 => {
                pools.store_mut().refuse_create = true;
                Error::Backing(refusal())
            }
            1 => {
                pools.store_mut().may_mint = false;
                Error::NoPermission
            }
            2 => {
                pools.store_mut().refuse_mint = true;
                Error::Backing(refusal())
            }
            _ => {
                pools.store_mut().refuse_lock = true;
                Error::Backing(refusal())
            }
        };
        assert_eq!(ledger.fractionalize(&mut pools, item, 100, true), Err(expected));
        assert_eq!(ledger.find_item(print(1)), Some(item));
        assert_eq!(ledger.find_fractional(print(1)), None);
        assert_eq!(ledger.find_fraction(print(1), &account(1)), None);
        assert_eq!(ledger.get_fingerprint_by_fraction_token_id(&40), Err(Error::UnknownItem));
    }
}

#[test]
fn fractionalize_ignores_the_lock_answer_when_not_limited() {
    let (mut ledger, _, _) = with_item();
    let item = item_of(&ledger, 1);
    let r = ledger.fractionalize_settle(item, 100, false, Ok(41), true, Ok(()), Err(refusal()));
    assert_eq!(r, Ok(()));
    assert_eq!(item_of(&ledger, 1).fractional, Some(Fractional { ft_id: 41, total: 100 }));
    assert_eq!(ledger.get_fingerprint_by_fraction_token_id(&41), Ok(print(1)));
}

#[test]
fn mint_fraction_adds_to_holder_and_total() {
    let (mut ledger, _, mut pools) = with_shares(100);
    let item = item_of(&ledger, 1);
    assert_eq!(ledger.mint_fraction(&mut pools, item, &account(2), 25), Ok(()));
    let tag = Fractional { ft_id: 40, total: 125 };
    assert_eq!(item_of(&ledger, 1).fractional, Some(tag));
    assert_eq!(ledger.find_fractional(print(1)), Some(tag));
    assert_eq!(amount_of(&ledger, 1, 1), 100);
    assert_eq!(
        ledger.find_fraction(print(1), &account(2)),
        Some(NFTokenFractionRecord {
            account: account(2),
            fingerprint: print(1),
            fractional: tag,
            amount: 25,
            holds: 0,
            lock_mask: 0,
        })
    );
    assert_eq!(pools.store().minted, vec![(40, account(1), 100), (40, account(2), 25)]);
}

#[test]
fn mint_fraction_keeps_holds_and_locks_of_the_holder() {
    let (mut ledger, _, mut pools) = with_shares(100);
    let guard = ledger.hold_fraction(shares_of(&ledger, 1, 1), holder(1)).unwrap();
    assert_eq!(guard.number(), 0);
    ledger.lock_fraction(shares_of(&ledger, 1, 1), FractionLockMask::transfer()).unwrap();
    let item = item_of(&ledger, 1);
    assert_eq!(ledger.mint_fraction(&mut pools, item, &account(1), 5), Ok(()));
    let after = shares_of(&ledger, 1, 1);
    assert_eq!(after.amount, 105);
    assert_eq!(after.holds, 1);
    assert_eq!(after.lock_mask, 1);
    assert_eq!(after.fractional, Fractional { ft_id: 40, total: 105 });
}

#[test]
fn mint_fraction_order_names_pool_holder_and_amount() {
    let (ledger, _, _) = with_shares(100);
    let item = item_of(&ledger, 1);
    let order = PoolOrder { ft_id: 40, who: account(2), amount: 25 };
    assert_eq!(ledger.mint_fraction_query(&item, &account(2), 25), Ok(order));
    assert_eq!(ledger.mint_fraction_order(&item, &account(2), 25, true), Ok(order));
    assert_eq!(
        ledger.mint_fraction_order(&item, &account(2), 25, false),
        Err(Error::NoPermission)
    );
    assert_eq!(ledger.mint_fraction_query(&item, &account(2), 0), Err(Error::BadValue));
    assert_eq!(ledger.mint_fraction_order(&item, &account(2), 0, false), Err(Error::BadValue));
}

#[test]
fn scenario_mint_of_nothing_is_a_bad_value() {
    let (mut ledger, _, mut pools) = with_shares(100);
    let item = item_of(&ledger, 1);
    assert_eq!(ledger.mint_fraction(&mut pools, item, &account(2), 0), Err(Error::BadValue));
    assert_eq!(ledger.find_fraction(print(1), &account(2)), None);
    assert_eq!(ledger.find_item(print(1)), Some(item));
    assert_eq!(pools.store().minted.len(), 1);
}

#[test]
fn mint_fraction_refuses_a_whole_item() {
    let (mut ledger, _, mut pools) = with_item();
    let item = item_of(&ledger, 1);
    assert_eq!(
        ledger.mint_fraction(&mut pools, item, &account(1), 5),
        Err(Error::NotFractionalized)
    );
    assert_eq!(ledger.find_fraction(print(1), &account(1)), None);
}

#[test]
fn mint_fraction_refuses_when_the_store_forbids() {
    let (mut ledger, _, mut pools) = with_shares(100);
    let item = item_of(&ledger, 1);
    pools.store_mut().may_mint = false;
    assert_eq!(
        ledger.mint_fraction(&mut pools, item, &account(2), 5),
        Err(Error::NoPermission)
    );
    assert_eq!(ledger.find_fraction(print(1), &account(2)), None);
    assert_eq!(pools.store().minted.len(), 1);
}

#[test]
fn mint_fraction_refuses_a_total_out_of_range() {
    let (mut ledger, _, mut pools) = with_shares(FractionAmount::MAX - 3);
    let item = item_of(&ledger, 1);
    assert_eq!(ledger.mint_fraction(&mut pools, item, &account(2), 4), Err(Error::Overflow));
    assert_eq!(ledger.find_item(print(1)), Some(item));
    assert_eq!(ledger.find_fraction(print(1), &account(2)), None);
    assert_eq!(pools.store().minted.len(), 1);
    assert_eq!(ledger.mint_fraction(&mut pools, item, &account(2), 3), Ok(()));
    assert_eq!(item_of(&ledger, 1).fractional.unwrap().total, FractionAmount::MAX);
}

#[test]
fn mint_fraction_changes_nothing_when_the_store_refuses() {
    let (mut ledger, _, mut pools) = with_shares(100);
    let item = item_of(&ledger, 1);
    pools.store_mut().refuse_mint = true;
    assert_eq!(
        ledger.mint_fraction(&mut pools, item, &account(2), 5),
        Err(Error::Backing(refusal()))
    );
    assert_eq!(ledger.find_item(print(1)), Some(item));
    assert_eq!(ledger.find_fraction(print(1), &account(2)), None);
}

#[test]
fn mint_fraction_refuses_a_stale_item_record() {
    let (mut ledger, _, mut pools) = with_shares(100);
    let stale = item_of(&ledger, 1);
    assert_eq!(ledger.mint_fraction(&mut pools, stale, &account(2), 5), Ok(()));
    assert_eq!(
        ledger.mint_fraction(&mut pools, stale, &account(2), 5),
        Err(Error::UnknownItem)
    );
    assert_eq!(amount_of(&ledger, 1, 2), 5);
}

#[test]
fn scenario_burn_forty_of_a_hundred() {
    let (mut ledger, _, mut pools) = with_shares(100);
    assert_eq!(amount_of(&ledger, 1, 1), 100);
    let item = item_of(&ledger, 1);
    assert_eq!(ledger.burn_fraction(&mut pools, item, &account(1), 40), Ok(40));
    let tag = Fractional { ft_id: 40, total: 60 };
    assert_eq!(item_of(&ledger, 1).fractional, Some(tag));
    assert_eq!(ledger.find_fractional(print(1)), Some(tag));
    assert_eq!(amount_of(&ledger, 1, 1), 60);
    assert_eq!(pools.store().burned, vec![(40, account(1), 40)]);
}

#[test]
fn burn_fraction_goes_by_the_amount_withdrawn() {
    let (mut ledger, _, mut pools) = with_shares(100);
    pools.store_mut().burn_at_most = 30;
    let item = item_of(&ledger, 1);
    assert_eq!(ledger.burn_fraction(&mut pools, item, &account(1), 40), Ok(30));
    assert_eq!(item_of(&ledger, 1).fractional.unwrap().total, 70);
    assert_eq!(amount_of(&ledger, 1, 1), 70);
}

#[test]
fn burn_fraction_order_names_pool_owner_and_amount() {
    let (ledger, _, _) = with_shares(100);
    let item = item_of(&ledger, 1);
    assert_eq!(
        ledger.burn_fraction_order(&item, &account(1), 40),
        Ok(PoolOrder { ft_id: 40, who: account(1), amount: 40 })
    );
    assert_eq!(
        ledger.burn_fraction_order(&item, &account(2), 40),
        Err(Error::WrongOwner)
    );
}

#[test]
fn burn_fraction_removes_a_record_left_empty() {
    let (mut ledger, _, mut pools) = with_shares(100);
    let item = item_of(&ledger, 1);
    assert_eq!(ledger.burn_fraction(&mut pools, item, &account(1), 100), Ok(100));
    assert_eq!(ledger.find_fraction(print(1), &account(1)), None);
    assert_eq!(item_of(&ledger, 1).fractional, Some(Fractional { ft_id: 40, total: 0 }));
}

#[test]
fn burn_fraction_refuses_another_account() {
    let (mut ledger, _, mut pools) = with_shares(100);
    let item = item_of(&ledger, 1);
    assert_eq!(
        ledger.burn_fraction(&mut pools, item, &account(2), 40),
        Err(Error::WrongOwner)
    );
    assert_eq!(amount_of(&ledger, 1, 1), 100);
    assert!(pools.store().burned.is_empty());
}

#[test]
fn burn_fraction_refuses_nothing_and_too_much() {
    let (mut ledger, _, mut pools) = with_shares(100);
    let item = item_of(&ledger, 1);
    assert_eq!(ledger.burn_fraction(&mut pools, item, &account(1), 0), Err(Error::BadValue));
    assert_eq!(
        ledger.burn_fraction(&mut pools, item, &account(1), 101),
        Err(Error::InsufficientBalance)
    );
    assert_eq!(ledger.find_item(print(1)), Some(item));
    assert_eq!(amount_of(&ledger, 1, 1), 100);
    assert!(pools.store().burned.is_empty());
}

#[test]
fn burn_fraction_refuses_a_whole_item() {
    let (mut ledger, _, mut pools) = with_item();
    let item = item_of(&ledger, 1);
    assert_eq!(
        ledger.burn_fraction(&mut pools, item, &account(1), 1),
        Err(Error::NotFractionalized)
    );
}

#[test]
fn burn_fraction_refuses_when_the_store_forbids_or_refuses() {
    let (mut ledger, _, mut pools) = with_shares(100);
    let item = item_of(&ledger, 1);
    pools.store_mut().may_burn = false;
    assert_eq!(
        ledger.burn_fraction(&mut pools, item, &account(1), 40),
        Err(Error::NoPermission)
    );
    pools.store_mut().may_burn = true;
    pools.store_mut().refuse_burn = true;
    assert_eq!(
        ledger.burn_fraction(&mut pools, item, &account(1), 40),
        Err(Error::Backing(refusal()))
    );
    assert_eq!(ledger.find_item(print(1)), Some(item));
    assert_eq!(amount_of(&ledger, 1, 1), 100);
}

#[test]
fn burn_fraction_takes_shares_on_hold() {
    let (mut ledger, _, mut pools) = with_shares(100);
    ledger.hold_fraction(shares_of(&ledger, 1, 1), holder(1)).unwrap();
    let item = item_of(&ledger, 1);
    assert_eq!(ledger.burn_fraction(&mut pools, item, &account(1), 40), Ok(40));
    assert_eq!(item_of(&ledger, 1).fractional.unwrap().total, 60);
    let held = shares_of(&ledger, 1, 1);
    assert_eq!((held.amount, held.holds), (60, 1));
    assert_eq!(pools.store().burned, vec![(40, account(1), 40)]);
}

#[test]
fn burn_fraction_does_not_empty_a_record_on_hold() {
    let (mut ledger, _, mut pools) = with_shares(100);
    let guard = ledger.hold_fraction(shares_of(&ledger, 1, 1), holder(1)).unwrap();
    let item = item_of(&ledger, 1);
    let held = shares_of(&ledger, 1, 1);
    assert_eq!(
        ledger.burn_fraction(&mut pools, item, &account(1), 100),
        Err(Error::NoPermission)
    );
    assert_eq!(ledger.find_item(print(1)), Some(item));
    assert_eq!(ledger.find_fraction(print(1), &account(1)), Some(held));
    // The store was asked, and the refusal came after its answer.
    assert_eq!(pools.store().burned, vec![(40, account(1), 100)]);
    assert_eq!(ledger.unhold_fraction(held, holder(1), guard), Ok(()));
    assert_eq!(ledger.burn_fraction(&mut pools, item, &account(1), 100), Ok(100));
    assert_eq!(ledger.find_fraction(print(1), &account(1)), None);
}

#[test]
fn mint_fraction_asks_permission_before_it_tests_the_total() {
    let (mut ledger, _, mut pools) = with_shares(FractionAmount::MAX - 3);
    let item = item_of(&ledger, 1);
    pools.store_mut().may_mint = false;
    assert_eq!(
        ledger.mint_fraction(&mut pools, item, &account(2), 4),
        Err(Error::NoPermission)
    );
    pools.store_mut().may_mint = true;
    assert_eq!(ledger.mint_fraction(&mut pools, item, &account(2), 4), Err(Error::Overflow));
    assert_eq!(ledger.find_item(print(1)), Some(item));
    assert_eq!(pools.store().minted.len(), 1);
    assert_eq!(
        ledger.mint_fraction_settle(item, &account(2), 4, false, Ok(())),
        Err(Error::NoPermission)
    );
    assert_eq!(
        ledger.mint_fraction_settle(item, &account(2), 4, true, Ok(())),
        Err(Error::Overflow)
    );
}

#[test]
fn burn_fraction_fails_where_more_is_withdrawn_than_is_there() {
    let (mut ledger, _, mut pools) = with_shares(100);
    let owner = shares_of(&ledger, 1, 1);
    assert_eq!(ledger.transfer_fraction(&mut pools, owner, &account(2), 70), Ok(()));
    let item = item_of(&ledger, 1);
    // The owner holds 30 of the 100: a withdrawal of 40 cannot be taken
    // from the record of the owner.
    assert_eq!(
        ledger.burn_fraction_settle(item, &account(1), 40, true, Ok(40)),
        Err(Error::Overflow)
    );
    // Nor can more be withdrawn than the pool holds.
    assert_eq!(
        ledger.burn_fraction_settle(item, &account(1), 40, true, Ok(101)),
        Err(Error::Overflow)
    );
    assert_eq!(ledger.find_item(print(1)), Some(item));
    assert_eq!(amount_of(&ledger, 1, 1), 30);
    assert_eq!(amount_of(&ledger, 1, 2), 70);
}

#[test]
fn transfer_fraction_moves_shares() {
    let (mut ledger, _, mut pools) = with_shares(100);
    let donor = shares_of(&ledger, 1, 1);
    assert_eq!(ledger.transfer_fraction(&mut pools, donor, &account(2), 30), Ok(()));
    assert_eq!(
        ledger.find_fraction(print(1), &account(1)),
        Some(NFTokenFractionRecord { amount: 70, ..donor })
    );
    assert_eq!(
        ledger.find_fraction(print(1), &account(2)),
        Some(NFTokenFractionRecord {
            account: account(2),
            fingerprint: print(1),
            fractional: donor.fractional,
            amount: 30,
            holds: 0,
            lock_mask: 0,
        })
    );
    assert_eq!(pools.store().moved, vec![(40, account(1), account(2), 30)]);
    let donor = shares_of(&ledger, 1, 1);
    assert_eq!(ledger.transfer_fraction(&mut pools, donor, &account(2), 5), Ok(()));
    assert_eq!(amount_of(&ledger, 1, 1), 65);
    assert_eq!(amount_of(&ledger, 1, 2), 35);
}

#[test]
fn transfer_fraction_order_names_pool_accounts_and_amount() {
    let (ledger, _, _) = with_shares(100);
    let donor = shares_of(&ledger, 1, 1);
    assert_eq!(
        ledger.transfer_fraction_order(&donor, &account(2), 30),
        Ok(MoveShares { ft_id: 40, from: account(1), to: account(2), amount: 30 })
    );
}

#[test]
fn transfer_fraction_removes_a_drained_donor() {
    let (mut ledger, _, mut pools) = with_shares(100);
    let donor = shares_of(&ledger, 1, 1);
    assert_eq!(ledger.transfer_fraction(&mut pools, donor, &account(2), 100), Ok(()));
    assert_eq!(ledger.find_fraction(print(1), &account(1)), None);
    assert_eq!(amount_of(&ledger, 1, 2), 100);
}

#[test]
fn transfer_fraction_refuses_bad_arguments() {
    let (mut ledger, _, mut pools) = with_shares(100);
    let donor = shares_of(&ledger, 1, 1);
    assert_eq!(
        ledger.transfer_fraction(&mut pools, donor, &account(1), 30),
        Err(Error::BadTarget)
    );
    assert_eq!(
        ledger.transfer_fraction(&mut pools, donor, &account(2), 0),
        Err(Error::BadValue)
    );
    assert_eq!(
        ledger.transfer_fraction(&mut pools, donor, &account(2), 101),
        Err(Error::InsufficientBalance)
    );
    assert_eq!(ledger.find_fraction(print(1), &account(1)), Some(donor));
    assert_eq!(ledger.find_fraction(print(1), &account(2)), None);
    assert!(pools.store().moved.is_empty());
}

#[test]
fn transfer_fraction_refuses_a_stale_record() {
    let (mut ledger, _, mut pools) = with_shares(100);
    let stale = shares_of(&ledger, 1, 1);
    assert_eq!(ledger.transfer_fraction(&mut pools, stale, &account(2), 30), Ok(()));
    assert_eq!(
        ledger.transfer_fraction(&mut pools, stale, &account(2), 30),
        Err(Error::UnknownItem)
    );
    assert_eq!(amount_of(&ledger, 1, 1), 70);
    assert_eq!(amount_of(&ledger, 1, 2), 30);
}

#[test]
fn transfer_fraction_changes_nothing_when_the_store_refuses() {
    let (mut ledger, _, mut pools) = with_shares(100);
    let donor = shares_of(&ledger, 1, 1);
    pools.store_mut().refuse_transfer = true;
    assert_eq!(
        ledger.transfer_fraction(&mut pools, donor, &account(2), 30),
        Err(Error::Backing(refusal()))
    );
    assert_eq!(ledger.find_fraction(print(1), &account(1)), Some(donor));
    assert_eq!(ledger.find_fraction(print(1), &account(2)), None);
}

#[test]
fn transfer_fraction_refuses_locked_shares_whatever_the_amount() {
    let (mut ledger, _, mut pools) = with_shares(100);
    let guard = ledger
        .lock_fraction(shares_of(&ledger, 1, 1), FractionLockMask::transfer())
        .unwrap();
    assert_eq!(guard.mask(), 1);
    let locked = shares_of(&ledger, 1, 1);
    assert_eq!(locked.lock_mask, 1);
    for amount in [1, 100, 101, FractionAmount::MAX] {
        assert_eq!(
            ledger.transfer_fraction(&mut pools, locked, &account(2), amount),
            Err(Error::NoPermission)
        );
    }
    assert_eq!(ledger.find_fraction(print(1), &account(1)), Some(locked));
    assert!(pools.store().moved.is_empty());
}

#[test]
fn transfer_fraction_refuses_held_shares_whatever_the_amount() {
    let (mut ledger, _, mut pools) = with_shares(100);
    ledger.hold_fraction(shares_of(&ledger, 1, 1), holder(1)).unwrap();
    let held = shares_of(&ledger, 1, 1);
    assert_eq!(held.holds, 1);
    for amount in [1, 100, 101, FractionAmount::MAX] {
        assert_eq!(
            ledger.transfer_fraction(&mut pools, held, &account(2), amount),
            Err(Error::NoPermission)
        );
    }
    assert_eq!(ledger.find_fraction(print(1), &account(1)), Some(held));
}

#[test]
fn transfer_fraction_refuses_a_recipient_on_hold() {
    let (mut ledger, _, mut pools) = with_shares(100);
    let donor = shares_of(&ledger, 1, 1);
    assert_eq!(ledger.transfer_fraction(&mut pools, donor, &account(2), 30), Ok(()));
    ledger.hold_fraction(shares_of(&ledger, 1, 2), holder(1)).unwrap();
    let donor = shares_of(&ledger, 1, 1);
    assert_eq!(
        ledger.transfer_fraction(&mut pools, donor, &account(2), 10),
        Err(Error::NoPermission)
    );
    assert_eq!(amount_of(&ledger, 1, 1), 70);
    assert_eq!(amount_of(&ledger, 1, 2), 30);
}

#[test]
fn transfer_fraction_reaches_a_locked_recipient() {
    let (mut ledger, _, mut pools) = with_shares(100);
    let donor = shares_of(&ledger, 1, 1);
    assert_eq!(ledger.transfer_fraction(&mut pools, donor, &account(2), 30), Ok(()));
    ledger.lock_fraction(shares_of(&ledger, 1, 2), FractionLockMask::transfer()).unwrap();
    let donor = shares_of(&ledger, 1, 1);
    assert_eq!(ledger.transfer_fraction(&mut pools, donor, &account(2), 10), Ok(()));
    assert_eq!(amount_of(&ledger, 1, 2), 40);
    assert_eq!(shares_of(&ledger, 1, 2).lock_mask, 1);
}

#[test]
fn shares_add_up_to_the_total_after_every_operation() {
    let (mut ledger, _, mut pools) = with_shares(100);
    let sum = |ledger: &Ledger| {
        amount_of(ledger, 1, 1) + amount_of(ledger, 1, 2) + amount_of(ledger, 1, 3)
    };
    let total = |ledger: &Ledger| item_of(ledger, 1).fractional.unwrap().total;
    assert_eq!(sum(&ledger), 100);
    let item = item_of(&ledger, 1);
    ledger.mint_fraction(&mut pools, item, &account(2), 50).unwrap();
    assert_eq!((sum(&ledger), total(&ledger)), (150, 150));
    let donor = shares_of(&ledger, 1, 2);
    ledger.transfer_fraction(&mut pools, donor, &account(3), 20).unwrap();
    assert_eq!((sum(&ledger), total(&ledger)), (150, 150));
    let item = item_of(&ledger, 1);
    ledger.burn_fraction(&mut pools, item, &account(1), 60).unwrap();
    assert_eq!((sum(&ledger), total(&ledger)), (90, 90));
    let donor = shares_of(&ledger, 1, 1);
    ledger.transfer_fraction(&mut pools, donor, &account(3), 40).unwrap();
    assert_eq!((sum(&ledger), total(&ledger)), (90, 90));
    assert_eq!(amount_of(&ledger, 1, 1), 0);
    assert_eq!(amount_of(&ledger, 1, 2), 30);
    assert_eq!(amount_of(&ledger, 1, 3), 60);
    assert_eq!(ledger.find_fractional(print(1)), item_of(&ledger, 1).fractional);
}

#[test]
fn lock_fraction_sets_the_flag_and_issues_a_guard() {
    let (mut ledger, _, _) = with_shares(100);
    let fraction = shares_of(&ledger, 1, 1);
    let guard = ledger.lock_fraction(fraction, FractionLockMask::transfer()).unwrap();
    assert_eq!(guard.timepoint(), at(1, 0));
    assert_eq!(guard.block_number(), 1);
    assert_eq!(guard.extrinsic_index(), 0);
    assert_eq!(guard.number(), 0);
    assert_eq!(guard.mask(), 1);
    assert_eq!(
        ledger.find_fraction(print(1), &account(1)),
        Some(NFTokenFractionRecord { lock_mask: 1, ..fraction })
    );
}

#[test]
fn lock_fraction_refuses_a_stale_record() {
    let (mut ledger, _, _) = with_shares(100);
    let stale = shares_of(&ledger, 1, 1);
    ledger.lock_fraction(stale, FractionLockMask::transfer()).unwrap();
    assert_eq!(
        ledger.lock_fraction(stale, FractionLockMask::transfer()),
        Err(Error::UnknownItem)
    );
    // The refused call drew no number.
    let guard = ledger.lock_fraction(shares_of(&ledger, 1, 1), FractionLockMask::none()).unwrap();
    assert_eq!(guard.number(), 1);
}

#[test]
fn guards_of_one_timepoint_have_distinct_numbers() {
    let (mut ledger, _, mut pools) = with_shares(100);
    let first = ledger.lock_fraction(shares_of(&ledger, 1, 1), FractionLockMask::none()).unwrap();
    let second = ledger.hold_fraction(shares_of(&ledger, 1, 1), holder(1)).unwrap();
    let item = item_of(&ledger, 1);
    ledger.mint_fraction(&mut pools, item, &account(2), 5).unwrap();
    let third = ledger.hold_fraction(shares_of(&ledger, 1, 2), holder(1)).unwrap();
    let fourth = ledger.lock_fraction(shares_of(&ledger, 1, 2), FractionLockMask::none()).unwrap();
    assert_eq!(
        [first.number(), second.number(), third.number(), fourth.number()],
        [0, 1, 2, 3]
    );
    assert_ne!(second, third);
}

#[test]
fn guards_are_numbered_within_their_timepoint() {
    let (mut ledger, _, _) = with_shares(100);
    let first = ledger.hold_fraction(shares_of(&ledger, 1, 1), holder(1)).unwrap();
    ledger.set_timepoint(at(1, 1));
    let second = ledger.hold_fraction(shares_of(&ledger, 1, 1), holder(1)).unwrap();
    ledger.set_timepoint(at(1, 0));
    let third = ledger.hold_fraction(shares_of(&ledger, 1, 1), holder(1)).unwrap();
    assert_eq!((first.timepoint(), first.number()), (at(1, 0), 0));
    assert_eq!((second.timepoint(), second.number()), (at(1, 1), 0));
    assert_eq!((third.timepoint(), third.number()), (at(1, 0), 1));
    assert_eq!(shares_of(&ledger, 1, 1).holds, 3);
}

#[test]
fn hold_fraction_counts_the_hold() {
    let (mut ledger, _, _) = with_shares(100);
    let fraction = shares_of(&ledger, 1, 1);
    let guard = ledger.hold_fraction(fraction, holder(1)).unwrap();
    assert_eq!(guard.mask(), 0);
    assert_eq!(
        ledger.find_fraction(print(1), &account(1)),
        Some(NFTokenFractionRecord { holds: 1, ..fraction })
    );
    ledger.hold_fraction(shares_of(&ledger, 1, 1), holder(2)).unwrap();
    assert_eq!(shares_of(&ledger, 1, 1).holds, 2);
}

#[test]
fn hold_fraction_refuses_a_stale_record() {
    let (mut ledger, _, _) = with_shares(100);
    let stale = shares_of(&ledger, 1, 1);
    ledger.hold_fraction(stale, holder(1)).unwrap();
    assert_eq!(ledger.hold_fraction(stale, holder(1)), Err(Error::UnknownItem));
    assert_eq!(shares_of(&ledger, 1, 1).holds, 1);
}

#[test]
fn unhold_fraction_releases_the_hold() {
    let (mut ledger, _, _) = with_shares(100);
    let fraction = shares_of(&ledger, 1, 1);
    let guard = ledger.hold_fraction(fraction, holder(1)).unwrap();
    let held = shares_of(&ledger, 1, 1);
    assert_eq!(ledger.unhold_fraction(held, holder(1), guard), Ok(()));
    assert_eq!(ledger.find_fraction(print(1), &account(1)), Some(fraction));
    assert_eq!(
        ledger.unhold_fraction(fraction, holder(1), guard),
        Err(Error::NoPermission)
    );
}

#[test]
fn unhold_fraction_needs_the_guard_of_the_hold() {
    let (mut ledger, _, _) = with_shares(100);
    let first = ledger.hold_fraction(shares_of(&ledger, 1, 1), holder(1)).unwrap();
    let second = ledger.hold_fraction(shares_of(&ledger, 1, 1), holder(2)).unwrap();
    let held = shares_of(&ledger, 1, 1);
    // The guard of one holder does not release the hold of the other.
    assert_eq!(ledger.unhold_fraction(held, holder(1), second), Err(Error::NoPermission));
    assert_eq!(ledger.unhold_fraction(held, holder(2), first), Err(Error::NoPermission));
    // Nor does the guard of a lock release a hold.
    let lock = ledger.lock_fraction(held, FractionLockMask::none()).unwrap();
    let held = shares_of(&ledger, 1, 1);
    assert_eq!(ledger.unhold_fraction(held, holder(1), lock), Err(Error::NoPermission));
    assert_eq!(shares_of(&ledger, 1, 1).holds, 2);
    assert_eq!(ledger.unhold_fraction(held, holder(2), second), Ok(()));
    let held = shares_of(&ledger, 1, 1);
    assert_eq!(ledger.unhold_fraction(held, holder(1), first), Ok(()));
    assert_eq!(shares_of(&ledger, 1, 1).holds, 0);
}

#[test]
fn unhold_fraction_refuses_a_stale_record() {
    let (mut ledger, _, _) = with_shares(100);
    let stale = shares_of(&ledger, 1, 1);
    let guard = ledger.hold_fraction(stale, holder(1)).unwrap();
    assert_eq!(ledger.unhold_fraction(stale, holder(1), guard), Err(Error::UnknownItem));
    assert_eq!(shares_of(&ledger, 1, 1).holds, 1);
}

#[test]
fn scenario_hold_blocks_transfer_until_released() {
    let (mut ledger, _, mut pools) = with_shares(100);
    let item = item_of(&ledger, 1);
    assert_eq!(ledger.burn_fraction(&mut pools, item, &account(1), 40), Ok(40));
    let guard = ledger.hold_fraction(shares_of(&ledger, 1, 1), holder(1)).unwrap();
    let held = shares_of(&ledger, 1, 1);
    for amount in [1, 60, 61] {
        assert_eq!(
            ledger.transfer_fraction(&mut pools, held, &account(2), amount),
            Err(Error::NoPermission)
        );
    }
    assert_eq!(ledger.unhold_fraction(held, holder(1), guard), Ok(()));
    let free = shares_of(&ledger, 1, 1);
    assert_eq!(ledger.transfer_fraction(&mut pools, free, &account(2), 60), Ok(()));
    assert_eq!(amount_of(&ledger, 1, 2), 60);
    assert_eq!(ledger.find_fraction(print(1), &account(1)), None);
}

#[test]
fn pool_lookup_finds_the_item() {
    let (mut ledger, mut tokens, mut pools) = with_shares(100);
    let collection = ledger.find_collection(named(10)).unwrap();
    ledger.mint_item(&mut tokens, collection, print(2)).unwrap();
    let second = item_of(&ledger, 2);
    ledger.fractionalize(&mut pools, second, 7, false).unwrap();
    assert_eq!(ledger.get_fingerprint_by_fraction_token_id(&40), Ok(print(1)));
    assert_eq!(ledger.get_fingerprint_by_fraction_token_id(&41), Ok(print(2)));
    assert_eq!(ledger.get_fingerprint_by_fraction_token_id(&42), Err(Error::UnknownItem));
}

#[test]
fn settle_goes_by_the_answers_given() {
    let (mut ledger, _, _) = with_shares(100);
    let item = item_of(&ledger, 1);
    assert_eq!(
        ledger.mint_fraction_settle(item, &account(2), 5, false, Ok(())),
        Err(Error::NoPermission)
    );
    assert_eq!(
        ledger.mint_fraction_settle(item, &account(2), 5, true, Err(refusal())),
        Err(Error::Backing(refusal()))
    );
    assert_eq!(
        ledger.burn_fraction_settle(item, &account(1), 5, false, Ok(5)),
        Err(Error::NoPermission)
    );
    assert_eq!(ledger.find_item(print(1)), Some(item));
    assert_eq!(ledger.mint_fraction_settle(item, &account(2), 5, true, Ok(())), Ok(()));
    assert_eq!(amount_of(&ledger, 1, 2), 5);
    let donor = shares_of(&ledger, 1, 2);
    assert_eq!(
        ledger.transfer_fraction_settle(donor, &account(3), 5, Err(refusal())),
        Err(Error::Backing(refusal()))
    );
    assert_eq!(ledger.transfer_fraction_settle(donor, &account(3), 5, Ok(())), Ok(()));
    assert_eq!(amount_of(&ledger, 1, 3), 5);
    assert_eq!(amount_of(&ledger, 1, 2), 0);
}

#[test]
fn a_store_is_asked_nothing_once_the_ledger_refuses() {
    let (mut ledger, mut tokens, mut pools) = with_shares(100);
    let item = item_of(&ledger, 1);
    let donor = shares_of(&ledger, 1, 1);
    let before = (pools.store().minted.len(), pools.store().created.len());
    tokens.store_mut().refuse = true;
    pools.store_mut().refuse_create = true;
    pools.store_mut().refuse_mint = true;
    pools.store_mut().refuse_burn = true;
    pools.store_mut().refuse_transfer = true;
    // Each of these is refused by the ledger, not by the store.
    assert_eq!(ledger.transfer_item(&mut tokens, item, &account(2)), Err(Error::NoPermission));
    assert_eq!(ledger.fractionalize(&mut pools, item, 5, false), Err(Error::NoPermission));
    assert_eq!(ledger.mint_fraction(&mut pools, item, &account(2), 0), Err(Error::BadValue));
    assert_eq!(ledger.burn_fraction(&mut pools, item, &account(2), 5), Err(Error::WrongOwner));
    assert_eq!(
        ledger.transfer_fraction(&mut pools, donor, &account(1), 5),
        Err(Error::BadTarget)
    );
    assert_eq!((pools.store().minted.len(), pools.store().created.len()), before);
    assert!(pools.store().burned.is_empty());
    assert!(pools.store().moved.is_empty());
    assert!(tokens.store().moved.is_empty());
    let store = pools.into_store();
    assert_eq!(store.next_id, 41);
}

/// A ledger with two holders of the shares of one item, a hold and a lock.
fn busy() -> (Ledger, LockGuard) {
    let (mut ledger, mut tokens, mut pools) = with_shares(100);
    let donor = shares_of(&ledger, 1, 1);
    ledger.transfer_fraction(&mut pools, donor, &account(2), 30).unwrap();
    let guard = ledger.hold_fraction(shares_of(&ledger, 1, 2), holder(1)).unwrap();
    ledger.lock_fraction(shares_of(&ledger, 1, 1), FractionLockMask::transfer()).unwrap();
    let collection = ledger.find_collection(named(10)).unwrap();
    ledger.mint_item(&mut tokens, collection, print(2)).unwrap();
    (ledger, guard)
}

#[test]
fn parts_hold_the_contents_of_the_ledger() {
    let (ledger, guard) = busy();
    let parts = ledger.parts();
    assert_eq!(parts.collections, vec![(named(10), ledger.find_collection(named(10)).unwrap())]);
    assert_eq!(
        parts.items,
        vec![(print(1), item_of(&ledger, 1)), (print(2), item_of(&ledger, 2))]
    );
    assert_eq!(parts.fractions.len(), 2);
    assert_eq!(parts.fractionals, vec![(print(1), Fractional { ft_id: 40, total: 100 })]);
    assert_eq!(parts.pools, vec![(40, print(1))]);
    assert_eq!(
        parts.holds,
        vec![StoredHold {
            fingerprint: print(1),
            account: account(2),
            holder_id: holder(1),
            timepoint: guard.timepoint(),
            number: guard.number(),
            mask: guard.mask(),
        }]
    );
    assert_eq!(parts.lock_numbers, vec![(at(1, 0), 2)]);
    assert_eq!(parts.next_collection_id, 1);
    assert_eq!(parts.timepoint, at(1, 0));
}

#[test]
fn restore_gives_the_ledger_back() {
    let (ledger, guard) = busy();
    let mut restored = Ledger::restore(&ledger.parts()).unwrap();
    assert_eq!(now(&restored), now(&ledger));
    assert_eq!(restored.find_collection(named(10)), ledger.find_collection(named(10)));
    assert_eq!(restored.find_item(print(2)), ledger.find_item(print(2)));
    assert_eq!(shares_of(&restored, 1, 1), shares_of(&ledger, 1, 1));
    assert_eq!(shares_of(&restored, 1, 2), shares_of(&ledger, 1, 2));
    assert_eq!(restored.get_fingerprint_by_fraction_token_id(&40), Ok(print(1)));
    // The hold is there with its guard, and the numbering goes on.
    let held = shares_of(&restored, 1, 2);
    assert_eq!(restored.unhold_fraction(held, holder(1), guard), Ok(()));
    let next = restored.hold_fraction(shares_of(&restored, 1, 2), holder(1)).unwrap();
    assert_eq!(next.number(), 2);
    assert_eq!(Ledger::restore(&Ledger::new(at(5, 5)).parts()).map(|l| now(&l)), Some(at(5, 5)));
}

fn refused(change: fn(&mut LedgerParts)) -> bool {
    let (ledger, _) = busy();
    let mut parts = ledger.parts();
    change(&mut parts);
    Ledger::restore(&parts).is_none()
}

#[test]
fn restore_refuses_parts_that_are_not_those_of_a_ledger() {
    assert!(!refused(|_| {}));
    // A key twice.
    assert!(refused(|p| p.collections.push(p.collections[0])));
    assert!(refused(|p| p.lock_numbers.push((at(1, 0), 9))));
    // A record under a key that is not its own.
    assert!(refused(|p| p.items[0].0 = print(9)));
    assert!(refused(|p| p.fractions[0].1.account = account(9)));
    // More items than the collection may hold.
    assert!(refused(|p| p.collections[0].1.items = 4));
    // An internal identifier that was not handed out yet, or twice.
    assert!(refused(|p| p.next_collection_id = 0));
    assert!(refused(|p| {
        let mut other = p.collections[0];
        other.1.collection_id = named(11);
        other.0 = named(11);
        p.next_collection_id = 2;
        p.collections.push(other);
    }));
    // Shares that do not add up to the total, or a record without shares.
    assert!(refused(|p| p.fractions[0].1.amount += 1));
    assert!(refused(|p| p.fractions[0].1.amount = u128::MAX));
    assert!(refused(|p| {
        p.fractions[0].1.amount = 100;
        p.fractions[1].1.amount = 0;
    }));
    assert!(refused(|p| {
        p.fractions.pop();
    }));
    // Shares of an item that is whole, or of the wrong pool.
    assert!(refused(|p| p.fractions[0].0.fingerprint = print(2)));
    assert!(refused(|p| p.fractions[0].1.fractional.ft_id = 41));
    // Pools and totals that differ from what the items say.
    assert!(refused(|p| p.fractionals[0].1.total = 99));
    assert!(refused(|p| p.fractionals.clear()));
    assert!(refused(|p| p.fractionals.push((print(2), Fractional { ft_id: 41, total: 1 }))));
    assert!(refused(|p| p.fractionals.push((print(9), Fractional { ft_id: 41, total: 1 }))));
    // A pool index that points to no such item.
    assert!(refused(|p| p.pools[0].1 = print(2)));
    assert!(refused(|p| p.pools.push((41, print(1)))));
    // Holds that the record does not count, or on shares that nobody holds.
    assert!(refused(|p| p.holds.clear()));
    assert!(refused(|p| p.fractions[1].1.holds = 2));
    assert!(refused(|p| p.holds[0].account = account(9)));
    // A guard whose number was not drawn yet.
    assert!(refused(|p| p.holds[0].number = 2));
    assert!(refused(|p| p.holds[0].timepoint = at(7, 7)));
    assert!(refused(|p| p.lock_numbers.clear()));
}
