//! The two stores behind the ledger: one keeps the pools of fungible
//! shares, the other the indivisible tokens.
//!
//! The ledger asks a store to do its part of an operation and goes by the
//! answer. It assumes nothing of what a store answers: every operation says
//! what becomes of the ledger for each answer that can come back.
//!
//! The ledger reaches a store through a [`Backing`], which keeps, for the
//! proofs alone, the record of every request made through it and of the
//! answer to each. The operations say in their contracts what they add to
//! that record, and so what they ask of a store, in which order, and that
//! they ask nothing once they have refused.

use vstd::prelude::*;
use sp_runtime::DispatchError;
use crate::ids::{AccountId, FTokenId, FractionAmount, InternalCollectionId, ItemId};

verus! {

/// The store of the pools of fungible shares.
pub trait Fungibles {
    /// Creates a pool owned by `account`; answers with its identifier.
    fn create_ft(&mut self, account: AccountId, minimum_balance: FractionAmount) -> Result<
        FTokenId,
        DispatchError,
    >;

    /// Whether `who` may mint shares of the pool now.
    fn can_mint(&self, ft_id: FTokenId, who: &AccountId) -> bool;

    /// Whether `who` may burn shares of the pool now.
    fn can_burn(&self, ft_id: FTokenId, who: &AccountId) -> bool;

    /// Mints `amount` shares of the pool to `who`.
    fn mint_ft(&mut self, ft_id: FTokenId, who: &AccountId, amount: FractionAmount) -> Result<
        (),
        DispatchError,
    >;

    /// Burns up to `amount` shares of `who`; answers with the amount that
    /// was withdrawn.
    fn burn_ft(&mut self, ft_id: FTokenId, who: &AccountId, amount: FractionAmount) -> Result<
        FractionAmount,
        DispatchError,
    >;

    /// Moves `amount` shares of the pool from `from` to `to`.
    fn transfer(
        &mut self,
        ft_id: FTokenId,
        from: &AccountId,
        to: &AccountId,
        amount: FractionAmount,
    ) -> Result<(), DispatchError>;

    /// Forbids further minting in the pool, for good.
    fn lock_minting(&mut self, ft_id: FTokenId, who: &AccountId) -> Result<(), DispatchError>;
}

/// The store of the indivisible tokens.
pub trait Nonfungibles {
    /// Creates the class `class`, owned and administered as given.
    fn create_class(&mut self, class: &InternalCollectionId, who: &AccountId, admin: &AccountId)
        -> Result<(), DispatchError>;

    /// Mints the token `instance` of `class` to `who`.
    fn mint_into(&mut self, class: &InternalCollectionId, instance: &ItemId, who: &AccountId)
        -> Result<(), DispatchError>;

    /// Gives the token `instance` of `class` to `destination`.
    fn transfer(
        &mut self,
        class: &InternalCollectionId,
        instance: &ItemId,
        destination: &AccountId,
    ) -> Result<(), DispatchError>;
}

/// The request to create a class of tokens.
#[derive(Clone, Copy, Debug, PartialEq, Eq, Structural)]
pub struct CreateClass {
    pub class: InternalCollectionId,
    pub who: AccountId,
    pub admin: AccountId,
}

/// The request to mint a token.
#[derive(Clone, Copy, Debug, PartialEq, Eq, Structural)]
pub struct MintToken {
    pub class: InternalCollectionId,
    pub instance: ItemId,
    pub who: AccountId,
}

/// The request to give a token to another account.
#[derive(Clone, Copy, Debug, PartialEq, Eq, Structural)]
pub struct MoveToken {
    pub class: InternalCollectionId,
    pub instance: ItemId,
    pub destination: AccountId,
}

/// The request to create a pool.
#[derive(Clone, Copy, Debug, PartialEq, Eq, Structural)]
pub struct CreatePool {
    pub account: AccountId,
    pub minimum_balance: FractionAmount,
}

/// The request to mint shares, or to burn them.
#[derive(Clone, Copy, Debug, PartialEq, Eq, Structural)]
pub struct PoolOrder {
    pub ft_id: FTokenId,
    pub who: AccountId,
    pub amount: FractionAmount,
}

/// The request to move shares from one account to another.
#[derive(Clone, Copy, Debug, PartialEq, Eq, Structural)]
pub struct MoveShares {
    pub ft_id: FTokenId,
    pub from: AccountId,
    pub to: AccountId,
    pub amount: FractionAmount,
}

/// One request to a backing store, and the answer of the store.
pub enum Exchange {
    /// To create a class of tokens.
    CreateClass(CreateClass, Result<(), DispatchError>),
    /// To mint a token.
    MintToken(MintToken, Result<(), DispatchError>),
    /// To give a token to another account.
    MoveToken(MoveToken, Result<(), DispatchError>),
    /// To create a pool; the answer names the pool.
    CreatePool(CreatePool, Result<FTokenId, DispatchError>),
    /// Whether an account may mint in a pool.
    MayMint(FTokenId, AccountId, bool),
    /// Whether an account may burn in a pool.
    MayBurn(FTokenId, AccountId, bool),
    /// To mint shares.
    MintShares(PoolOrder, Result<(), DispatchError>),
    /// To burn shares; the answer is the amount withdrawn.
    BurnShares(PoolOrder, Result<FractionAmount, DispatchError>),
    /// To move shares from one account to another.
    MoveShares(MoveShares, Result<(), DispatchError>),
    /// To forbid an account further minting in a pool.
    LockMinting(FTokenId, AccountId, Result<(), DispatchError>),
}

/// A backing store, with the record of what was asked of it through this
/// value and of what it answered.
pub struct Backing<S> {
    store: S,
    asked: Ghost<Seq<Exchange>>,
}

impl<S> Backing<S> {
    /// The store.
    pub closed spec fn held(&self) -> S {
        self.store
    }

    /// The requests made so far, each with its answer, oldest first.
    pub closed spec fn asked(&self) -> Seq<Exchange> {
        self.asked@
    }

    /// `store`, of which nothing was asked yet.
    pub fn new(store: S) -> (backing: Self)
        ensures
            backing.held() == store,
            backing.asked() == Seq::<Exchange>::empty(),
    {
        Backing { store, asked: Ghost(Seq::empty()) }
    }

    /// The store.
    pub fn store(&self) -> (store: &S)
        ensures
            *store == self.held(),
    {
        &self.store
    }

    /// The store, to change it from outside; the record stays as it is.
    pub fn store_mut(&mut self) -> (store: &mut S)
        ensures
            *store == old(self).held(),
            final(self).held() == *final(store),
            final(self).asked() == old(self).asked(),
    {
        &mut self.store
    }

    /// The store, given back.
    pub fn into_store(self) -> (store: S)
        ensures
            store == self.held(),
    {
        self.store
    }
}

impl<S: Nonfungibles> Backing<S> {
    /// Asks the store to create a class.
    pub fn create_class(&mut self, order: CreateClass) -> (answer: Result<(), DispatchError>)
        ensures
            final(self).asked() == old(self).asked().push(Exchange::CreateClass(order, answer)),
    {
        let answer = self.store.create_class(&order.class, &order.who, &order.admin);
        self.asked = Ghost(self.asked@.push(Exchange::CreateClass(order, answer)));
        answer
    }

    /// Asks the store to mint a token.
    pub fn mint_into(&mut self, order: MintToken) -> (answer: Result<(), DispatchError>)
        ensures
            final(self).asked() == old(self).asked().push(Exchange::MintToken(order, answer)),
    {
        let answer = self.store.mint_into(&order.class, &order.instance, &order.who);
        self.asked = Ghost(self.asked@.push(Exchange::MintToken(order, answer)));
        answer
    }

    /// Asks the store to give a token to another account.
    pub fn transfer_token(&mut self, order: MoveToken) -> (answer: Result<(), DispatchError>)
        ensures
            final(self).asked() == old(self).asked().push(Exchange::MoveToken(order, answer)),
    {
        let answer = self.store.transfer(&order.class, &order.instance, &order.destination);
        self.asked = Ghost(self.asked@.push(Exchange::MoveToken(order, answer)));
        answer
    }
}

impl<S: Fungibles> Backing<S> {
    /// Asks the store to create a pool.
    pub fn create_ft(&mut self, order: CreatePool) -> (answer: Result<FTokenId, DispatchError>)
        ensures
            final(self).asked() == old(self).asked().push(Exchange::CreatePool(order, answer)),
    {
        let answer = self.store.create_ft(order.account, order.minimum_balance);
        self.asked = Ghost(self.asked@.push(Exchange::CreatePool(order, answer)));
        answer
    }

    /// Asks the store whether `who` may mint in the pool.
    pub fn can_mint(&mut self, ft_id: FTokenId, who: &AccountId) -> (answer: bool)
        ensures
            final(self).asked() == old(self).asked().push(
                Exchange::MayMint(ft_id, *who, answer),
            ),
    {
        let answer = self.store.can_mint(ft_id, who);
        self.asked = Ghost(self.asked@.push(Exchange::MayMint(ft_id, *who, answer)));
        answer
    }

    /// Asks the store whether `who` may burn in the pool.
    pub fn can_burn(&mut self, ft_id: FTokenId, who: &AccountId) -> (answer: bool)
        ensures
            final(self).asked() == old(self).asked().push(
                Exchange::MayBurn(ft_id, *who, answer),
            ),
    {
        let answer = self.store.can_burn(ft_id, who);
        self.asked = Ghost(self.asked@.push(Exchange::MayBurn(ft_id, *who, answer)));
        answer
    }

    /// Asks the store to mint shares.
    pub fn mint_ft(&mut self, order: PoolOrder) -> (answer: Result<(), DispatchError>)
        ensures
            final(self).asked() == old(self).asked().push(Exchange::MintShares(order, answer)),
    {
        let answer = self.store.mint_ft(order.ft_id, &order.who, order.amount);
        self.asked = Ghost(self.asked@.push(Exchange::MintShares(order, answer)));
        answer
    }

    /// Asks the store to burn shares.
    pub fn burn_ft(&mut self, order: PoolOrder) -> (answer: Result<FractionAmount, DispatchError>)
        ensures
            final(self).asked() == old(self).asked().push(Exchange::BurnShares(order, answer)),
    {
        let answer = self.store.burn_ft(order.ft_id, &order.who, order.amount);
        self.asked = Ghost(self.asked@.push(Exchange::BurnShares(order, answer)));
        answer
    }

    /// Asks the store to move shares.
    pub fn transfer_shares(&mut self, order: MoveShares) -> (answer: Result<(), DispatchError>)
        ensures
            final(self).asked() == old(self).asked().push(Exchange::MoveShares(order, answer)),
    {
        let answer = self.store.transfer(order.ft_id, &order.from, &order.to, order.amount);
        self.asked = Ghost(self.asked@.push(Exchange::MoveShares(order, answer)));
        answer
    }

    /// Asks the store to forbid further minting in the pool.
    pub fn lock_minting(&mut self, ft_id: FTokenId, who: &AccountId) -> (answer: Result<
        (),
        DispatchError,
    >)
        ensures
            final(self).asked() == old(self).asked().push(
                Exchange::LockMinting(ft_id, *who, answer),
            ),
    {
        let answer = self.store.lock_minting(ft_id, who);
        self.asked = Ghost(self.asked@.push(Exchange::LockMinting(ft_id, *who, answer)));
        answer
    }
}

} // verus!
