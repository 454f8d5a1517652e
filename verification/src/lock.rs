//! Lock masks: what a lock on an item or on a fraction forbids.
//!
//! A mask is a set of flags kept in one byte. Each flag is one bit, and the
//! operations on masks are the bitwise operations on their bytes.

use vstd::prelude::*;

verus! {

/// What a lock on a whole item forbids.
#[derive(Clone, Copy, Debug, PartialEq, Eq, Structural, Hash)]
pub struct ItemLockMask {
    pub bits: u8,
}

impl ItemLockMask {
    /// The byte that holds the flags.
    pub open spec fn spec_bits(&self) -> u8 {
        self.bits
    }

    /// The byte that holds the flags.
    #[verifier::when_used_as_spec(spec_bits)]
    pub fn bits(&self) -> (b: u8)
        ensures
            b == self.bits(),
    {
        self.bits
    }

    /// The mask whose flags are the bits of `bits`.
    pub fn from_bits(bits: u8) -> (m: Self)
        ensures
            m.bits() == bits,
    {
        ItemLockMask { bits }
    }

    /// The item may not be transferred.
    pub fn transfer() -> (m: Self)
        ensures
            m.bits() == 0b0001u8,
    {
        ItemLockMask { bits: 0b0001 }
    }

    /// No fraction of the item may be minted.
    pub fn mint_fraction() -> (m: Self)
        ensures
            m.bits() == 0b0010u8,
    {
        ItemLockMask { bits: 0b0010 }
    }

    /// No fraction of the item may be burned.
    pub fn burn_fraction() -> (m: Self)
        ensures
            m.bits() == 0b0100u8,
    {
        ItemLockMask { bits: 0b0100 }
    }

    /// The mask without any flag.
    pub fn none() -> (m: Self)
        ensures
            m.bits() == 0u8,
    {
        ItemLockMask { bits: 0 }
    }

    /// The mask with every flag that the type names.
    pub fn all_flags() -> (m: Self)
        ensures
            m.bits() == 0b0111u8,
    {
        ItemLockMask { bits: 0b0111 }
    }

    /// Whether no flag is set.
    pub fn is_none(&self) -> (b: bool)
        ensures
            b == (self.bits() == 0),
    {
        self.bits == 0
    }

    /// Whether every flag of `other` is set in `self`.
    pub fn contains(&self, other: Self) -> (b: bool)
        ensures
            b == (self.bits() & other.bits() == other.bits()),
    {
        (self.bits & other.bits) == other.bits
    }

    /// Whether some flag of `other` is set in `self`, or `other` has none.
    pub fn intersects(&self, other: Self) -> (b: bool)
        ensures
            b == (self.bits() & other.bits() != 0 || other.bits() == 0),
    {
        (self.bits & other.bits) != 0 || other.bits == 0
    }

    /// The flags that are not set in `self`, over the whole byte.
    pub fn not(self) -> (m: Self)
        ensures
            m.bits() == !self.bits(),
    {
        ItemLockMask { bits: !self.bits }
    }

    /// The flags set in both.
    pub fn and(self, other: Self) -> (m: Self)
        ensures
            m.bits() == self.bits() & other.bits(),
    {
        ItemLockMask { bits: self.bits & other.bits }
    }

    /// The flags set in either.
    pub fn or(self, other: Self) -> (m: Self)
        ensures
            m.bits() == self.bits() | other.bits(),
    {
        ItemLockMask { bits: self.bits | other.bits }
    }

    /// The flags set in exactly one of the two.
    pub fn xor(self, other: Self) -> (m: Self)
        ensures
            m.bits() == self.bits() ^ other.bits(),
    {
        ItemLockMask { bits: self.bits ^ other.bits }
    }
}

/// What a lock on a fraction forbids.
#[derive(Clone, Copy, Debug, PartialEq, Eq, Structural, Hash)]
pub struct FractionLockMask {
    pub bits: u8,
}

impl FractionLockMask {
    /// The byte that holds the flags.
    pub open spec fn spec_bits(&self) -> u8 {
        self.bits
    }

    /// The byte that holds the flags.
    #[verifier::when_used_as_spec(spec_bits)]
    pub fn bits(&self) -> (b: u8)
        ensures
            b == self.bits(),
    {
        self.bits
    }

    /// The mask whose flags are the bits of `bits`.
    pub fn from_bits(bits: u8) -> (m: Self)
        ensures
            m.bits() == bits,
    {
        FractionLockMask { bits }
    }

    /// The fraction may not be transferred.
    pub fn transfer() -> (m: Self)
        ensures
            m.bits() == 0b0001u8,
    {
        FractionLockMask { bits: 0b0001 }
    }

    /// The mask without any flag.
    pub fn none() -> (m: Self)
        ensures
            m.bits() == 0u8,
    {
        FractionLockMask { bits: 0 }
    }

    /// The mask with every flag that the type names.
    pub fn all_flags() -> (m: Self)
        ensures
            m.bits() == 0b0001u8,
    {
        FractionLockMask { bits: 0b0001 }
    }

    /// Whether no flag is set.
    pub fn is_none(&self) -> (b: bool)
        ensures
            b == (self.bits() == 0),
    {
        self.bits == 0
    }

    /// Whether every flag of `other` is set in `self`.
    pub fn contains(&self, other: Self) -> (b: bool)
        ensures
            b == (self.bits() & other.bits() == other.bits()),
    {
        (self.bits & other.bits) == other.bits
    }

    /// Whether some flag of `other` is set in `self`, or `other` has none.
    pub fn intersects(&self, other: Self) -> (b: bool)
        ensures
            b == (self.bits() & other.bits() != 0 || other.bits() == 0),
    {
        (self.bits & other.bits) != 0 || other.bits == 0
    }

    /// The flags that are not set in `self`, over the whole byte.
    pub fn not(self) -> (m: Self)
        ensures
            m.bits() == !self.bits(),
    {
        FractionLockMask { bits: !self.bits }
    }

    /// The flags set in both.
    pub fn and(self, other: Self) -> (m: Self)
        ensures
            m.bits() == self.bits() & other.bits(),
    {
        FractionLockMask { bits: self.bits & other.bits }
    }

    /// The flags set in either.
    pub fn or(self, other: Self) -> (m: Self)
        ensures
            m.bits() == self.bits() | other.bits(),
    {
        FractionLockMask { bits: self.bits | other.bits }
    }

    /// The flags set in exactly one of the two.
    pub fn xor(self, other: Self) -> (m: Self)
        ensures
            m.bits() == self.bits() ^ other.bits(),
    {
        FractionLockMask { bits: self.bits ^ other.bits }
    }
}

impl From<u8> for ItemLockMask {
    fn from(bits: u8) -> (m: Self) {
        ItemLockMask { bits }
    }
}

impl vstd::std_specs::convert::FromSpecImpl<u8> for ItemLockMask {
    open spec fn obeys_from_spec() -> bool {
        true
    }

    open spec fn from_spec(bits: u8) -> Self {
        ItemLockMask { bits }
    }
}

impl From<ItemLockMask> for u8 {
    fn from(mask: ItemLockMask) -> (bits: Self) {
        mask.bits
    }
}

impl vstd::std_specs::convert::FromSpecImpl<ItemLockMask> for u8 {
    open spec fn obeys_from_spec() -> bool {
        true
    }

    open spec fn from_spec(mask: ItemLockMask) -> Self {
        mask.bits
    }
}

impl From<u8> for FractionLockMask {
    fn from(bits: u8) -> (m: Self) {
        FractionLockMask { bits }
    }
}

impl vstd::std_specs::convert::FromSpecImpl<u8> for FractionLockMask {
    open spec fn obeys_from_spec() -> bool {
        true
    }

    open spec fn from_spec(bits: u8) -> Self {
        FractionLockMask { bits }
    }
}

impl From<FractionLockMask> for u8 {
    fn from(mask: FractionLockMask) -> (bits: Self) {
        mask.bits
    }
}

impl vstd::std_specs::convert::FromSpecImpl<FractionLockMask> for u8 {
    open spec fn obeys_from_spec() -> bool {
        true
    }

    open spec fn from_spec(mask: FractionLockMask) -> Self {
        mask.bits
    }
}

} // verus!
