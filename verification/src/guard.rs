//! Guards: the tokens that prove that a lock or a hold was granted.
//!
//! A guard names the transaction in which it was issued and carries a number
//! that no other guard of that transaction carries. Only the ledger issues
//! guards: a caller can read one and hand it back, and cannot make one.

use vstd::prelude::*;
use crate::error::Error;
use crate::ids::{
    AccountId, Fingerprint, FractionHolderId, FractionKey, HoldCount, Key, LockNumber,
    Timepoint,
};
use crate::records::{FractionRecordT, NFTokenFractionRecord};
use crate::table::{del, lookup, put, Table};

verus! {

/// What a guard says: when it was issued, its number there, and the flags
/// of the lock that it stands for.
pub struct GuardData {
    pub timepoint: Timepoint,
    pub number: LockNumber,
    pub mask: u8,
}

/// The proof that a lock or a hold was granted.
#[derive(Clone, Copy, Debug, PartialEq, Eq, Structural, Hash)]
pub struct LockGuard {
    timepoint: Timepoint,
    number: LockNumber,
    mask: u8,
}

impl View for LockGuard {
    type V = GuardData;

    closed spec fn view(&self) -> GuardData {
        GuardData { timepoint: self.timepoint, number: self.number, mask: self.mask }
    }
}

impl LockGuard {
    /// The guard that says `data`.
    pub closed spec fn issued(data: GuardData) -> LockGuard {
        LockGuard { timepoint: data.timepoint, number: data.number, mask: data.mask }
    }

    /// The guard issued for `data` says `data`.
    pub broadcast proof fn lemma_issued(data: GuardData)
        ensures
            (#[trigger] LockGuard::issued(data))@ == data,
    {
    }

    /// Every guard is the guard issued for what it says.
    pub broadcast proof fn lemma_view(guard: LockGuard)
        ensures
            LockGuard::issued(#[trigger] guard@) == guard,
    {
    }

    /// Issues the guard with this timepoint, number and mask.
    pub(crate) fn new(timepoint: Timepoint, number: LockNumber, mask: u8) -> (g: Self)
        ensures
            g == LockGuard::issued(GuardData { timepoint, number, mask }),
            g@ == (GuardData { timepoint, number, mask }),
    {
        LockGuard { timepoint, number, mask }
    }

    /// The transaction in which the guard was issued.
    pub fn timepoint(&self) -> (t: Timepoint)
        ensures
            t == self@.timepoint,
    {
        self.timepoint
    }

    /// The number of the guard within its transaction.
    pub fn number(&self) -> (n: LockNumber)
        ensures
            n == self@.number,
    {
        self.number
    }

    /// The flags of the lock that the guard stands for.
    pub fn mask(&self) -> (m: u8)
        ensures
            m == self@.mask,
    {
        self.mask
    }
}

/// The next number of `timepoint` according to `numbers`: the one stored
/// there, and zero where none is.
pub open spec fn next_number(numbers: Seq<(Timepoint, LockNumber)>, timepoint: Timepoint)
    -> LockNumber {
    match lookup(numbers, timepoint) {
        Some(n) => n,
        None => 0,
    }
}

/// The number that a draw from `numbers` gives for `timepoint`: the next
/// number, unless it is the last of its range.
pub open spec fn drawn(numbers: Seq<(Timepoint, LockNumber)>, timepoint: Timepoint) -> Option<
    LockNumber,
> {
    if next_number(numbers, timepoint) < LockNumber::MAX {
        Some(next_number(numbers, timepoint))
    } else {
        None
    }
}

/// `numbers` after a draw for `timepoint`: the successor of the number
/// drawn is stored, and nothing changes where nothing was drawn.
pub open spec fn after_draw(numbers: Seq<(Timepoint, LockNumber)>, timepoint: Timepoint) -> Seq<
    (Timepoint, LockNumber),
> {
    if next_number(numbers, timepoint) < LockNumber::MAX {
        put(numbers, timepoint, (next_number(numbers, timepoint) + 1) as LockNumber)
    } else {
        numbers
    }
}

/// What a guard offers.
pub trait LockGuardT: Sized + Copy {
    /// The transaction in which the guard was issued.
    spec fn issued_at(&self) -> Timepoint;

    fn block_number(&self) -> (r: u64)
        ensures
            r == self.issued_at().block_number,
    ;

    fn extrinsic_index(&self) -> (r: u32)
        ensures
            r == self.issued_at().extrinsic_id,
    ;

    /// Draws the next guard number of `timepoint` from `numbers` and stores
    /// its successor there. Where the number drawn is the last of its range
    /// it has no successor: nothing is drawn then, and nothing changes.
    fn obtain_number(numbers: &mut Table<Timepoint, LockNumber>, timepoint: &Timepoint) -> (r:
        Option<LockNumber>)
        requires
            old(numbers).wf(),
        ensures
            final(numbers).wf(),
            r == drawn(old(numbers)@, *timepoint),
            final(numbers)@ == after_draw(old(numbers)@, *timepoint),
    {
        let number: LockNumber = match numbers.get(timepoint) {
            Some(n) => n,
            None => 0,
        };
        match number.checked_add(1) {
            Some(next) => {
                numbers.insert(*timepoint, next);
                Some(number)
            },
            None => None,
        }
    }
}

impl LockGuardT for LockGuard {
    open spec fn issued_at(&self) -> Timepoint {
        self@.timepoint
    }

    fn block_number(&self) -> (r: u64) {
        self.timepoint.block_number
    }

    fn extrinsic_index(&self) -> (r: u32) {
        self.timepoint.extrinsic_id
    }
}

/// The key of the shares that `fraction` records.
pub open spec fn key_of(fraction: NFTokenFractionRecord) -> FractionKey {
    FractionKey { fingerprint: fraction.fingerprint, account: fraction.account }
}

/// What counting one more hold on `fraction` gives: the record and the
/// table of counts with one hold more. Where the count is at the top of its
/// range the step overflows, and nothing changes.
pub open spec fn hold_counted(
    counts: Seq<(FractionKey, HoldCount)>,
    fraction: NFTokenFractionRecord,
) -> (Result<(), Error>, NFTokenFractionRecord, Seq<(FractionKey, HoldCount)>) {
    if fraction.holds < HoldCount::MAX {
        let held = NFTokenFractionRecord { holds: (fraction.holds + 1) as HoldCount, ..fraction };
        (Ok(()), held, put(counts, key_of(fraction), held.holds))
    } else {
        (Err(Error::Overflow), fraction, counts)
    }
}

/// What counting one hold less on `fraction` gives: the record and the
/// table of counts with one hold less, where a count of zero is not stored
/// but removed. Where no hold is counted the step overflows, and nothing
/// changes.
pub open spec fn hold_released(
    counts: Seq<(FractionKey, HoldCount)>,
    fraction: NFTokenFractionRecord,
) -> (Result<(), Error>, NFTokenFractionRecord, Seq<(FractionKey, HoldCount)>) {
    if fraction.holds > 0 {
        let freed = NFTokenFractionRecord { holds: (fraction.holds - 1) as HoldCount, ..fraction };
        if freed.holds == 0 {
            (Ok(()), freed, del(counts, key_of(fraction)))
        } else {
            (Ok(()), freed, put(counts, key_of(fraction), freed.holds))
        }
    } else {
        (Err(Error::Overflow), fraction, counts)
    }
}

/// A guard that keeps, beside the fraction record itself, a table of the
/// number of holds on each fraction.
pub trait FractionLockGuardT: LockGuardT {
    /// Counts one more hold on `fraction` and stores the count of the record
    /// in `counts`.
    fn lock<R: FractionRecordT>(counts: &mut Table<FractionKey, HoldCount>, fraction: &mut R) -> (r:
        Result<(), Error>)
        requires
            old(counts).wf(),
        ensures
            final(counts).wf(),
            (r, final(fraction).data(), final(counts)@) == hold_counted(
                old(counts)@,
                old(fraction).data(),
            ),
    {
        match fraction.inc_holds() {
            Err(_) => {
                return Err(Error::Overflow);
            },
            Ok(_) => {},
        }
        let key = FractionKey {
            fingerprint: *fraction.fingerprint(),
            account: *fraction.account(),
        };
        counts.insert(key, *fraction.holds());
        Ok(())
    }

    /// Counts one hold less on `fraction` and stores the count of the record
    /// in `counts`.
    fn unlock<R: FractionRecordT>(counts: &mut Table<FractionKey, HoldCount>, fraction: &mut R)
        -> (r: Result<(), Error>)
        requires
            old(counts).wf(),
        ensures
            final(counts).wf(),
            (r, final(fraction).data(), final(counts)@) == hold_released(
                old(counts)@,
                old(fraction).data(),
            ),
    {
        match fraction.dec_holds() {
            Err(_) => {
                return Err(Error::Overflow);
            },
            Ok(_) => {},
        }
        let key = FractionKey {
            fingerprint: *fraction.fingerprint(),
            account: *fraction.account(),
        };
        if *fraction.holds() == 0 {
            counts.remove(&key);
        } else {
            counts.insert(key, *fraction.holds());
        }
        Ok(())
    }
}

impl FractionLockGuardT for LockGuard {}

/// The key of one hold: the fraction it lies on, who placed it, and the
/// guard that was issued for it.
#[derive(Clone, Copy, Debug, PartialEq, Eq, Structural, Hash)]
pub struct HoldKey {
    pub fingerprint: Fingerprint,
    pub account: AccountId,
    pub holder_id: FractionHolderId,
    pub guard: LockGuard,
}

impl Key for HoldKey {
    fn same(&self, other: &Self) -> (b: bool) {
        *self == *other
    }
}

} // verus!
