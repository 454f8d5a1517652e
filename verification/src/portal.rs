//! The bookkeeping of portals: which transactions of a block were made for
//! which portal.

use vstd::prelude::*;

verus! {

/// The index of a transaction in its block.
pub type ExtrinsicId = u32;

/// The transactions of one portal.
pub type ExtrinsicIdList = Vec<ExtrinsicId>;

/// The portals of a block, each with its transactions.
pub type PortalInfo<PortalId> = Vec<(PortalId, ExtrinsicIdList)>;

/// The hash of a transaction.
pub type ExtrinsicHash = [u8; 32];

/// The pairs of one transaction of `entry` and the portal of `entry`, in
/// the order of the transactions.
pub open spec fn pairs_of<PortalId>(entry: (PortalId, ExtrinsicIdList)) -> Seq<
    (ExtrinsicId, PortalId),
> {
    Seq::new(entry.1@.len(), |i: int| (entry.1@[i], entry.0))
}

/// The pairs of one transaction and its portal, for every transaction of
/// every entry of `source`: entry after entry, and within an entry in the
/// order of its transactions.
pub open spec fn transposed<PortalId>(source: Seq<(PortalId, ExtrinsicIdList)>) -> Seq<
    (ExtrinsicId, PortalId),
>
    decreases source.len(),
{
    if source.len() == 0 {
        Seq::empty()
    } else {
        transposed(source.drop_last()) + pairs_of(source.last())
    }
}

/// Turns the list of transactions of each portal into the list of pairs of
/// one transaction and its portal.
pub fn transpose<PortalId: Copy>(source: &PortalInfo<PortalId>) -> (pairs: Vec<
    (ExtrinsicId, PortalId),
>)
    ensures
        pairs@ == transposed(source@),
{
    let mut pairs: Vec<(ExtrinsicId, PortalId)> = Vec::new();
    let mut i: usize = 0;
    while i < source.len()
        invariant
            i <= source.len(),
            pairs@ == transposed(source@.take(i as int)),
        decreases source.len() - i,
    {
        let portal = source[i].0;
        let ghost before = pairs@;
        let mut j: usize = 0;
        while j < source[i].1.len()
            invariant
                i < source.len(),
                j <= source[i as int].1@.len(),
                portal == source[i as int].0,
                pairs@ == before + pairs_of(source[i as int]).take(j as int),
            decreases source[i as int].1@.len() - j,
        {
            pairs.push((source[i].1[j], portal));
            proof {
                let all = pairs_of(source[i as int]);
                assert(all.take(j + 1) == all.take(j as int).push(all[j as int]));
            }
            j = j + 1;
        }
        proof {
            let all = pairs_of(source[i as int]);
            assert(all.take(all.len() as int) == all);
            assert(source@.take(i + 1).drop_last() == source@.take(i as int));
            assert(source@.take(i + 1).last() == source@[i as int]);
        }
        i = i + 1;
    }
    proof {
        assert(source@.take(source.len() as int) == source@);
    }
    pairs
}

} // verus!
