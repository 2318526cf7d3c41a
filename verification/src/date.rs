//! Block dates: the logical clock of the ledger.

use vstd::prelude::*;

verus! {

/// A date on the chain: an epoch and a slot within it.
#[derive(Clone, Copy, Debug, PartialEq, Eq, Hash, Structural)]
pub struct BlockDate {
    pub epoch: u32,
    pub slot_id: u32,
}

/// Whether `a` is `b` or earlier.
pub open spec fn date_le(a: BlockDate, b: BlockDate) -> bool {
    a.epoch < b.epoch || (a.epoch == b.epoch && a.slot_id <= b.slot_id)
}

/// Whether `a` is later than `b`.
pub open spec fn date_gt(a: BlockDate, b: BlockDate) -> bool {
    !date_le(a, b)
}

impl BlockDate {
    /// The first date: slot zero of epoch zero.
    pub fn first() -> (r: BlockDate)
        ensures
            r == (BlockDate { epoch: 0, slot_id: 0 }),
    {
        BlockDate { epoch: 0, slot_id: 0 }
    }

    /// The date of the given epoch and slot.
    pub fn from_epoch_slot_id(epoch: u32, slot_id: u32) -> (r: BlockDate)
        ensures
            r == (BlockDate { epoch, slot_id }),
    {
        BlockDate { epoch, slot_id }
    }

    /// Whether this date is `other` or earlier.
    pub fn is_at_or_before(&self, other: &BlockDate) -> (r: bool)
        ensures
            r == date_le(*self, *other),
    {
        self.epoch < other.epoch || (self.epoch == other.epoch && self.slot_id <= other.slot_id)
    }

    /// Whether this date is later than `other`.
    pub fn is_after(&self, other: &BlockDate) -> (r: bool)
        ensures
            r == date_gt(*self, *other),
    {
        !self.is_at_or_before(other)
    }

    /// The date one slot later, within the same epoch.
    pub fn next_slot(&self) -> (r: BlockDate)
        requires
            self.slot_id < u32::MAX,
        ensures
            r == (BlockDate { epoch: self.epoch, slot_id: (self.slot_id + 1) as u32 }),
    {
        BlockDate { epoch: self.epoch, slot_id: self.slot_id + 1 }
    }
}

} // verus!
