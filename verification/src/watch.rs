//! What a node tells those who watch its pool of pending fragments.

use crate::hash::Digest;
use vstd::prelude::*;

verus! {

/// Identifier of a fragment.
pub type FragmentId = Digest;

/// Identifier of a block.
pub type BlockId = Digest;

/// A change in the pool of pending fragments.
#[derive(Debug)]
pub struct MempoolUpdate {
    pub fragment_id: FragmentId,
    pub event: MempoolEvent,
}

/// What happened to a fragment.
#[derive(Debug)]
pub enum MempoolEvent {
    /// The fragment entered the pool.
    FragmentInserted,
    /// The fragment was refused, for the given reason.
    FragmentRejected { reason: String },
    /// The fragment found its place in a block.
    FragmentInABlock { block_id: BlockId },
}

impl MempoolUpdate {
    /// The update that tells that a fragment was refused.
    pub fn rejected(fragment_id: FragmentId, reason: String) -> (r: MempoolUpdate)
        ensures
            r.fragment_id == fragment_id,
            r.event matches MempoolEvent::FragmentRejected { reason: s } && s@ == reason@,
    {
        MempoolUpdate { fragment_id, event: MempoolEvent::FragmentRejected { reason } }
    }
}

} // verus!
