//! What identifies the header of a block.

use crate::hash::Digest;
use vstd::prelude::*;

verus! {

/// Identifier of a block header.
pub type HeaderId = Digest;

/// The description of a header: its identifier.
#[derive(Clone, Copy, Debug, PartialEq, Eq, Structural)]
pub struct HeaderDesc {
    pub id: HeaderId,
}

/// Whether two descriptions are of the same header.
pub fn are_desc_equal(left: HeaderDesc, right: HeaderDesc) -> (r: bool)
    ensures
        r == (left.id == right.id),
{
    left.id.equals(&right.id)
}

} // verus!
