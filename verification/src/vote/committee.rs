//! Who may act for the committee of a vote plan.

use crate::hash::Digest;
use crate::key::PublicKey;
use vstd::prelude::*;

verus! {

/// Identifier of a committee member: the bytes of its signing key.
#[derive(Clone, Copy, Debug, PartialEq, Eq, Hash, Structural)]
pub struct CommitteeId(pub Digest);

impl View for CommitteeId {
    type V = Seq<u8>;

    open spec fn view(&self) -> Seq<u8> {
        self.0@
    }
}

impl CommitteeId {
    /// The identifier of the member that signs with `key`.
    pub fn from_public_key(key: PublicKey) -> (r: CommitteeId)
        ensures
            r@ == key@,
    {
        CommitteeId(key.0)
    }

    /// Whether two identifiers are the same.
    pub fn equals(&self, other: &CommitteeId) -> (r: bool)
        ensures
            r == (self@ == other@),
            r == (*self == *other),
    {
        self.0.equals(&other.0)
    }
}

/// The identifiers as byte strings.
pub open spec fn committee_values(s: Seq<CommitteeId>) -> Seq<Seq<u8>> {
    s.map_values(|c: CommitteeId| c@)
}

/// Whether `id` is among `members`.
pub fn is_committee_member(members: &Vec<CommitteeId>, id: &CommitteeId) -> (r: bool)
    ensures
        r == committee_values(members@).contains(id@),
{
    let mut i: usize = 0;
    while i < members.len()
        invariant
            i <= members.len(),
            forall|k: int| 0 <= k < i ==> members@[k]@ != id@,
        decreases members.len() - i,
    {
        if members[i].equals(id) {
            proof {
                assert(committee_values(members@)[i as int] == id@);
            }
            return true;
        }
        i = i + 1;
    }
    proof {
        let vals = committee_values(members@);
        assert forall|k: int| 0 <= k < vals.len() implies vals[k] != id@ by {
            assert(vals[k] == members@[k]@);
        }
    }
    false
}

} // verus!
