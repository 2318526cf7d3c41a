//! The certificate that casts a vote.

use crate::certificate::vote_plan::VotePlanId;
use crate::vote::payload::{Payload, PayloadView};
use vstd::prelude::*;

verus! {

/// A vote cast on one proposal of a vote plan.
#[derive(Debug, PartialEq, Eq)]
pub struct VoteCast {
    vote_plan: VotePlanId,
    proposal_index: u8,
    payload: Payload,
}

/// The abstract vote cast.
pub struct VoteCastView {
    pub vote_plan: VotePlanId,
    pub proposal_index: u8,
    pub payload: PayloadView,
}

impl View for VoteCast {
    type V = VoteCastView;

    closed spec fn view(&self) -> VoteCastView {
        VoteCastView {
            vote_plan: self.vote_plan,
            proposal_index: self.proposal_index,
            payload: self.payload@,
        }
    }
}

impl VoteCast {
    /// The vote cast on proposal `proposal_index` of the plan `vote_plan`.
    pub fn new(vote_plan: VotePlanId, proposal_index: u8, payload: Payload) -> (r: VoteCast)
        ensures
            r@ == (VoteCastView { vote_plan, proposal_index, payload: payload@ }),
    {
        VoteCast { vote_plan, proposal_index, payload }
    }

    /// The plan voted on.
    pub fn vote_plan(&self) -> (r: &VotePlanId)
        ensures
            *r == self@.vote_plan,
    {
        &self.vote_plan
    }

    /// The index of the proposal voted on.
    pub fn proposal_index(&self) -> (r: u8)
        ensures
            r == self@.proposal_index,
    {
        self.proposal_index
    }

    /// What was voted.
    pub fn payload(&self) -> (r: &Payload)
        ensures
            r@ == self@.payload,
    {
        &self.payload
    }

    /// Gives the payload up.
    pub fn into_payload(self) -> (r: Payload)
        ensures
            r@ == self@.payload,
    {
        self.payload
    }
}

} // verus!
