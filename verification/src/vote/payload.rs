//! What a vote cast carries.

use crate::gargamel::{ciphertext_values, Ciphertext};
use crate::shvzk::{Proof, ProofView};
use crate::vote::choice::Choice;
use vstd::prelude::*;

verus! {

/// How the votes of a plan are cast: in the open, or encrypted.
#[derive(Clone, Copy, Debug, PartialEq, Eq, Hash, Structural)]
pub enum PayloadType {
    Public,
    Private,
}

/// The payload of a vote cast.
#[derive(Debug, PartialEq, Eq)]
pub enum Payload {
    /// The choice, in the open.
    Public { choice: Choice },
    /// The encrypted vote with the proof that it is a unit vector.
    Private { encrypted_vote: Vec<Ciphertext>, proof: Proof },
}

/// The abstract payload.
pub enum PayloadView {
    Public { choice: u8 },
    Private { encrypted_vote: Seq<(nat, nat)>, proof: ProofView },
}

impl View for Payload {
    type V = PayloadView;

    open spec fn view(&self) -> PayloadView {
        match self {
            Payload::Public { choice } => PayloadView::Public { choice: choice@ },
            Payload::Private { encrypted_vote, proof } => PayloadView::Private {
                encrypted_vote: ciphertext_values(encrypted_vote@),
                proof: proof@,
            },
        }
    }
}

impl PayloadType {
    /// The byte that stands for the payload type.
    pub fn as_byte(self) -> (r: u8)
        ensures
            r == payload_type_byte(self),
    {
        match self {
            PayloadType::Public => 1,
            PayloadType::Private => 2,
        }
    }
}

/// The byte that stands for a payload type.
pub open spec fn payload_type_byte(t: PayloadType) -> u8 {
    match t {
        PayloadType::Public => 1,
        PayloadType::Private => 2,
    }
}

impl Payload {
    /// The payload of a vote in the open.
    pub fn public(choice: Choice) -> (r: Payload)
        ensures
            r@ == (PayloadView::Public { choice: choice@ }),
    {
        Payload::Public { choice }
    }

    /// The payload of an encrypted vote.
    pub fn private(encrypted_vote: Vec<Ciphertext>, proof: Proof) -> (r: Payload)
        ensures
            r@ == (PayloadView::Private {
                encrypted_vote: ciphertext_values(encrypted_vote@),
                proof: proof@,
            }),
    {
        Payload::Private { encrypted_vote, proof }
    }

    /// How this payload is cast.
    pub fn payload_type(&self) -> (r: PayloadType)
        ensures
            r == payload_type_of(self@),
    {
        match self {
            Payload::Public { .. } => PayloadType::Public,
            Payload::Private { .. } => PayloadType::Private,
        }
    }
}

/// How a payload is cast.
pub open spec fn payload_type_of(p: PayloadView) -> PayloadType {
    match p {
        PayloadView::Public { .. } => PayloadType::Public,
        PayloadView::Private { .. } => PayloadType::Private,
    }
}

} // verus!
