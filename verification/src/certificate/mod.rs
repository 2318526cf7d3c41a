//! Certificates: what a transaction can carry besides value.

pub mod payload;
pub mod pool;
pub mod vote_cast;
pub mod vote_plan;
pub mod vote_plan_codec;
pub mod vote_tally;

pub use payload::{Certificate, CertificateKind};
pub use pool::{
    OwnerStakeDelegation, PoolOwnersSigned, PoolPermissions, PoolRegistration, PoolRetirement,
    PoolSignature, PoolUpdate, StakeDelegation, TaxType,
};
pub use vote_cast::VoteCast;
pub use vote_plan::{
    ExternalProposalId, ParametersGovernanceAction, Proposal, Proposals, PushProposal,
    TreasuryGovernanceAction, VoteAction, VotePlan, VotePlanId,
};
pub use vote_tally::{
    DecryptedPrivateTally, EncryptedVoteTally, EncryptedVoteTallyProof, MemberShares, TallyProof,
    VotePlanProof, VoteTally, VoteTallyPayload,
};
