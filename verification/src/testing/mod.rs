//! Builders and generators to try the ledger with.

pub mod data;
pub mod ledger;
pub mod template;
pub mod tx_cert_builder;
pub mod vote_gen;

pub use data::{AccountData, CommitteeMember, CommitteeMembersManager, TestGen, Wallet};
pub use template::{ProposalDef, StakePoolDef, StakePoolTemplate, VotePlanDef, WalletTemplate};
pub use vote_gen::VoteTestGen;
pub use tx_cert_builder::{
    encrypted_tally_sign, plan_sign, pool_owner_sign, pool_owner_signed, tally_sign,
    FaultTolerantTxCertBuilder, TestTxCertBuilder,
};
pub use ledger::{
    build_stake_pool_registration_cert, ConfigBuilder, LedgerBuilder, StakePool,
    StakePoolBuilder, TestLedger,
};
