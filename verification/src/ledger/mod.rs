//! The state that certificates act on.

pub mod accounts;
pub mod check;
pub mod governance;
pub mod ledger;

pub use governance::{
    Governance, GovernanceAcceptanceCriteria, ParametersGovernance, Ratio, TreasuryGovernance,
};
pub use ledger::{Error, Ledger};
