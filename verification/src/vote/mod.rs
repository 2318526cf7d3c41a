//! Vote plans on the ledger: choices, payloads, the manager of one plan and
//! the ledger of all plans.

pub mod choice;
pub mod laws;
pub mod committee;
pub mod payload;

pub use choice::{Choice, InvalidOptionsLength, Options};
pub use committee::CommitteeId;
pub use payload::{Payload, PayloadType};
pub mod manager;
pub mod ledger;

pub use ledger::{VotePlanLedger, VotePlanLedgerError};
pub use manager::{ManagerStatus, VoteError, VotePlanManager};
