//! A small governance ledger: proposals are created, voted on, and resolved
//! under a simple majority rule. Every operation is stated against the
//! mathematical model in [`model`] and proved by Verus.

pub mod laws;
pub mod ledger;
pub mod model;

pub use ledger::Contract;
pub use model::{LedgerError, LedgerView, ProposalView, Status};
