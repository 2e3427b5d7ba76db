//! A deterministic state-transition engine for a token ledger with
//! administrative issuance control and a staking/reward subsystem.
//!
//! Raw instruction bytes are decoded into typed commands (two dialects, the
//! current one tried first), routed to a handler that validates authorization
//! and invariants, and applied to account byte buffers in place. External
//! effects (token mint/burn, buffer provisioning, reward payout) are returned
//! as ledger-action values carrying the exact arguments the host must pass to
//! the outside ledger primitive.

pub mod account;
pub mod admin;
pub mod error;
pub mod identity;
pub mod instruction;
pub mod processor;
pub mod stake;
pub mod state;
pub mod wire;

pub use account::{Account, LedgerAction};
pub use error::E9thTokenError;
pub use identity::Identity;
pub use instruction::{E9thInstruction, E9thTokenInstruction};
pub use processor::Processor;
pub use state::{Blacklist, ProgramState, StakeAccount, StakeEntry, TokenConfig};
