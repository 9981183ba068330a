//! Token-weighted governance: members open proposals, vote on them by locking
//! tokens as weight, and a tally closes each proposal against a quorum of the
//! total supply.
//!
//! The rules are pure functions over plain records (`setup`, `registry`,
//! `voting`, `tally`). `contract` composes them over an in-memory ledger
//! (`env`, made of `store` and `token`), and `laws` states what holds of every
//! run of that ledger. `host` reports failures in the host's own error value.

pub mod contract;
pub mod env;
pub mod host;
pub mod laws;
pub mod registry;
pub mod setup;
pub mod store;
mod sums;
pub mod tally;
pub mod token;
pub mod types;
pub mod voting;
