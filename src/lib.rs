//! A ledger of staked knowledge, the attributions that record its use, and
//! the rewards those attributions accrue to each staker.
//!
//! Every record lives at an address derived from its logical key, so a record
//! for one key can be created at most once.
pub mod address;
pub mod state;
pub mod processor;
pub mod store;
pub mod ledger;
pub mod laws;
