//! An account-based ledger advanced by typed, atomically applied transactions.
//!
//! `runtime` holds the state-transition engine and its model, `laws` the
//! properties proved of that model, and `types` the entities it works on.
pub mod keymap;
pub mod laws;
pub mod ledger;
pub mod mempool;
pub mod runtime;
pub mod signature;
pub mod text;
pub mod thringlet;
pub mod types;
pub mod wallet;
