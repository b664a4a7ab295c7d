//! State-transition core of a burn-only universal basic income token.
//!
//! Any account may claim a fixed allowance once per claim period; balances are
//! held as batches that expire after a fixed number of blocks; tokens can only
//! be destroyed ("burned") in favour of a named recipient, who receives an
//! attestation but no balance. A multi-factor reputation score is derived from
//! claim cadence and burn relationships.
//!
//! The core is a pure state machine: the host supplies the current block
//! height with every call, persists the [`pallet::Pallet`] store, and
//! publishes the returned events. Every public operation carries a contract
//! that pins down the store after the call, and the `laws` module proves the
//! global invariants (supply accounting, unique-recipient counting, ledger
//! well-formedness) from those contracts.

pub mod arith;
pub mod assoc;
pub mod laws;
pub mod ledger;
pub mod pallet;
pub mod reputation;
pub mod types;
