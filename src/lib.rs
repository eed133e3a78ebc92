//! Ledger and admission logic of a sequential reference-string ceremony.
//!
//! The ledger is a totally ordered, append-only history of slots: slot 0 holds
//! the genesis reference string, every later slot one participant's validated
//! contribution. Admission decides from an observed bid whether an address may
//! contribute next.

pub mod admission;
pub mod config;
pub mod coordinator;
pub mod ledger;
