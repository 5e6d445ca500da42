//! Ledger replay and reconciliation for a remote bookkeeping service.
//!
//! The crate walks an ordered transaction stream for one account, keeps a
//! running balance in integer minor units, detects month boundaries, compares
//! the balance at each boundary against an expected end-of-month value, and
//! computes the correcting mutations (create, update, or delete-and-recreate)
//! needed to make the ledger match. All arithmetic is on integer minor units;
//! the surrounding application performs the network calls that carry the
//! computed mutations to the remote service.

pub mod config;
pub mod dates;
pub mod description;
pub mod laws;
pub mod replay;
pub mod schema;
