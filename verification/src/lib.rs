//! Escrowed payments against milestones, and the arbitration of disputes
//! over them.
//!
//! The crate is a set of state machines. Each operation takes the state, the
//! authenticated caller and the current time, and returns what has to be
//! moved on the asset ledger. Nothing here performs a transfer, reads a clock
//! or checks a signature: the embedding application does, before and after
//! the call.

pub mod account;
pub mod dispute;
pub mod escrow;
pub mod reputation;
pub mod settlement;
