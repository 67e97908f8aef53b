//! The dispute registry: votes, appeal rounds and the rewards of the voters.

pub mod laws;
pub mod model;
pub mod registry;
pub mod rules;

pub use model::{
    Arbitration, Dispute, DisputeContract, DisputeError, DisputeRecord, DisputeStatus,
    Settlement, Vote, VoteChoice,
};
pub use registry::Resolution;
