//! The job ledger: custody of a job's funds against its milestones.

pub mod history;
pub mod laws;
pub mod ledger;
pub mod model;
pub mod rules;

pub use model::{
    DisputeResolution, EscrowContract, EscrowError, Job, JobStatus, Milestone, MilestoneStatus,
    ProposalStatus, RevisionProposal, Settings, StoredJob,
};
