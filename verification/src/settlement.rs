//! The settlement bridge: the one way by which a dispute changes a job.
//!
//! A resolution that is final asks the job ledger to settle the job. Both
//! happen, or neither: a settlement that the job ledger would refuse
//! leaves the dispute unresolved.

use crate::account::Transfer;
use crate::dispute::model::{DisputeContract, DisputeError};
use crate::dispute::registry::Resolution;
use crate::escrow::model::{EscrowContract, EscrowError};
use vstd::prelude::*;

verus! {

/// Why a dispute was not resolved and settled.
#[derive(Clone, Copy, Debug, PartialEq, Eq, Structural)]
pub enum SettlementError {
    /// The registry refuses the resolution.
    Dispute(DisputeError),
    /// The job ledger refuses the settlement that the resolution asks for.
    Escrow(EscrowError),
}

/// Resolves dispute `dispute_id` and, where the resolution is final,
/// settles its job on `ledger`. Returns what the resolution leaves to be
/// done and the transfers that the settlement of the job asks for.
pub fn resolve_and_settle(
    registry: &mut DisputeContract,
    ledger: &mut EscrowContract,
    dispute_id: u64,
    malicious: bool,
    now: u64,
    sequence: u32,
) -> (r: Result<(Resolution, Vec<Transfer>), SettlementError>)
    requires
        old(registry).wf(),
        old(ledger).wf(),
    ensures
        final(registry).wf(),
        final(ledger).wf(),
        match r {
            Ok((resolution, job_transfers)) => {
                let d = old(registry)@.entry(dispute_id).dispute;
                &&& old(registry)@.resolve_error(dispute_id) is None
                &&& resolution.status == d.resolved_status()
                &&& resolution.settlement == d.settlement()
                &&& resolution.transfers@ == d.resolve_transfers(
                    malicious,
                    old(registry)@.threshold(),
                )
                &&& final(registry)@ == old(registry)@.resolve_next(
                    dispute_id,
                    malicious,
                    now,
                    sequence,
                )
                &&& match d.settlement() {
                    Some(s) => {
                        &&& old(ledger)@.settle_error(s.job_id) is None
                        &&& job_transfers@ == old(ledger)@.settle_transfers(s.job_id, s.resolution)
                        &&& final(ledger)@ == old(ledger)@.settle_next(s.job_id, s.resolution)
                    },
                    None => job_transfers@.len() == 0 && final(ledger)@ == old(ledger)@,
                }
            },
            Err(SettlementError::Dispute(e)) => {
                &&& old(registry)@.resolve_error(dispute_id) == Some(e)
                &&& final(registry)@ == old(registry)@
                &&& final(ledger)@ == old(ledger)@
            },
            Err(SettlementError::Escrow(e)) => {
                &&& old(registry)@.resolve_error(dispute_id) is None
                &&& old(registry)@.entry(dispute_id).dispute.settlement() matches Some(s)
                &&& old(ledger)@.settle_error(s.job_id) == Some(e)
                &&& final(registry)@ == old(registry)@
                &&& final(ledger)@ == old(ledger)@
            },
        },
{
    let settlement = match registry.pending_settlement(dispute_id) {
        Ok(s) => s,
        Err(e) => {
            return Err(SettlementError::Dispute(e));
        },
    };
    match settlement {
        Some(s) => {
            match ledger.can_settle(s.job_id) {
                Ok(_) => {},
                Err(e) => {
                    return Err(SettlementError::Escrow(e));
                },
            }
        },
        None => {},
    }
    let resolution = match registry.resolve_dispute(dispute_id, malicious, now, sequence) {
        Ok(resolution) => resolution,
        Err(e) => {
            return Err(SettlementError::Dispute(e));
        },
    };
    let job_transfers = match settlement {
        Some(s) => match ledger.resolve_dispute_callback(s.job_id, s.resolution) {
            Ok(transfers) => transfers,
            Err(e) => {
                return Err(SettlementError::Escrow(e));
            },
        },
        None => Vec::new(),
    };
    Ok((resolution, job_transfers))
}

} // verus!
