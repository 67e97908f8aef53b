//! The rules of the job ledger: for each operation, when it is refused, what
//! it asks the asset ledger to move, and the ledger that it leaves.

use crate::account::{deposit_of, release_of, Address, Transfer};
use crate::escrow::model::{
    all_approved, any_submitted, approved_total, fee_of, positive_amounts, total_of,
    with_deadline, with_status,
    DisputeResolution, EscrowError, JobEntry, JobStatus, JobView, Ledger, Milestone,
    MilestoneStatus, ProposalStatus, ProposalView, Settings, MAX_FEE_BPS,
};
use vstd::prelude::*;

verus! {

/// The milestones of a new job: numbered from 0 and pending.
pub open spec fn fresh_milestones(inputs: Seq<(String, i128, u64)>) -> Seq<Milestone> {
    Seq::new(
        inputs.len(),
        |i: int|
            Milestone {
                id: i as u32,
                description: inputs[i].0,
                amount: inputs[i].1,
                status: MilestoneStatus::Pending,
                deadline: inputs[i].2,
            },
    )
}

/// Every amount of the input is positive.
pub open spec fn positive_inputs(inputs: Seq<(String, i128, u64)>) -> bool {
    forall|i: int| 0 <= i < inputs.len() ==> (#[trigger] inputs[i]).1 > 0
}

/// Every deadline of the input is after `now` and not after the job's.
pub open spec fn deadlines_in_window(
    inputs: Seq<(String, i128, u64)>,
    job_deadline: u64,
    now: u64,
) -> bool {
    forall|i: int| 0 <= i < inputs.len() ==> now < (#[trigger] inputs[i]).2 <= job_deadline
}

/// Why milestone `index` cannot be approved, if it cannot.
pub open spec fn approval_error(ms: Seq<Milestone>, index: u32) -> Option<EscrowError> {
    if index >= ms.len() {
        Some(EscrowError::MilestoneNotFound)
    } else if ms[index as int].status != MilestoneStatus::Submitted {
        Some(EscrowError::InvalidStatus)
    } else {
        None
    }
}

/// The error of the first index of the batch that cannot be approved.
pub open spec fn batch_scan(ms: Seq<Milestone>, indices: Seq<u32>) -> Option<EscrowError>
    decreases indices.len(),
{
    if indices.len() == 0 {
        None
    } else {
        match batch_scan(ms, indices.drop_last()) {
            Some(e) => Some(e),
            None => approval_error(ms, indices.last()),
        }
    }
}

/// The milestones with those that the batch names approved.
pub open spec fn approve_all(ms: Seq<Milestone>, indices: Seq<u32>) -> Seq<Milestone> {
    Seq::new(
        ms.len(),
        |i: int|
            if exists|k: int| 0 <= k < indices.len() && #[trigger] indices[k] == i {
                with_status(ms[i], MilestoneStatus::Approved)
            } else {
                ms[i]
            },
    )
}

/// What a batch releases: the amounts of the milestones that it approves,
/// each of them once, however often the batch names it.
pub open spec fn released_total(ms: Seq<Milestone>, indices: Seq<u32>) -> int {
    approved_total(approve_all(ms, indices)) - approved_total(ms)
}

/// The status of a job after a dispute has ended in `resolution`.
pub open spec fn settled_status(status: JobStatus, resolution: DisputeResolution) -> JobStatus {
    match resolution {
        DisputeResolution::ClientWins => JobStatus::Cancelled,
        DisputeResolution::RefundBoth => JobStatus::Cancelled,
        DisputeResolution::FreelancerWins => JobStatus::Completed,
        DisputeResolution::Escalate => status,
    }
}

impl JobView {
    /// The job with milestone `index` in another status.
    pub open spec fn mark(self, index: u32, status: MilestoneStatus) -> JobView {
        JobView {
            milestones: self.milestones.update(
                index as int,
                with_status(self.milestones[index as int], status),
            ),
            ..self
        }
    }

    /// The job completed, if every milestone is approved.
    pub open spec fn completed_if_done(self) -> JobView {
        if all_approved(self.milestones) {
            JobView { status: JobStatus::Completed, ..self }
        } else {
            self
        }
    }

    /// The refund that a cancellation releases: what remains, where the job
    /// is funded or in progress.
    pub open spec fn cancel_refund(self) -> int {
        if self.remaining() > 0 && (self.status == JobStatus::Funded || self.status
            == JobStatus::InProgress) {
            self.remaining()
        } else {
            0
        }
    }

    /// What a settlement in `resolution` takes out of custody.
    pub open spec fn settled_amount(self, resolution: DisputeResolution) -> int {
        if self.remaining() > 0 && resolution != DisputeResolution::Escalate {
            self.remaining()
        } else {
            0
        }
    }
}

impl Ledger {
    // ---- administration ----
    pub open spec fn initialize_error(self, fee_bps: u32) -> Option<EscrowError> {
        if self.settings is Some {
            Some(EscrowError::AlreadyInitialized)
        } else if fee_bps > MAX_FEE_BPS {
            Some(EscrowError::InvalidStatus)
        } else {
            None
        }
    }

    pub open spec fn initialize_next(self, admin: Address, treasury: Address, fee_bps: u32) -> Ledger {
        Ledger { settings: Some(Settings { admin, treasury, fee_bps }), paused: false, ..self }
    }

    /// `admin` is not the administrator.
    pub open spec fn admin_error(self, admin: Address) -> Option<EscrowError> {
        match self.settings {
            Some(s) => if s.admin == admin {
                None
            } else {
                Some(EscrowError::NotAdmin)
            },
            None => Some(EscrowError::NotAdmin),
        }
    }

    pub open spec fn set_fee_bps_error(self, new_fee: u32) -> Option<EscrowError> {
        if self.settings is None {
            Some(EscrowError::Unauthorized)
        } else if new_fee > MAX_FEE_BPS {
            Some(EscrowError::InvalidStatus)
        } else {
            None
        }
    }

    pub open spec fn set_fee_bps_next(self, new_fee: u32) -> Ledger {
        Ledger { settings: Some(Settings { fee_bps: new_fee, ..self.settings->0 }), ..self }
    }

    pub open spec fn set_treasury_error(self) -> Option<EscrowError> {
        if self.settings is None {
            Some(EscrowError::Unauthorized)
        } else {
            None
        }
    }

    pub open spec fn set_treasury_next(self, new_treasury: Address) -> Ledger {
        Ledger { settings: Some(Settings { treasury: new_treasury, ..self.settings->0 }), ..self }
    }

    // ---- creation and funding ----
    pub open spec fn create_job_error(
        self,
        inputs: Seq<(String, i128, u64)>,
        job_deadline: u64,
        now: u64,
    ) -> Option<EscrowError> {
        if self.paused {
            Some(EscrowError::ContractPaused)
        } else if job_deadline <= now {
            Some(EscrowError::InvalidDeadline)
        } else if !deadlines_in_window(inputs, job_deadline, now) {
            Some(EscrowError::InvalidDeadline)
        } else {
            None
        }
    }

    /// The entry of the job that `create_job` adds.
    pub open spec fn created_entry(
        self,
        client: Address,
        freelancer: Address,
        token: Address,
        inputs: Seq<(String, i128, u64)>,
        job_deadline: u64,
        auto_refund_after: u64,
    ) -> JobEntry {
        JobEntry {
            job: JobView {
                id: (self.jobs.len() + 1) as u64,
                client,
                freelancer,
                token,
                total_amount: total_of(fresh_milestones(inputs)) as i128,
                status: JobStatus::Created,
                milestones: fresh_milestones(inputs),
                job_deadline,
                auto_refund_after,
            },
            proposal: None,
            custody: 0,
        }
    }

    pub open spec fn fund_job_error(self, job_id: u64, client: Address) -> Option<EscrowError> {
        if self.paused {
            Some(EscrowError::ContractPaused)
        } else if !self.has_job(job_id) {
            Some(EscrowError::JobNotFound)
        } else if self.entry(job_id).job.client != client {
            Some(EscrowError::Unauthorized)
        } else if self.entry(job_id).job.status != JobStatus::Created {
            Some(EscrowError::AlreadyFunded)
        } else {
            None
        }
    }

    pub open spec fn fund_job_transfers(self, job_id: u64) -> Seq<Transfer> {
        let job = self.entry(job_id).job;
        seq![deposit_of(job.token, job.client, job.total_amount)]
    }

    pub open spec fn fund_job_next(self, job_id: u64) -> Ledger {
        let e = self.entry(job_id);
        self.with_entry(
            job_id,
            JobEntry {
                job: JobView { status: JobStatus::Funded, ..e.job },
                custody: e.custody + e.job.total_amount,
                ..e
            },
        )
    }

    // ---- milestones ----
    pub open spec fn submit_error(
        self,
        job_id: u64,
        milestone_id: u32,
        freelancer: Address,
        now: u64,
    ) -> Option<EscrowError> {
        if self.paused {
            Some(EscrowError::ContractPaused)
        } else if !self.has_job(job_id) {
            Some(EscrowError::JobNotFound)
        } else {
            let job = self.entry(job_id).job;
            if job.freelancer != freelancer {
                Some(EscrowError::Unauthorized)
            } else if job.status != JobStatus::Funded && job.status != JobStatus::InProgress {
                Some(EscrowError::InvalidStatus)
            } else if milestone_id >= job.milestones.len() {
                Some(EscrowError::MilestoneNotFound)
            } else {
                let m = job.milestones[milestone_id as int];
                if m.status != MilestoneStatus::Pending && m.status != MilestoneStatus::InProgress {
                    Some(EscrowError::InvalidStatus)
                } else if now > m.deadline {
                    Some(EscrowError::MilestoneDeadlineExceeded)
                } else {
                    None
                }
            }
        }
    }

    pub open spec fn submit_next(self, job_id: u64, milestone_id: u32) -> Ledger {
        let e = self.entry(job_id);
        self.with_entry(
            job_id,
            JobEntry {
                job: JobView {
                    status: JobStatus::InProgress,
                    ..e.job.mark(milestone_id, MilestoneStatus::Submitted)
                },
                ..e
            },
        )
    }

    /// The transfers that pay `amount` out for approved work: the fee to the
    /// treasury, where there is one, and the rest to the freelancer.
    pub open spec fn payout(self, token: Address, freelancer: Address, amount: i128) -> Seq<
        Transfer,
    > {
        let fee = fee_of(amount as int, self.fee_bps() as int);
        match self.settings {
            Some(s) => if fee > 0 {
                seq![
                    release_of(token, s.treasury, fee as i128),
                    release_of(token, freelancer, (amount - fee) as i128),
                ]
            } else {
                seq![release_of(token, freelancer, amount)]
            },
            None => seq![release_of(token, freelancer, amount)],
        }
    }

    pub open spec fn approve_error(self, job_id: u64, milestone_id: u32, client: Address) -> Option<
        EscrowError,
    > {
        if self.paused {
            Some(EscrowError::ContractPaused)
        } else if !self.has_job(job_id) {
            Some(EscrowError::JobNotFound)
        } else if self.entry(job_id).job.client != client {
            Some(EscrowError::Unauthorized)
        } else {
            approval_error(self.entry(job_id).job.milestones, milestone_id)
        }
    }

    pub open spec fn approve_transfers(self, job_id: u64, milestone_id: u32) -> Seq<Transfer> {
        let job = self.entry(job_id).job;
        self.payout(job.token, job.freelancer, job.milestones[milestone_id as int].amount)
    }

    pub open spec fn approve_next(self, job_id: u64, milestone_id: u32) -> Ledger {
        let e = self.entry(job_id);
        self.with_entry(
            job_id,
            JobEntry {
                job: e.job.mark(milestone_id, MilestoneStatus::Approved).completed_if_done(),
                custody: e.custody - e.job.milestones[milestone_id as int].amount,
                ..e
            },
        )
    }

    pub open spec fn batch_error(self, job_id: u64, indices: Seq<u32>, client: Address) -> Option<
        EscrowError,
    > {
        if self.paused {
            Some(EscrowError::ContractPaused)
        } else if !self.has_job(job_id) {
            Some(EscrowError::JobNotFound)
        } else if self.entry(job_id).job.client != client {
            Some(EscrowError::Unauthorized)
        } else {
            batch_scan(self.entry(job_id).job.milestones, indices)
        }
    }

    /// What a batch releases.
    pub open spec fn batch_total(self, job_id: u64, indices: Seq<u32>) -> int {
        released_total(self.entry(job_id).job.milestones, indices)
    }

    pub open spec fn batch_transfers(self, job_id: u64, indices: Seq<u32>) -> Seq<Transfer> {
        let job = self.entry(job_id).job;
        if self.batch_total(job_id, indices) > 0 {
            self.payout(job.token, job.freelancer, self.batch_total(job_id, indices) as i128)
        } else {
            Seq::empty()
        }
    }

    pub open spec fn batch_next(self, job_id: u64, indices: Seq<u32>) -> Ledger {
        let e = self.entry(job_id);
        self.with_entry(
            job_id,
            JobEntry {
                job: (JobView {
                    milestones: approve_all(e.job.milestones, indices),
                    ..e.job
                }).completed_if_done(),
                custody: e.custody - self.batch_total(job_id, indices),
                ..e
            },
        )
    }

    pub open spec fn extend_error(
        self,
        job_id: u64,
        milestone_id: u32,
        new_deadline: u64,
        now: u64,
    ) -> Option<EscrowError> {
        if self.paused {
            Some(EscrowError::ContractPaused)
        } else if !self.has_job(job_id) {
            Some(EscrowError::JobNotFound)
        } else if new_deadline <= now {
            Some(EscrowError::InvalidDeadline)
        } else if milestone_id >= self.entry(job_id).job.milestones.len() {
            Some(EscrowError::MilestoneNotFound)
        } else {
            None
        }
    }

    pub open spec fn extend_next(self, job_id: u64, milestone_id: u32, new_deadline: u64) -> Ledger {
        let e = self.entry(job_id);
        self.with_entry(
            job_id,
            JobEntry {
                job: JobView {
                    milestones: e.job.milestones.update(
                        milestone_id as int,
                        with_deadline(e.job.milestones[milestone_id as int], new_deadline),
                    ),
                    ..e.job
                },
                ..e
            },
        )
    }

    /// Milestone `milestone_id` of job `job_id` exists and its deadline has
    /// passed.
    pub open spec fn overdue(self, job_id: u64, milestone_id: u32, now: u64) -> bool {
        &&& self.has_job(job_id)
        &&& milestone_id < self.entry(job_id).job.milestones.len()
        &&& now > self.entry(job_id).job.milestones[milestone_id as int].deadline
    }

    // ---- cancellation, refund, settlement ----
    pub open spec fn cancel_error(self, job_id: u64, client: Address) -> Option<EscrowError> {
        if self.paused {
            Some(EscrowError::ContractPaused)
        } else if !self.has_job(job_id) {
            Some(EscrowError::JobNotFound)
        } else if self.entry(job_id).job.client != client {
            Some(EscrowError::Unauthorized)
        } else if self.entry(job_id).job.settled() {
            Some(EscrowError::InvalidStatus)
        } else {
            None
        }
    }

    pub open spec fn cancel_transfers(self, job_id: u64) -> Seq<Transfer> {
        let job = self.entry(job_id).job;
        if job.cancel_refund() > 0 {
            seq![release_of(job.token, job.client, job.cancel_refund() as i128)]
        } else {
            Seq::empty()
        }
    }

    pub open spec fn cancel_next(self, job_id: u64) -> Ledger {
        let e = self.entry(job_id);
        self.with_entry(
            job_id,
            JobEntry {
                job: JobView { status: JobStatus::Cancelled, ..e.job },
                custody: e.custody - e.job.cancel_refund(),
                ..e
            },
        )
    }

    pub open spec fn refund_error(self, job_id: u64, client: Address, now: u64) -> Option<
        EscrowError,
    > {
        if self.paused {
            Some(EscrowError::ContractPaused)
        } else if !self.has_job(job_id) {
            Some(EscrowError::JobNotFound)
        } else {
            let job = self.entry(job_id).job;
            if job.client != client {
                Some(EscrowError::Unauthorized)
            } else if job.status != JobStatus::Funded && job.status != JobStatus::InProgress {
                Some(EscrowError::InvalidStatus)
            } else if now < job.job_deadline + job.auto_refund_after {
                Some(EscrowError::GracePeriodNotMet)
            } else if any_submitted(job.milestones) {
                Some(EscrowError::HasPendingMilestone)
            } else if job.remaining() <= 0 {
                Some(EscrowError::NoRefundDue)
            } else {
                None
            }
        }
    }

    pub open spec fn refund_transfers(self, job_id: u64) -> Seq<Transfer> {
        let job = self.entry(job_id).job;
        seq![release_of(job.token, job.client, job.remaining() as i128)]
    }

    pub open spec fn refund_next(self, job_id: u64) -> Ledger {
        let e = self.entry(job_id);
        self.with_entry(
            job_id,
            JobEntry {
                job: JobView { status: JobStatus::Cancelled, ..e.job },
                custody: e.custody - e.job.remaining(),
                ..e
            },
        )
    }

    pub open spec fn settle_error(self, job_id: u64) -> Option<EscrowError> {
        if self.paused {
            Some(EscrowError::ContractPaused)
        } else if !self.has_job(job_id) {
            Some(EscrowError::JobNotFound)
        } else if self.entry(job_id).job.status == JobStatus::Created || self.entry(
            job_id,
        ).job.settled() {
            Some(EscrowError::InvalidStatus)
        } else {
            None
        }
    }

    pub open spec fn settle_transfers(self, job_id: u64, resolution: DisputeResolution) -> Seq<
        Transfer,
    > {
        let job = self.entry(job_id).job;
        let rest = job.remaining();
        if rest > 0 {
            match resolution {
                DisputeResolution::ClientWins => seq![
                    release_of(job.token, job.client, rest as i128),
                ],
                DisputeResolution::FreelancerWins => seq![
                    release_of(job.token, job.freelancer, rest as i128),
                ],
                DisputeResolution::RefundBoth => seq![
                    release_of(job.token, job.client, (rest / 2) as i128),
                    release_of(job.token, job.freelancer, (rest - rest / 2) as i128),
                ],
                DisputeResolution::Escalate => Seq::empty(),
            }
        } else {
            Seq::empty()
        }
    }

    pub open spec fn settle_next(self, job_id: u64, resolution: DisputeResolution) -> Ledger {
        let e = self.entry(job_id);
        self.with_entry(
            job_id,
            JobEntry {
                job: JobView { status: settled_status(e.job.status, resolution), ..e.job },
                custody: e.custody - e.job.settled_amount(resolution),
                ..e
            },
        )
    }

    // ---- revision ----
    pub open spec fn propose_error(
        self,
        caller: Address,
        job_id: u64,
        new_milestones: Seq<Milestone>,
    ) -> Option<EscrowError> {
        if !self.has_job(job_id) {
            Some(EscrowError::JobNotFound)
        } else if !self.entry(job_id).job.is_party(caller) {
            Some(EscrowError::NotAuthorizedForProposalAction)
        } else if self.entry(job_id).has_pending_proposal() {
            Some(EscrowError::RevisionProposalAlreadyExists)
        } else if new_milestones.len() == 0 {
            Some(EscrowError::EmptyMilestonesProposed)
        } else if total_of(new_milestones) <= 0 || total_of(new_milestones) > i128::MAX
            || !positive_amounts(new_milestones) {
            Some(EscrowError::ProposalTotalMismatch)
        } else {
            None
        }
    }

    pub open spec fn propose_next(
        self,
        caller: Address,
        job_id: u64,
        new_milestones: Seq<Milestone>,
        now: u64,
    ) -> Ledger {
        let e = self.entry(job_id);
        self.with_entry(
            job_id,
            JobEntry {
                proposal: Some(
                    ProposalView {
                        proposer: caller,
                        new_milestones,
                        new_total: total_of(new_milestones) as i128,
                        status: ProposalStatus::Pending,
                        created_at: now,
                    },
                ),
                ..e
            },
        )
    }

    /// Why `caller` cannot accept or reject the proposal for the job.
    pub open spec fn answer_error(self, caller: Address, job_id: u64) -> Option<EscrowError> {
        if !self.has_job(job_id) {
            Some(EscrowError::JobNotFound)
        } else {
            let e = self.entry(job_id);
            match e.proposal {
                None => Some(EscrowError::RevisionProposalNotFound),
                Some(p) => if p.status != ProposalStatus::Pending {
                    Some(EscrowError::ProposalNotPending)
                } else if !e.job.is_party(caller) {
                    Some(EscrowError::NotAuthorizedForProposalAction)
                } else if caller == p.proposer {
                    Some(EscrowError::NotAuthorizedForProposalAction)
                } else {
                    None
                },
            }
        }
    }

    /// By how much the pending proposal raises the job's total.
    pub open spec fn revision_delta(self, job_id: u64) -> int {
        self.entry(job_id).proposal->0.new_total - self.entry(job_id).job.total_amount
    }

    pub open spec fn accept_transfers(self, job_id: u64) -> Seq<Transfer> {
        let job = self.entry(job_id).job;
        let delta = self.revision_delta(job_id);
        if delta > 0 {
            seq![deposit_of(job.token, job.client, delta as i128)]
        } else if delta < 0 {
            seq![release_of(job.token, job.client, (-delta) as i128)]
        } else {
            Seq::empty()
        }
    }

    pub open spec fn accept_next(self, job_id: u64) -> Ledger {
        let e = self.entry(job_id);
        let p = e.proposal->0;
        self.with_entry(
            job_id,
            JobEntry {
                job: JobView { milestones: p.new_milestones, total_amount: p.new_total, ..e.job },
                proposal: Some(ProposalView { status: ProposalStatus::Accepted, ..p }),
                custody: e.custody + self.revision_delta(job_id),
            },
        )
    }

    pub open spec fn reject_next(self, job_id: u64) -> Ledger {
        let e = self.entry(job_id);
        self.with_entry(
            job_id,
            JobEntry {
                proposal: Some(ProposalView { status: ProposalStatus::Rejected, ..e.proposal->0 }),
                ..e
            },
        )
    }
}

} // verus!
