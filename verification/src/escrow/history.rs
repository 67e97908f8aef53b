//! The ledger through a sequence of calls: from the empty ledger on, every
//! call leaves a ledger that is well formed and in balance.

use crate::account::Address;
use crate::escrow::model::{
    approved_total, lemma_approved_le_total, lemma_sums_update, positive_amounts, total_of,
    with_deadline, with_status, DisputeResolution, EscrowError, JobStatus, Ledger, Milestone,
    MilestoneStatus,
};
use crate::escrow::rules::{approve_all, fresh_milestones, positive_inputs};
use vstd::prelude::*;

verus! {

/// One call of an operation that changes the ledger, with its arguments.
pub enum Call {
    Initialize { admin: Address, treasury: Address, fee_bps: u32 },
    Pause { admin: Address },
    Unpause { admin: Address },
    SetFeeBps { new_fee: u32 },
    SetTreasury { new_treasury: Address },
    CreateJob {
        client: Address,
        freelancer: Address,
        token: Address,
        milestones: Seq<(String, i128, u64)>,
        job_deadline: u64,
        auto_refund_after: u64,
        now: u64,
    },
    FundJob { job_id: u64, client: Address },
    SubmitMilestone { job_id: u64, milestone_id: u32, freelancer: Address, now: u64 },
    ApproveMilestone { job_id: u64, milestone_id: u32, client: Address },
    ApproveMilestonesBatch { job_id: u64, milestone_indices: Seq<u32>, client: Address },
    ExtendDeadline { job_id: u64, milestone_id: u32, new_deadline: u64, now: u64 },
    CancelJob { job_id: u64, client: Address },
    ClaimRefund { job_id: u64, client: Address, now: u64 },
    ResolveDisputeCallback { job_id: u64, resolution: DisputeResolution },
    ProposeRevision { caller: Address, job_id: u64, new_milestones: Seq<Milestone>, now: u64 },
    AcceptRevision { caller: Address, job_id: u64 },
    RejectRevision { caller: Address, job_id: u64 },
}

/// The ledger without jobs, not initialized and not paused.
pub open spec fn empty_ledger() -> Ledger {
    Ledger { settings: None, paused: false, jobs: Seq::empty() }
}

impl Ledger {
    /// Why the call is refused, if it is.
    pub open spec fn refuses(self, call: Call) -> Option<EscrowError> {
        match call {
            Call::Initialize { fee_bps, .. } => self.initialize_error(fee_bps),
            Call::Pause { admin } => self.admin_error(admin),
            Call::Unpause { admin } => self.admin_error(admin),
            Call::SetFeeBps { new_fee } => self.set_fee_bps_error(new_fee),
            Call::SetTreasury { .. } => self.set_treasury_error(),
            Call::CreateJob { milestones, job_deadline, now, .. } => self.create_job_error(
                milestones,
                job_deadline,
                now,
            ),
            Call::FundJob { job_id, client } => self.fund_job_error(job_id, client),
            Call::SubmitMilestone { job_id, milestone_id, freelancer, now } => self.submit_error(
                job_id,
                milestone_id,
                freelancer,
                now,
            ),
            Call::ApproveMilestone { job_id, milestone_id, client } => self.approve_error(
                job_id,
                milestone_id,
                client,
            ),
            Call::ApproveMilestonesBatch { job_id, milestone_indices, client } => self.batch_error(
                job_id,
                milestone_indices,
                client,
            ),
            Call::ExtendDeadline { job_id, milestone_id, new_deadline, now } => self.extend_error(
                job_id,
                milestone_id,
                new_deadline,
                now,
            ),
            Call::CancelJob { job_id, client } => self.cancel_error(job_id, client),
            Call::ClaimRefund { job_id, client, now } => self.refund_error(job_id, client, now),
            Call::ResolveDisputeCallback { job_id, .. } => self.settle_error(job_id),
            Call::ProposeRevision { caller, job_id, new_milestones, .. } => self.propose_error(
                caller,
                job_id,
                new_milestones,
            ),
            Call::AcceptRevision { caller, job_id } => self.answer_error(caller, job_id),
            Call::RejectRevision { caller, job_id } => self.answer_error(caller, job_id),
        }
    }

    /// The ledger that the call leaves: the ledger as it was where the call
    /// is refused.
    pub open spec fn after(self, call: Call) -> Ledger {
        if self.refuses(call) is Some {
            self
        } else {
            match call {
                Call::Initialize { admin, treasury, fee_bps } => self.initialize_next(
                    admin,
                    treasury,
                    fee_bps,
                ),
                Call::Pause { .. } => Ledger { paused: true, ..self },
                Call::Unpause { .. } => Ledger { paused: false, ..self },
                Call::SetFeeBps { new_fee } => self.set_fee_bps_next(new_fee),
                Call::SetTreasury { new_treasury } => self.set_treasury_next(new_treasury),
                Call::CreateJob {
                    client,
                    freelancer,
                    token,
                    milestones,
                    job_deadline,
                    auto_refund_after,
                    ..
                } => Ledger {
                    jobs: self.jobs.push(
                        self.created_entry(
                            client,
                            freelancer,
                            token,
                            milestones,
                            job_deadline,
                            auto_refund_after,
                        ),
                    ),
                    ..self
                },
                Call::FundJob { job_id, .. } => self.fund_job_next(job_id),
                Call::SubmitMilestone { job_id, milestone_id, .. } => self.submit_next(
                    job_id,
                    milestone_id,
                ),
                Call::ApproveMilestone { job_id, milestone_id, .. } => self.approve_next(
                    job_id,
                    milestone_id,
                ),
                Call::ApproveMilestonesBatch { job_id, milestone_indices, .. } => self.batch_next(
                    job_id,
                    milestone_indices,
                ),
                Call::ExtendDeadline { job_id, milestone_id, new_deadline, .. } => self.extend_next(
                    job_id,
                    milestone_id,
                    new_deadline,
                ),
                Call::CancelJob { job_id, .. } => self.cancel_next(job_id),
                Call::ClaimRefund { job_id, .. } => self.refund_next(job_id),
                Call::ResolveDisputeCallback { job_id, resolution } => self.settle_next(
                    job_id,
                    resolution,
                ),
                Call::ProposeRevision { caller, job_id, new_milestones, now } => self.propose_next(
                    caller,
                    job_id,
                    new_milestones,
                    now,
                ),
                Call::AcceptRevision { job_id, .. } => self.accept_next(job_id),
                Call::RejectRevision { job_id, .. } => self.reject_next(job_id),
            }
        }
    }

    /// The arguments of the call are such as the operation takes: the
    /// amounts of a new job positive, and what is numbered or added up
    /// within its type.
    pub open spec fn takes(self, call: Call) -> bool {
        match call {
            Call::CreateJob { milestones, job_deadline, now, .. } => {
                &&& self.jobs.len() < u64::MAX
                &&& milestones.len() <= u32::MAX
                &&& positive_inputs(milestones)
                &&& self.create_job_error(milestones, job_deadline, now) is None ==> total_of(
                    fresh_milestones(milestones),
                ) <= i128::MAX
            },
            _ => true,
        }
    }

    /// The call is one of those that keep a ledger in balance. A call that
    /// is refused is. One that is taken is not where it funds a job with
    /// an approved milestone, approves a milestone of a job that holds no
    /// funds, cancels a job that is marked as disputed while something
    /// remains, or accepts a proposal
    /// whose approved milestones do not add up to what the job has paid
    /// out, or which changes the total of a job that holds no funds.
    pub open spec fn keeps_balance(self, call: Call) -> bool {
        self.refuses(call) is None ==> match call {
            Call::FundJob { job_id, .. } => approved_total(self.entry(job_id).job.milestones) == 0,
            Call::ApproveMilestone { job_id, .. } => self.entry(job_id).job.in_custody(),
            Call::ApproveMilestonesBatch { job_id, milestone_indices, .. } => milestone_indices.len()
                == 0 || self.entry(job_id).job.in_custody(),
            Call::CancelJob { job_id, .. } => self.entry(job_id).job.status == JobStatus::Disputed
                ==> self.entry(job_id).job.remaining() == 0,
            Call::AcceptRevision { job_id, .. } => if self.entry(job_id).job.in_custody() {
                approved_total(self.entry(job_id).proposal->0.new_milestones) == approved_total(
                    self.entry(job_id).job.milestones,
                )
            } else {
                self.entry(job_id).proposal->0.new_total == self.entry(job_id).job.total_amount
            },
            _ => true,
        }
    }
}

/// The ledger after the calls, made one after the other on the empty
/// ledger.
pub open spec fn ledger_after(calls: Seq<Call>) -> Ledger
    decreases calls.len(),
{
    if calls.len() == 0 {
        empty_ledger()
    } else {
        ledger_after(calls.drop_last()).after(calls.last())
    }
}

/// Every call of the sequence has arguments that its operation takes, and
/// is one of those that keep a ledger in balance.
pub open spec fn orderly(calls: Seq<Call>) -> bool
    decreases calls.len(),
{
    calls.len() > 0 ==> {
        &&& orderly(calls.drop_last())
        &&& ledger_after(calls.drop_last()).takes(calls.last())
        &&& ledger_after(calls.drop_last()).keeps_balance(calls.last())
    }
}

/// Milestones that differ in status and deadline only add up to the same.
pub proof fn lemma_same_amounts(a: Seq<Milestone>, b: Seq<Milestone>)
    requires
        a.len() == b.len(),
        forall|i: int| 0 <= i < a.len() ==> (#[trigger] a[i]).amount == b[i].amount,
    ensures
        total_of(a) == total_of(b),
        positive_amounts(a) ==> positive_amounts(b),
    decreases a.len(),
{
    if a.len() > 0 {
        assert(a.last().amount == b.last().amount) by {
            assert(a[a.len() - 1].amount == b[a.len() - 1].amount);
        }
        assert forall|i: int| 0 <= i < a.drop_last().len() implies (#[trigger] a.drop_last()[i]).amount
            == b.drop_last()[i].amount by {
            assert(a[i].amount == b[i].amount);
        }
        lemma_same_amounts(a.drop_last(), b.drop_last());
    }
    if positive_amounts(a) {
        assert forall|i: int| 0 <= i < b.len() implies (#[trigger] b[i]).amount > 0 by {
            assert(a[i].amount == b[i].amount);
        }
    }
}

impl Ledger {
    /// A call whose arguments the operation takes leaves a well-formed
    /// ledger well formed.
    pub proof fn lemma_after_wf(self, call: Call)
        requires
            self.wf(),
            self.takes(call),
        ensures
            self.after(call).wf(),
    {
        let next = self.after(call);
        if self.refuses(call) is None {
            self.lemma_taken_wf(call);
        }
    }

    /// A call that is taken, with arguments that the operation takes,
    /// leaves a well-formed ledger well formed.
    pub proof fn lemma_taken_wf(self, call: Call)
        requires
            self.wf(),
            self.takes(call),
            self.refuses(call) is None,
        ensures
            self.after(call).wf(),
    {
        let next = self.after(call);
        match call {
            Call::CreateJob {
                client,
                freelancer,
                token,
                milestones,
                job_deadline,
                auto_refund_after,
                ..
            } => {
                let fresh = fresh_milestones(milestones);
                assert(positive_amounts(fresh)) by {
                    assert forall|k: int| 0 <= k < fresh.len() implies (#[trigger] fresh[k]).amount
                        > 0 by {
                        assert(milestones[k].1 > 0);
                    }
                }
                lemma_approved_le_total(fresh);
                assert forall|i: int| 0 <= i < next.jobs.len() implies (#[trigger] next.jobs[i]).wf()
                    && next.jobs[i].job.id == i + 1 by {
                    if i < self.jobs.len() {
                        assert(next.jobs[i] == self.jobs[i]);
                    }
                }
            },
            Call::FundJob { job_id, .. } => {
                self.lemma_entry_wf(job_id, next.entry(job_id));
            },
            Call::SubmitMilestone { job_id, milestone_id, .. } => {
                let ms = self.entry(job_id).job.milestones;
                assert(self.jobs[job_id - 1].wf());
                lemma_sums_update(
                    ms,
                    milestone_id as int,
                    with_status(ms[milestone_id as int], MilestoneStatus::Submitted),
                );
                self.lemma_entry_wf(job_id, next.entry(job_id));
            },
            Call::ApproveMilestone { job_id, milestone_id, .. } => {
                let ms = self.entry(job_id).job.milestones;
                assert(self.jobs[job_id - 1].wf());
                lemma_sums_update(
                    ms,
                    milestone_id as int,
                    with_status(ms[milestone_id as int], MilestoneStatus::Approved),
                );
                self.lemma_entry_wf(job_id, next.entry(job_id));
            },
            Call::ApproveMilestonesBatch { job_id, milestone_indices, .. } => {
                let ms = self.entry(job_id).job.milestones;
                assert(self.jobs[job_id - 1].wf());
                lemma_same_amounts(ms, approve_all(ms, milestone_indices));
                self.lemma_entry_wf(job_id, next.entry(job_id));
            },
            Call::ExtendDeadline { job_id, milestone_id, new_deadline, .. } => {
                let ms = self.entry(job_id).job.milestones;
                assert(self.jobs[job_id - 1].wf());
                lemma_sums_update(
                    ms,
                    milestone_id as int,
                    with_deadline(ms[milestone_id as int], new_deadline),
                );
                self.lemma_entry_wf(job_id, next.entry(job_id));
            },
            Call::CancelJob { job_id, .. } => {
                self.lemma_entry_wf(job_id, next.entry(job_id));
            },
            Call::ClaimRefund { job_id, .. } => {
                self.lemma_entry_wf(job_id, next.entry(job_id));
            },
            Call::ResolveDisputeCallback { job_id, .. } => {
                self.lemma_entry_wf(job_id, next.entry(job_id));
            },
            Call::ProposeRevision { job_id, .. } => {
                self.lemma_entry_wf(job_id, next.entry(job_id));
            },
            Call::AcceptRevision { job_id, .. } => {
                assert(self.jobs[job_id - 1].wf());
                self.lemma_entry_wf(job_id, next.entry(job_id));
            },
            Call::RejectRevision { job_id, .. } => {
                assert(self.jobs[job_id - 1].wf());
                self.lemma_entry_wf(job_id, next.entry(job_id));
            },
            _ => {},
        }
    }

    /// A well-formed ledger stays well formed when the entry of a job is
    /// replaced by a well-formed entry with the number of the job.
    pub proof fn lemma_entry_wf(self, job_id: u64, e: crate::escrow::model::JobEntry)
        requires
            self.wf(),
            self.has_job(job_id),
            self.jobs[job_id - 1].wf() ==> e.wf(),
            e.job.id == job_id,
        ensures
            self.with_entry(job_id, e).wf(),
    {
        let next = self.with_entry(job_id, e);
        assert(self.jobs[job_id - 1].wf());
        assert forall|i: int| 0 <= i < next.jobs.len() implies (#[trigger] next.jobs[i]).wf()
            && next.jobs[i].job.id == i + 1 by {
            if i != job_id - 1 {
                assert(next.jobs[i] == self.jobs[i]);
            }
        }
    }

    /// A call that keeps a ledger in balance leaves a ledger in balance in
    /// balance.
    pub proof fn lemma_after_balanced(self, call: Call)
        requires
            self.wf(),
            self.balanced(),
            self.keeps_balance(call),
        ensures
            self.after(call).balanced(),
    {
        if self.refuses(call) is None {
            self.lemma_taken_balanced(call);
        }
    }

    /// A call that is taken and keeps a ledger in balance leaves a ledger
    /// in balance in balance.
    pub proof fn lemma_taken_balanced(self, call: Call)
        requires
            self.wf(),
            self.balanced(),
            self.keeps_balance(call),
            self.refuses(call) is None,
        ensures
            self.after(call).balanced(),
    {
        match call {
            Call::CreateJob {
                client,
                freelancer,
                token,
                milestones,
                job_deadline,
                auto_refund_after,
                ..
            } => {
                self.law_create_job_balanced(
                    self.created_entry(
                        client,
                        freelancer,
                        token,
                        milestones,
                        job_deadline,
                        auto_refund_after,
                    ),
                );
            },
            Call::FundJob { job_id, client } => {
                self.law_fund_job_balanced(job_id, client);
            },
            Call::SubmitMilestone { job_id, milestone_id, freelancer, now } => {
                self.law_submit_balanced(job_id, milestone_id, freelancer, now);
            },
            Call::ApproveMilestone { job_id, milestone_id, client } => {
                self.law_approve_balanced(job_id, milestone_id, client);
            },
            Call::ApproveMilestonesBatch { job_id, milestone_indices, client } => {
                self.law_batch_balanced(job_id, milestone_indices, client);
            },
            Call::ExtendDeadline { job_id, milestone_id, new_deadline, now } => {
                self.law_extend_balanced(job_id, milestone_id, new_deadline, now);
            },
            Call::CancelJob { job_id, client } => {
                self.law_cancel_balanced(job_id, client);
            },
            Call::ClaimRefund { job_id, client, now } => {
                self.law_refund_balanced(job_id, client, now);
            },
            Call::ResolveDisputeCallback { job_id, resolution } => {
                self.law_settle_balanced(job_id, resolution);
            },
            Call::ProposeRevision { caller, job_id, new_milestones, now } => {
                self.law_proposal_balanced(caller, job_id, new_milestones, now);
            },
            Call::AcceptRevision { caller, job_id } => {
                self.law_accept_balanced(caller, job_id);
            },
            Call::RejectRevision { caller, job_id } => {
                self.law_proposal_balanced(caller, job_id, Seq::empty(), 0);
            },
            _ => {
                assert(self.after(call).jobs == self.jobs);
                assert forall|i: int| 0 <= i < self.jobs.len() implies (
                #[trigger] self.after(call).jobs[i]).balanced() by {
                    assert(self.jobs[i].balanced());
                }
            },
        }
    }
}

/// Fund conservation: after any orderly sequence of calls on the empty
/// ledger, the ledger is well formed and in balance. For every job that
/// holds funds, the total is what is in custody and what was paid out for
/// approved milestones; for every other job, nothing is in custody.
pub proof fn law_funds_conserved_throughout(calls: Seq<Call>, job_id: u64)
    requires
        orderly(calls),
    ensures
        ledger_after(calls).wf(),
        ledger_after(calls).balanced(),
        ledger_after(calls).has_job(job_id) ==> {
            let e = ledger_after(calls).entry(job_id);
            if e.job.in_custody() {
                e.job.total_amount == e.custody + approved_total(e.job.milestones)
            } else {
                e.custody == 0
            }
        },
    decreases calls.len(),
{
    if calls.len() > 0 {
        law_funds_conserved_throughout(calls.drop_last(), job_id);
        let before = ledger_after(calls.drop_last());
        before.lemma_after_wf(calls.last());
        before.lemma_after_balanced(calls.last());
    }
    if ledger_after(calls).has_job(job_id) {
        ledger_after(calls).law_funds_conserved(job_id);
    }
}

} // verus!
