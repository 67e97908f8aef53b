//! What holds of the job ledger whatever is done with it: custody follows
//! the transfers, funds are conserved, and a refused batch changes nothing.

use crate::account::{lemma_net_inflow_short, net_inflow, Address};
use crate::escrow::model::{
    all_approved, approved_total, lemma_all_approved_total, lemma_approved_le_total,
    lemma_sums_update, positive_amounts, total_of, with_deadline, with_status, DisputeResolution,
    EscrowError, JobEntry, JobStatus, Ledger, Milestone, MilestoneStatus,
};
use crate::escrow::history::Call;
use crate::escrow::rules::{approval_error, approve_all, batch_scan, released_total};
use vstd::prelude::*;

verus! {

/// A ledger in balance stays in balance when one entry is replaced by an
/// entry in balance.
pub proof fn lemma_balanced_with(s: Ledger, job_id: u64, e: JobEntry)
    requires
        s.balanced(),
        s.has_job(job_id),
        e.balanced(),
    ensures
        s.with_entry(job_id, e).balanced(),
{
    let t = s.with_entry(job_id, e);
    assert forall|i: int| 0 <= i < t.jobs.len() implies (#[trigger] t.jobs[i]).balanced() by {
        if i != job_id - 1 {
            assert(t.jobs[i] == s.jobs[i]);
        }
    }
}

/// A batch that is not refused names submitted milestones only.
pub proof fn lemma_batch_scan_all(ms: Seq<Milestone>, indices: Seq<u32>)
    ensures
        batch_scan(ms, indices) is None <==> forall|k: int|
            0 <= k < indices.len() ==> approval_error(ms, #[trigger] indices[k]) is None,
    decreases indices.len(),
{
    if indices.len() > 0 {
        let front = indices.drop_last();
        lemma_batch_scan_all(ms, front);
        if batch_scan(ms, indices) is None {
            assert forall|k: int| 0 <= k < indices.len() implies approval_error(
                ms,
                #[trigger] indices[k],
            ) is None by {
                if k < front.len() {
                    assert(front[k] == indices[k]);
                }
            }
        } else if batch_scan(ms, front) is None {
            assert(approval_error(ms, indices[indices.len() - 1]) is Some);
        } else {
            let k = choose|k: int|
                0 <= k < front.len() && !(approval_error(ms, #[trigger] front[k]) is None);
            assert(front[k] == indices[k]);
        }
    }
}

/// A batch that is refused for one of its indices is refused with the
/// error of the first of them that cannot be approved: that the milestone
/// does not exist, or that it is not submitted.
pub proof fn lemma_batch_scan_first(ms: Seq<Milestone>, indices: Seq<u32>) -> (k: int)
    requires
        batch_scan(ms, indices) is Some,
    ensures
        0 <= k < indices.len(),
        approval_error(ms, indices[k]) == batch_scan(ms, indices),
        forall|j: int| 0 <= j < k ==> approval_error(ms, #[trigger] indices[j]) is None,
        batch_scan(ms, indices) == Some(EscrowError::MilestoneNotFound) || batch_scan(ms, indices)
            == Some(EscrowError::InvalidStatus),
    decreases indices.len(),
{
    let front = indices.drop_last();
    if batch_scan(ms, front) is Some {
        let k = lemma_batch_scan_first(ms, front);
        assert(front[k] == indices[k]);
        assert forall|j: int| 0 <= j < k implies approval_error(ms, #[trigger] indices[j]) is None by {
            assert(front[j] == indices[j]);
        }
        k
    } else {
        lemma_batch_scan_all(ms, front);
        assert forall|j: int| 0 <= j < front.len() implies approval_error(
            ms,
            #[trigger] indices[j],
        ) is None by {
            assert(front[j] == indices[j]);
        }
        indices.len() - 1
    }
}

/// Approving one more index of a batch changes that milestone alone.
pub proof fn lemma_approve_all_step(ms: Seq<Milestone>, indices: Seq<u32>, k: int)
    requires
        0 <= k < indices.len(),
        indices[k] < ms.len(),
    ensures
        approve_all(ms, indices.take(k + 1)) == approve_all(ms, indices.take(k)).update(
            indices[k] as int,
            with_status(ms[indices[k] as int], MilestoneStatus::Approved),
        ),
{
    let a = indices.take(k);
    let b = indices.take(k + 1);
    let left = approve_all(ms, b);
    let right = approve_all(ms, a).update(
        indices[k] as int,
        with_status(ms[indices[k] as int], MilestoneStatus::Approved),
    );
    assert forall|i: int| 0 <= i < ms.len() implies left[i] == right[i] by {
        if exists|j: int| 0 <= j < a.len() && #[trigger] a[j] == i {
            let j = choose|j: int| 0 <= j < a.len() && #[trigger] a[j] == i;
            assert(b[j] == i);
        }
        if i == indices[k] {
            assert(b[k] == i);
        }
        if exists|j: int| 0 <= j < b.len() && #[trigger] b[j] == i {
            let j = choose|j: int| 0 <= j < b.len() && #[trigger] b[j] == i;
            if j < k {
                assert(a[j] == i);
            }
        }
    }
    assert(left =~= right);
}

/// A batch of submitted milestones leaves the amounts as they are and
/// raises the approved sum, to at most the sum of all amounts; a batch
/// that names a milestone raises it by more than nothing.
pub proof fn lemma_batch_sums(ms: Seq<Milestone>, indices: Seq<u32>, k: int)
    requires
        positive_amounts(ms),
        batch_scan(ms, indices) is None,
        0 <= k <= indices.len(),
    ensures
        0 <= approved_total(ms) <= approved_total(approve_all(ms, indices.take(k))) <= total_of(
            ms,
        ),
        k > 0 ==> approved_total(ms) < approved_total(approve_all(ms, indices.take(k))),
        total_of(approve_all(ms, indices.take(k))) == total_of(ms),
        positive_amounts(approve_all(ms, indices.take(k))),
    decreases k,
{
    lemma_batch_scan_all(ms, indices);
    lemma_approved_le_total(ms);
    if k == 0 {
        assert(approve_all(ms, indices.take(0)) =~= ms);
    } else {
        lemma_batch_sums(ms, indices, k - 1);
        let at = indices[k - 1];
        assert(approval_error(ms, at) is None);
        assert(ms[at as int].amount > 0);
        lemma_approve_all_step(ms, indices, k - 1);
        let before = approve_all(ms, indices.take(k - 1));
        if k == 1 {
            assert(before =~= ms);
        }
        lemma_sums_update(
            before,
            at as int,
            with_status(ms[at as int], MilestoneStatus::Approved),
        );
        lemma_approved_le_total(approve_all(ms, indices.take(k)));
    }
}

/// A ledger that was stored and restored is in balance.
pub proof fn law_restored_balanced(
    settings: Option<crate::escrow::model::Settings>,
    paused: bool,
    jobs: Seq<crate::escrow::model::StoredJob>,
)
    ensures
        crate::escrow::model::restored(settings, paused, jobs).balanced(),
{
}

/// A batch of submitted milestones releases at most what has not been
/// paid out, and something where it names a milestone.
pub proof fn law_batch_total_bounded(ms: Seq<Milestone>, indices: Seq<u32>)
    requires
        positive_amounts(ms),
        batch_scan(ms, indices) is None,
    ensures
        0 <= released_total(ms, indices) <= total_of(ms) - approved_total(ms),
        indices.len() > 0 ==> released_total(ms, indices) > 0,
{
    assert(indices.take(indices.len() as int) =~= indices);
    lemma_batch_sums(ms, indices, indices.len() as int);
}

impl Ledger {
    /// What custody holds for a job follows the transfers that the ledger
    /// asks for: each operation changes it by their net inflow.
    pub proof fn law_custody_follows_transfers(
        self,
        job_id: u64,
        milestone_id: u32,
        indices: Seq<u32>,
        resolution: DisputeResolution,
    )
        requires
            self.wf(),
            self.has_job(job_id),
        ensures
            self.fund_job_next(job_id).entry(job_id).custody == self.entry(job_id).custody
                + net_inflow(self.fund_job_transfers(job_id)),
            milestone_id < self.entry(job_id).job.milestones.len() ==> self.approve_next(
                job_id,
                milestone_id,
            ).entry(job_id).custody == self.entry(job_id).custody + net_inflow(
                self.approve_transfers(job_id, milestone_id),
            ),
            batch_scan(self.entry(job_id).job.milestones, indices) is None ==> self.batch_next(
                job_id,
                indices,
            ).entry(job_id).custody == self.entry(job_id).custody + net_inflow(
                self.batch_transfers(job_id, indices),
            ),
            self.cancel_next(job_id).entry(job_id).custody == self.entry(job_id).custody
                + net_inflow(self.cancel_transfers(job_id)),
            self.entry(job_id).job.remaining() > 0 ==> self.refund_next(job_id).entry(
                job_id,
            ).custody == self.entry(job_id).custody + net_inflow(self.refund_transfers(job_id)),
            self.settle_next(job_id, resolution).entry(job_id).custody == self.entry(
                job_id,
            ).custody + net_inflow(self.settle_transfers(job_id, resolution)),
            self.entry(job_id).proposal matches Some(p) && p.wf() ==> self.accept_next(
                job_id,
            ).entry(job_id).custody == self.entry(job_id).custody + net_inflow(
                self.accept_transfers(job_id),
            ),
    {
        let e = self.entry(job_id);
        assert(e.wf());
        lemma_approved_le_total(e.job.milestones);
        lemma_net_inflow_short(self.fund_job_transfers(job_id));
        lemma_net_inflow_short(self.cancel_transfers(job_id));
        lemma_net_inflow_short(self.refund_transfers(job_id));
        lemma_net_inflow_short(self.settle_transfers(job_id, resolution));
        lemma_net_inflow_short(self.batch_transfers(job_id, indices));
        if milestone_id < e.job.milestones.len() {
            let amount = e.job.milestones[milestone_id as int].amount;
            assert(amount > 0);
            self.lemma_payout_inflow(e.job.token, e.job.freelancer, amount);
        }
        if batch_scan(e.job.milestones, indices) is None {
            law_batch_total_bounded(e.job.milestones, indices);
            if self.batch_total(job_id, indices) > 0 {
                self.lemma_payout_inflow(
                    e.job.token,
                    e.job.freelancer,
                    self.batch_total(job_id, indices) as i128,
                );
            }
        }
        if e.proposal is Some {
            lemma_approved_le_total(e.proposal->0.new_milestones);
            lemma_net_inflow_short(self.accept_transfers(job_id));
        }
    }

    /// A payout takes its amount out of custody, fee and rest together.
    pub proof fn lemma_payout_inflow(self, token: Address, freelancer: Address, amount: i128)
        requires
            self.wf(),
            amount >= 0,
        ensures
            net_inflow(self.payout(token, freelancer, amount)) == -amount,
    {
        let fee = crate::escrow::model::fee_of(amount as int, self.fee_bps() as int);
        let bps = self.fee_bps() as int;
        assert(0 <= fee <= amount) by (nonlinear_arith)
            requires
                fee == (amount * bps) / 10_000,
                0 <= amount,
                0 <= bps <= 1000,
        ;
        lemma_net_inflow_short(self.payout(token, freelancer, amount));
    }

    /// Fund conservation: while a job in balance holds funds, its total is
    /// what is in custody and what was paid out for approved milestones;
    /// before funding and after settlement custody holds nothing for it.
    pub proof fn law_funds_conserved(self, job_id: u64)
        requires
            self.balanced(),
            self.has_job(job_id),
        ensures
            self.entry(job_id).job.in_custody() ==> self.entry(job_id).job.total_amount
                == self.entry(job_id).custody + approved_total(self.entry(job_id).job.milestones),
            !self.entry(job_id).job.in_custody() ==> self.entry(job_id).custody == 0,
    {
        assert(self.jobs[job_id - 1].balanced());
    }

    /// A new job is in balance: nothing is in custody for it.
    pub proof fn law_create_job_balanced(self, e: JobEntry)
        requires
            self.balanced(),
            e.job.status == JobStatus::Created,
            e.custody == 0,
        ensures
            (Ledger { jobs: self.jobs.push(e), ..self }).balanced(),
    {
        let t = Ledger { jobs: self.jobs.push(e), ..self };
        assert forall|i: int| 0 <= i < t.jobs.len() implies (#[trigger] t.jobs[i]).balanced() by {
            if i < self.jobs.len() {
                assert(t.jobs[i] == self.jobs[i]);
            }
        }
    }

    /// Funding keeps the ledger in balance, for a job none of whose
    /// milestones is approved yet.
    pub proof fn law_fund_job_balanced(self, job_id: u64, client: Address)
        requires
            self.wf(),
            self.balanced(),
            self.fund_job_error(job_id, client) is None,
            approved_total(self.entry(job_id).job.milestones) == 0,
        ensures
            self.fund_job_next(job_id).balanced(),
    {
        assert(self.jobs[job_id - 1].balanced());
        lemma_balanced_with(self, job_id, self.fund_job_next(job_id).entry(job_id));
    }

    /// Submitting a milestone keeps the ledger in balance.
    pub proof fn law_submit_balanced(self, job_id: u64, milestone_id: u32, freelancer: Address, now: u64)
        requires
            self.wf(),
            self.balanced(),
            self.submit_error(job_id, milestone_id, freelancer, now) is None,
        ensures
            self.submit_next(job_id, milestone_id).balanced(),
    {
        let e = self.entry(job_id);
        assert(self.jobs[job_id - 1].balanced());
        lemma_sums_update(
            e.job.milestones,
            milestone_id as int,
            with_status(e.job.milestones[milestone_id as int], MilestoneStatus::Submitted),
        );
        lemma_balanced_with(self, job_id, self.submit_next(job_id, milestone_id).entry(job_id));
    }

    /// Moving a deadline keeps the ledger in balance.
    pub proof fn law_extend_balanced(
        self,
        job_id: u64,
        milestone_id: u32,
        new_deadline: u64,
        now: u64,
    )
        requires
            self.wf(),
            self.balanced(),
            self.extend_error(job_id, milestone_id, new_deadline, now) is None,
        ensures
            self.extend_next(job_id, milestone_id, new_deadline).balanced(),
    {
        let e = self.entry(job_id);
        assert(self.jobs[job_id - 1].balanced());
        lemma_sums_update(
            e.job.milestones,
            milestone_id as int,
            with_deadline(e.job.milestones[milestone_id as int], new_deadline),
        );
        lemma_balanced_with(
            self,
            job_id,
            self.extend_next(job_id, milestone_id, new_deadline).entry(job_id),
        );
    }

    /// Approving a milestone of a job that holds funds keeps the ledger in
    /// balance.
    pub proof fn law_approve_balanced(self, job_id: u64, milestone_id: u32, client: Address)
        requires
            self.wf(),
            self.balanced(),
            self.approve_error(job_id, milestone_id, client) is None,
            self.entry(job_id).job.in_custody(),
        ensures
            self.approve_next(job_id, milestone_id).balanced(),
    {
        let e = self.entry(job_id);
        assert(self.jobs[job_id - 1].balanced());
        assert(e.wf());
        let marked = e.job.mark(milestone_id, MilestoneStatus::Approved);
        lemma_sums_update(
            e.job.milestones,
            milestone_id as int,
            marked.milestones[milestone_id as int],
        );
        if all_approved(marked.milestones) {
            lemma_all_approved_total(marked.milestones);
        }
        lemma_balanced_with(self, job_id, self.approve_next(job_id, milestone_id).entry(job_id));
    }

    /// Approving a batch of milestones of a job that holds funds keeps the
    /// ledger in balance, whether the batch names a milestone once or more
    /// often; and so does a batch that names none.
    pub proof fn law_batch_balanced(self, job_id: u64, indices: Seq<u32>, client: Address)
        requires
            self.wf(),
            self.balanced(),
            self.batch_error(job_id, indices, client) is None,
            indices.len() == 0 || self.entry(job_id).job.in_custody(),
        ensures
            self.batch_next(job_id, indices).balanced(),
    {
        let e = self.entry(job_id);
        assert(self.jobs[job_id - 1].balanced());
        assert(e.wf());
        assert(indices.take(indices.len() as int) =~= indices);
        lemma_batch_sums(e.job.milestones, indices, indices.len() as int);
        let approved = approve_all(e.job.milestones, indices);
        if indices.len() == 0 {
            assert(approved =~= e.job.milestones);
        }
        if all_approved(approved) {
            lemma_all_approved_total(approved);
        }
        lemma_balanced_with(self, job_id, self.batch_next(job_id, indices).entry(job_id));
    }

    /// An approval leaves conserved funds conserved: the fee and the payout
    /// add up to the amount of the milestone, which leaves custody and
    /// joins the approved sum. A job that holds funds is completed by the
    /// approval where no milestone is left open, and then nothing is left
    /// in custody.
    pub proof fn law_approve_conserves(self, job_id: u64, milestone_id: u32, client: Address)
        requires
            self.wf(),
            self.approve_error(job_id, milestone_id, client) is None,
        ensures
            net_inflow(self.approve_transfers(job_id, milestone_id)) == -self.entry(
                job_id,
            ).job.milestones[milestone_id as int].amount,
            self.entry(job_id).funds_conserved() ==> self.approve_next(job_id, milestone_id).entry(
                job_id,
            ).funds_conserved(),
            self.entry(job_id).job.in_custody() && self.entry(job_id).funds_conserved() ==> {
                let after = self.approve_next(job_id, milestone_id).entry(job_id);
                &&& after.balanced()
                &&& after.custody >= 0
                &&& after.job.status == JobStatus::Completed <==> all_approved(after.job.milestones)
            },
    {
        let e = self.entry(job_id);
        assert(self.jobs[job_id - 1].wf());
        let amount = e.job.milestones[milestone_id as int].amount;
        self.lemma_payout_inflow(e.job.token, e.job.freelancer, amount);
        let marked = e.job.mark(milestone_id, MilestoneStatus::Approved);
        lemma_sums_update(
            e.job.milestones,
            milestone_id as int,
            marked.milestones[milestone_id as int],
        );
        lemma_approved_le_total(marked.milestones);
        if all_approved(marked.milestones) {
            lemma_all_approved_total(marked.milestones);
        }
    }

    /// A batch leaves conserved funds conserved: what leaves custody is
    /// what joins the approved sum, each milestone once. A job that holds
    /// funds is completed by the batch where no milestone is left open.
    pub proof fn law_batch_conserves(self, job_id: u64, indices: Seq<u32>, client: Address)
        requires
            self.wf(),
            self.batch_error(job_id, indices, client) is None,
        ensures
            net_inflow(self.batch_transfers(job_id, indices)) == -self.batch_total(job_id, indices),
            0 <= self.batch_total(job_id, indices) <= self.entry(job_id).job.remaining(),
            self.entry(job_id).funds_conserved() ==> self.batch_next(job_id, indices).entry(
                job_id,
            ).funds_conserved(),
            self.entry(job_id).job.in_custody() && self.entry(job_id).funds_conserved() ==> {
                let after = self.batch_next(job_id, indices).entry(job_id);
                &&& after.balanced()
                &&& after.custody >= 0
                &&& after.job.status == JobStatus::Completed <==> all_approved(after.job.milestones)
            },
    {
        let e = self.entry(job_id);
        assert(self.jobs[job_id - 1].wf());
        assert(indices.take(indices.len() as int) =~= indices);
        lemma_batch_sums(e.job.milestones, indices, indices.len() as int);
        let approved = approve_all(e.job.milestones, indices);
        lemma_net_inflow_short(self.batch_transfers(job_id, indices));
        if self.batch_total(job_id, indices) > 0 {
            self.lemma_payout_inflow(
                e.job.token,
                e.job.freelancer,
                self.batch_total(job_id, indices) as i128,
            );
        }
        if all_approved(approved) {
            lemma_all_approved_total(approved);
        }
    }

    /// A batch that is refused for one of its indices, on a ledger that
    /// takes calls and for the client of the job, is refused with the
    /// error of the first index that cannot be approved.
    pub proof fn law_batch_error_kind(self, job_id: u64, indices: Seq<u32>, client: Address) -> (k:
        int)
        requires
            !self.paused,
            self.has_job(job_id),
            self.entry(job_id).job.client == client,
            self.batch_error(job_id, indices, client) is Some,
        ensures
            0 <= k < indices.len(),
            self.batch_error(job_id, indices, client) == approval_error(
                self.entry(job_id).job.milestones,
                indices[k],
            ),
            forall|j: int|
                0 <= j < k ==> approval_error(
                    self.entry(job_id).job.milestones,
                    #[trigger] indices[j],
                ) is None,
            self.batch_error(job_id, indices, client) == Some(EscrowError::MilestoneNotFound)
                || self.batch_error(job_id, indices, client) == Some(EscrowError::InvalidStatus),
    {
        lemma_batch_scan_first(self.entry(job_id).job.milestones, indices)
    }

    /// A batch with an index that cannot be approved is refused.
    pub proof fn law_batch_all_or_nothing(self, job_id: u64, indices: Seq<u32>, client: Address, k: int)
        requires
            self.has_job(job_id),
            0 <= k < indices.len(),
            approval_error(self.entry(job_id).job.milestones, indices[k]) is Some,
        ensures
            self.batch_error(job_id, indices, client) is Some,
    {
        lemma_batch_scan_all(self.entry(job_id).job.milestones, indices);
    }

    /// Cancelling keeps the ledger in balance, for a job that is not
    /// marked as disputed while something remains.
    pub proof fn law_cancel_balanced(self, job_id: u64, client: Address)
        requires
            self.wf(),
            self.balanced(),
            self.cancel_error(job_id, client) is None,
            self.entry(job_id).job.status == JobStatus::Disputed ==> self.entry(
                job_id,
            ).job.remaining() == 0,
        ensures
            self.cancel_next(job_id).balanced(),
    {
        let e = self.entry(job_id);
        assert(self.jobs[job_id - 1].balanced());
        assert(e.wf());
        lemma_approved_le_total(e.job.milestones);
        lemma_balanced_with(self, job_id, self.cancel_next(job_id).entry(job_id));
    }

    /// A refund keeps the ledger in balance.
    pub proof fn law_refund_balanced(self, job_id: u64, client: Address, now: u64)
        requires
            self.wf(),
            self.balanced(),
            self.refund_error(job_id, client, now) is None,
        ensures
            self.refund_next(job_id).balanced(),
    {
        assert(self.jobs[job_id - 1].balanced());
        lemma_balanced_with(self, job_id, self.refund_next(job_id).entry(job_id));
    }

    /// The settlement of a dispute keeps the ledger in balance.
    pub proof fn law_settle_balanced(self, job_id: u64, resolution: DisputeResolution)
        requires
            self.wf(),
            self.balanced(),
            self.settle_error(job_id) is None,
        ensures
            self.settle_next(job_id, resolution).balanced(),
    {
        let e = self.entry(job_id);
        assert(self.jobs[job_id - 1].balanced());
        assert(e.wf());
        lemma_approved_le_total(e.job.milestones);
        lemma_balanced_with(self, job_id, self.settle_next(job_id, resolution).entry(job_id));
    }

    /// A job cannot be settled twice: once a settlement has completed or
    /// cancelled it, the next one is refused.
    pub proof fn law_settle_once(self, job_id: u64, first: DisputeResolution, second: DisputeResolution)
        requires
            self.settle_error(job_id) is None,
            first != DisputeResolution::Escalate,
        ensures
            self.settle_next(job_id, first).settle_error(job_id) == Some(
                EscrowError::InvalidStatus,
            ),
    {
    }

    /// A proposal, made or rejected, keeps the ledger in balance: it moves
    /// nothing.
    pub proof fn law_proposal_balanced(
        self,
        caller: Address,
        job_id: u64,
        new_milestones: Seq<Milestone>,
        now: u64,
    )
        requires
            self.balanced(),
            self.has_job(job_id),
        ensures
            self.propose_next(caller, job_id, new_milestones, now).balanced(),
            self.reject_next(job_id).balanced(),
    {
        assert(self.jobs[job_id - 1].balanced());
        lemma_balanced_with(
            self,
            job_id,
            self.propose_next(caller, job_id, new_milestones, now).entry(job_id),
        );
        lemma_balanced_with(self, job_id, self.reject_next(job_id).entry(job_id));
    }

    /// Accepting a revision keeps the ledger in balance: for a job that
    /// holds funds, where the approved milestones of the proposal add up
    /// to what the job has paid out; for any other job, where the total
    /// stays what it is.
    pub proof fn law_accept_balanced(self, caller: Address, job_id: u64)
        requires
            self.wf(),
            self.balanced(),
            self.answer_error(caller, job_id) is None,
            if self.entry(job_id).job.in_custody() {
                approved_total(self.entry(job_id).proposal->0.new_milestones) == approved_total(
                    self.entry(job_id).job.milestones,
                )
            } else {
                self.entry(job_id).proposal->0.new_total == self.entry(job_id).job.total_amount
            },
        ensures
            self.accept_next(job_id).balanced(),
    {
        assert(self.jobs[job_id - 1].balanced());
        lemma_balanced_with(self, job_id, self.accept_next(job_id).entry(job_id));
    }

    /// Where a call is taken that is not one of those that keep a ledger
    /// in balance, the job that it is about is left out of balance.
    pub proof fn law_balance_lost(self, call: Call)
        requires
            self.wf(),
            self.balanced(),
            self.takes(call),
            self.refuses(call) is None,
            !self.keeps_balance(call),
        ensures
            !self.after(call).balanced(),
    {
        match call {
            Call::FundJob { job_id, .. } => {
                assert(self.jobs[job_id - 1].balanced());
                assert(!self.after(call).jobs[job_id - 1].balanced());
            },
            Call::ApproveMilestone { job_id, milestone_id, .. } => {
                assert(self.jobs[job_id - 1].balanced());
                assert(self.jobs[job_id - 1].wf());
                assert(self.entry(job_id).job.milestones[milestone_id as int].amount > 0);
                assert(!self.after(call).jobs[job_id - 1].balanced());
            },
            Call::ApproveMilestonesBatch { job_id, milestone_indices, .. } => {
                let e = self.entry(job_id);
                let ms = e.job.milestones;
                assert(self.jobs[job_id - 1].balanced());
                assert(self.jobs[job_id - 1].wf());
                assert(milestone_indices.take(milestone_indices.len() as int)
                    =~= milestone_indices);
                lemma_batch_sums(ms, milestone_indices, milestone_indices.len() as int);
                let approved = approve_all(ms, milestone_indices);
                if all_approved(approved) {
                    lemma_all_approved_total(approved);
                }
                assert(!self.after(call).jobs[job_id - 1].balanced());
            },
            Call::CancelJob { job_id, .. } => {
                assert(self.jobs[job_id - 1].balanced());
                assert(!self.after(call).jobs[job_id - 1].balanced());
            },
            Call::AcceptRevision { job_id, .. } => {
                assert(self.jobs[job_id - 1].balanced());
                assert(!self.after(call).jobs[job_id - 1].balanced());
            },
            _ => {},
        }
    }
}

} // verus!
