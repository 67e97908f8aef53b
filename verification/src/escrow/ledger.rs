//! The operations of the job ledger.
//!
//! The caller named in an operation has been authenticated by the embedding
//! application, and `now` is its clock. An operation that is refused leaves
//! the ledger as it was.

use crate::account::{net_inflow, Address, Transfer};
use crate::escrow::history::Call;
use crate::escrow::laws::{lemma_approve_all_step, lemma_batch_scan_all};
use crate::escrow::model::{
    all_approved, any_submitted, approved_total, clone_milestones, fee_of,
    lemma_approved_le_total, lemma_sums_bounds, lemma_sums_take, lemma_sums_update, owed_custody,
    positive_amounts, restored, total_of, with_deadline, with_status, DisputeResolution,
    EscrowContract, EscrowError, Job, JobEntry, JobRecord, JobStatus, JobView, Ledger, Milestone,
    MilestoneStatus, ProposalStatus, ProposalView, RevisionProposal, Settings, StoredJob,
    MAX_FEE_BPS,
};
use crate::escrow::rules::{
    approval_error, approve_all, batch_scan, deadlines_in_window, fresh_milestones,
    positive_inputs, released_total, settled_status,
};
use vstd::arithmetic::div_mod::{lemma_fundamental_div_mod, lemma_hoist_over_denominator};
use vstd::prelude::*;

verus! {

/// `post` is `pre` with entry `e` for job `job_id`.
pub proof fn lemma_entry_replaced(
    pre: EscrowContract,
    post: EscrowContract,
    job_id: u64,
    e: JobEntry,
)
    requires
        pre@.has_job(job_id),
        post.settings == pre.settings,
        post.paused == pre.paused,
        post.records@.len() == pre.records@.len(),
        forall|k: int|
            0 <= k < pre.records@.len() && k != job_id - 1 ==> post.records@[k]@
                == pre.records@[k]@,
        post.records@[job_id - 1]@ == e,
    ensures
        post@ == pre@.with_entry(job_id, e),
        pre.wf() && e.wf() && e.job.id == job_id ==> post.wf(),
{
    assert(post@.jobs =~= pre@.jobs.update(job_id - 1, e));
}

/// Whether every deadline of the input is after `now` and not after the
/// job's.
pub fn deadlines_ok(inputs: &Vec<(String, i128, u64)>, job_deadline: u64, now: u64) -> (r: bool)
    ensures
        r == deadlines_in_window(inputs@, job_deadline, now),
{
    let mut i: usize = 0;
    while i < inputs.len()
        invariant
            i <= inputs.len(),
            forall|k: int| 0 <= k < i ==> now < (#[trigger] inputs@[k]).2 <= job_deadline,
        decreases inputs.len() - i,
    {
        if inputs[i].2 <= now || inputs[i].2 > job_deadline {
            return false;
        }
        i += 1;
    }
    true
}

/// The milestones of a new job, numbered from 0 and pending, and the sum of
/// their amounts.
pub fn build_milestones(inputs: &Vec<(String, i128, u64)>) -> (r: (Vec<Milestone>, i128))
    requires
        inputs@.len() <= u32::MAX,
        positive_inputs(inputs@),
        total_of(fresh_milestones(inputs@)) <= i128::MAX,
    ensures
        r.0@ == fresh_milestones(inputs@),
        r.1 == total_of(fresh_milestones(inputs@)),
        positive_amounts(r.0@),
{
    let ghost fresh = fresh_milestones(inputs@);
    proof {
        assert(positive_amounts(fresh)) by {
            assert forall|k: int| 0 <= k < fresh.len() implies (#[trigger] fresh[k]).amount
                > 0 by {
                assert(inputs@[k].1 > 0);
            }
        }
    }
    let n = inputs.len();
    let mut total: i128 = 0;
    let mut list: Vec<Milestone> = Vec::new();
    let mut j: usize = 0;
    while j < n
        invariant
            j <= n,
            n == inputs@.len(),
            n <= u32::MAX,
            fresh == fresh_milestones(inputs@),
            positive_amounts(fresh),
            total_of(fresh) <= i128::MAX,
            list@ == fresh.take(j as int),
            total == total_of(fresh.take(j as int)),
        decreases n - j,
    {
        proof {
            lemma_sums_bounds(fresh, j as int);
            lemma_sums_take(fresh, j as int);
        }
        total = total + inputs[j].1;
        list.push(
            Milestone {
                id: j as u32,
                description: inputs[j].0.clone(),
                amount: inputs[j].1,
                status: MilestoneStatus::Pending,
                deadline: inputs[j].2,
            },
        );
        j += 1;
        assert(list@ =~= fresh.take(j as int));
    }
    assert(fresh.take(n as int) =~= fresh);
    (list, total)
}

/// The sum of the amounts of the approved milestones.
pub fn approved_amount(ms: &Vec<Milestone>) -> (sum: i128)
    requires
        positive_amounts(ms@),
        total_of(ms@) <= i128::MAX,
    ensures
        sum == approved_total(ms@),
{
    let mut sum: i128 = 0;
    let mut i: usize = 0;
    while i < ms.len()
        invariant
            i <= ms.len(),
            positive_amounts(ms@),
            total_of(ms@) <= i128::MAX,
            sum == approved_total(ms@.take(i as int)),
        decreases ms.len() - i,
    {
        proof {
            lemma_sums_bounds(ms@, i as int);
            lemma_sums_bounds(ms@, i as int + 1);
            lemma_sums_take(ms@, i as int);
        }
        if ms[i].status == MilestoneStatus::Approved {
            sum = sum + ms[i].amount;
        }
        i += 1;
    }
    assert(ms@.take(ms.len() as int) =~= ms@);
    sum
}

/// Whether every milestone is approved.
pub fn every_approved(ms: &Vec<Milestone>) -> (r: bool)
    ensures
        r == all_approved(ms@),
{
    let mut i: usize = 0;
    while i < ms.len()
        invariant
            i <= ms.len(),
            forall|k: int| 0 <= k < i ==> (#[trigger] ms@[k]).status == MilestoneStatus::Approved,
        decreases ms.len() - i,
    {
        if ms[i].status != MilestoneStatus::Approved {
            return false;
        }
        i += 1;
    }
    true
}

/// Whether some milestone is submitted and waits for the client.
pub fn some_submitted(ms: &Vec<Milestone>) -> (r: bool)
    ensures
        r == any_submitted(ms@),
{
    let mut i: usize = 0;
    while i < ms.len()
        invariant
            i <= ms.len(),
            forall|k: int| 0 <= k < i ==> (#[trigger] ms@[k]).status != MilestoneStatus::Submitted,
        decreases ms.len() - i,
    {
        if ms[i].status == MilestoneStatus::Submitted {
            return true;
        }
        i += 1;
    }
    false
}

/// The protocol fee on `amount` at `fee_bps` basis points, rounded down.
pub fn fee_amount(amount: i128, fee_bps: u32) -> (fee: i128)
    requires
        amount >= 0,
        fee_bps <= MAX_FEE_BPS,
    ensures
        fee == fee_of(amount as int, fee_bps as int),
        0 <= fee <= amount,
{
    let bps: i128 = fee_bps as i128;
    let whole: i128 = amount / 10_000;
    let part: i128 = amount % 10_000;
    proof {
        assert(amount == 10_000 * whole + part && 0 <= part < 10_000 && 0 <= whole) by {
            lemma_fundamental_div_mod(amount as int, 10_000);
        }
        assert(0 <= whole * bps <= whole * 1000) by (nonlinear_arith)
            requires
                0 <= whole,
                0 <= bps <= 1000,
        ;
        assert(0 <= part * bps <= 10_000 * 1000) by (nonlinear_arith)
            requires
                0 <= part < 10_000,
                0 <= bps <= 1000,
        ;
        assert(amount * bps == part * bps + (whole * bps) * 10_000) by (nonlinear_arith)
            requires
                amount == 10_000 * whole + part,
        ;
        lemma_hoist_over_denominator(part * bps, whole * bps, 10_000);
        assert((part * bps) / 10_000 <= part) by (nonlinear_arith)
            requires
                0 <= part,
                0 <= bps <= 1000,
        ;
    }
    whole * bps + (part * bps) / 10_000
}

/// Once a prefix of a batch holds an index that cannot be approved, the
/// batch is refused with that index's error.
pub proof fn lemma_batch_scan_prefix(ms: Seq<Milestone>, indices: Seq<u32>, k: int)
    requires
        0 <= k <= indices.len(),
        batch_scan(ms, indices.take(k)) is Some,
    ensures
        batch_scan(ms, indices) == batch_scan(ms, indices.take(k)),
    decreases indices.len() - k,
{
    if k == indices.len() {
        assert(indices.take(k) =~= indices);
    } else {
        assert(indices.take(k + 1).drop_last() =~= indices.take(k));
        lemma_batch_scan_prefix(ms, indices, k + 1);
    }
}

/// The error of the first index of the batch that cannot be approved, if
/// there is one.
pub fn scan_batch(ms: &Vec<Milestone>, indices: &Vec<u32>) -> (r: Option<EscrowError>)
    ensures
        r == batch_scan(ms@, indices@),
{
    let mut k: usize = 0;
    while k < indices.len()
        invariant
            k <= indices.len(),
            batch_scan(ms@, indices@.take(k as int)) is None,
        decreases indices.len() - k,
    {
        let index = indices[k] as usize;
        proof {
            assert(indices@.take(k as int + 1).drop_last() =~= indices@.take(k as int));
        }
        if index >= ms.len() {
            proof {
                lemma_batch_scan_prefix(ms@, indices@, k as int + 1);
            }
            return Some(EscrowError::MilestoneNotFound);
        }
        if ms[index].status != MilestoneStatus::Submitted {
            proof {
                lemma_batch_scan_prefix(ms@, indices@, k as int + 1);
            }
            return Some(EscrowError::InvalidStatus);
        }
        k += 1;
    }
    assert(indices@.take(k as int) =~= indices@);
    None
}

/// Approves the milestones that the batch names and returns what that
/// releases: the amount of each milestone that is approved, once, however
/// often the batch names it.
pub fn apply_batch(ms: &mut Vec<Milestone>, indices: &Vec<u32>) -> (total: i128)
    requires
        batch_scan(old(ms)@, indices@) is None,
        positive_amounts(old(ms)@),
        total_of(old(ms)@) <= i128::MAX,
    ensures
        final(ms)@ == approve_all(old(ms)@, indices@),
        total == released_total(old(ms)@, indices@),
        0 <= total <= total_of(old(ms)@) - approved_total(old(ms)@),
        total_of(final(ms)@) == total_of(old(ms)@),
        positive_amounts(final(ms)@),
{
    let mut total: i128 = 0;
    let mut k: usize = 0;
    proof {
        assert(ms@ =~= approve_all(old(ms)@, indices@.take(0)));
        lemma_approved_le_total(old(ms)@);
    }
    while k < indices.len()
        invariant
            k <= indices.len(),
            batch_scan(old(ms)@, indices@) is None,
            positive_amounts(old(ms)@),
            total_of(old(ms)@) <= i128::MAX,
            0 <= approved_total(old(ms)@),
            ms@ == approve_all(old(ms)@, indices@.take(k as int)),
            total == approved_total(ms@) - approved_total(old(ms)@),
            0 <= total,
            total_of(ms@) == total_of(old(ms)@),
            positive_amounts(ms@),
        decreases indices.len() - k,
    {
        let index = indices[k] as usize;
        proof {
            lemma_batch_scan_all(old(ms)@, indices@);
            assert(approval_error(old(ms)@, indices@[k as int]) is None);
            lemma_approve_all_step(old(ms)@, indices@, k as int);
        }
        let ghost before = ms@;
        if ms[index].status != MilestoneStatus::Approved {
            proof {
                lemma_sums_update(
                    before,
                    index as int,
                    with_status(before[index as int], MilestoneStatus::Approved),
                );
                lemma_approved_le_total(
                    before.update(
                        index as int,
                        with_status(before[index as int], MilestoneStatus::Approved),
                    ),
                );
            }
            total = total + ms[index].amount;
            ms[index].status = MilestoneStatus::Approved;
        }
        proof {
            assert(ms@ =~= before.update(
                index as int,
                with_status(old(ms)@[index as int], MilestoneStatus::Approved),
            ));
        }
        k += 1;
    }
    proof {
        assert(indices@.take(k as int) =~= indices@);
        lemma_approved_le_total(ms@);
    }
    total
}

/// The sum of the amounts, if it is an `i128`.
pub fn checked_total(ms: &Vec<Milestone>) -> (r: Option<i128>)
    requires
        positive_amounts(ms@),
    ensures
        match r {
            Some(total) => total == total_of(ms@),
            None => total_of(ms@) > i128::MAX,
        },
{
    let mut total: i128 = 0;
    let mut i: usize = 0;
    while i < ms.len()
        invariant
            i <= ms.len(),
            positive_amounts(ms@),
            total == total_of(ms@.take(i as int)),
            0 <= total,
        decreases ms.len() - i,
    {
        proof {
            lemma_sums_bounds(ms@, i as int);
            lemma_sums_take(ms@, i as int);
        }
        if ms[i].amount > i128::MAX - total {
            return None;
        }
        total = total + ms[i].amount;
        i += 1;
    }
    assert(ms@.take(ms.len() as int) =~= ms@);
    Some(total)
}

/// Whether the input of a new job can be taken: not more milestones than
/// can be numbered, each amount positive, and the total an `i128`.
pub fn inputs_in_range(inputs: &Vec<(String, i128, u64)>) -> (r: bool)
    ensures
        r == (inputs@.len() <= u32::MAX && positive_inputs(inputs@) && total_of(
            fresh_milestones(inputs@),
        ) <= i128::MAX),
{
    if inputs.len() > u32::MAX as usize {
        return false;
    }
    let ghost fresh = fresh_milestones(inputs@);
    let mut total: i128 = 0;
    let mut i: usize = 0;
    while i < inputs.len()
        invariant
            i <= inputs.len(),
            fresh == fresh_milestones(inputs@),
            forall|k: int| 0 <= k < i ==> (#[trigger] inputs@[k]).1 > 0,
            total == total_of(fresh.take(i as int)),
            0 <= total,
        decreases inputs.len() - i,
    {
        if inputs[i].1 <= 0 {
            return false;
        }
        proof {
            lemma_sums_take(fresh, i as int);
        }
        if inputs[i].1 > i128::MAX - total {
            proof {
                if positive_inputs(inputs@) {
                    assert(positive_amounts(fresh)) by {
                        assert forall|k: int| 0 <= k < fresh.len() implies (#[trigger] fresh[k]).amount
                            > 0 by {
                            assert(inputs@[k].1 > 0);
                        }
                    }
                    lemma_sums_bounds(fresh, i as int + 1);
                }
            }
            return false;
        }
        total = total + inputs[i].1;
        i += 1;
    }
    assert(fresh.take(inputs.len() as int) =~= fresh);
    true
}

/// Whether every amount of the input is positive.
pub fn inputs_positive(inputs: &Vec<(String, i128, u64)>) -> (r: bool)
    ensures
        r == positive_inputs(inputs@),
{
    let mut i: usize = 0;
    while i < inputs.len()
        invariant
            i <= inputs.len(),
            forall|k: int| 0 <= k < i ==> (#[trigger] inputs@[k]).1 > 0,
        decreases inputs.len() - i,
    {
        if inputs[i].1 <= 0 {
            return false;
        }
        i += 1;
    }
    true
}

/// Whether every milestone has a positive amount.
pub fn amounts_positive(ms: &Vec<Milestone>) -> (r: bool)
    ensures
        r == positive_amounts(ms@),
{
    let mut i: usize = 0;
    while i < ms.len()
        invariant
            i <= ms.len(),
            forall|k: int| 0 <= k < i ==> (#[trigger] ms@[k]).amount > 0,
        decreases ms.len() - i,
    {
        if ms[i].amount <= 0 {
            return false;
        }
        i += 1;
    }
    true
}

impl EscrowContract {
    /// A ledger without jobs, not initialized and not paused.
    pub fn new() -> (ledger: EscrowContract)
        ensures
            ledger.wf(),
            ledger@.balanced(),
            ledger@ == (Ledger { settings: None, paused: false, jobs: Seq::empty() }),
    {
        let ledger = EscrowContract { settings: None, paused: false, records: Vec::new() };
        assert(ledger@.jobs =~= Seq::empty());
        ledger
    }

    /// The place of job `job_id` among the records.
    fn slot(&self, job_id: u64) -> (r: Option<usize>)
        ensures
            match r {
                Some(i) => self@.has_job(job_id) && i == job_id - 1 && i < self.records@.len(),
                None => !self@.has_job(job_id),
            },
    {
        if job_id >= 1 && job_id <= self.records.len() as u64 {
            Some((job_id - 1) as usize)
        } else {
            None
        }
    }

    /// Sets the administrator, the treasury and the fee, once.
    pub fn initialize(&mut self, admin: Address, treasury: Address, fee_bps: u32) -> (r: Result<
        (),
        EscrowError,
    >)
        requires
            old(self).wf(),
        ensures
            final(self).wf(),
            final(self)@ == old(self)@.after(
                (Call::Initialize { admin, treasury, fee_bps }),
            ),
            match r {
                Ok(_) => old(self)@.initialize_error(fee_bps) is None && final(self)@ == old(
                    self,
                )@.initialize_next(admin, treasury, fee_bps),
                Err(e) => old(self)@.initialize_error(fee_bps) == Some(e) && final(self)@ == old(
                    self,
                )@,
            },
    {
        if self.settings.is_some() {
            return Err(EscrowError::AlreadyInitialized);
        }
        if fee_bps > MAX_FEE_BPS {
            return Err(EscrowError::InvalidStatus);
        }
        self.settings = Some(Settings { admin, treasury, fee_bps });
        self.paused = false;
        assert(self@.jobs =~= old(self)@.jobs);
        Ok(())
    }

    /// Whether `admin` is the administrator.
    fn require_admin(&self, admin: Address) -> (r: Result<(), EscrowError>)
        ensures
            match r {
                Ok(_) => self@.admin_error(admin) is None,
                Err(e) => self@.admin_error(admin) == Some(e),
            },
    {
        match self.settings {
            Some(s) => if s.admin == admin {
                Ok(())
            } else {
                Err(EscrowError::NotAdmin)
            },
            None => Err(EscrowError::NotAdmin),
        }
    }

    /// Whether the ledger takes operations that change a job.
    fn require_not_paused(&self) -> (r: Result<(), EscrowError>)
        ensures
            match r {
                Ok(_) => !self@.paused,
                Err(e) => self@.paused && e == EscrowError::ContractPaused,
            },
    {
        if self.paused {
            Err(EscrowError::ContractPaused)
        } else {
            Ok(())
        }
    }

    /// Pauses the ledger. Only the administrator may.
    pub fn pause(&mut self, admin: Address) -> (r: Result<(), EscrowError>)
        requires
            old(self).wf(),
        ensures
            final(self).wf(),
            final(self)@ == old(self)@.after(
                (Call::Pause { admin }),
            ),
            match r {
                Ok(_) => old(self)@.admin_error(admin) is None && final(self)@ == (Ledger {
                    paused: true,
                    ..old(self)@
                }),
                Err(e) => old(self)@.admin_error(admin) == Some(e) && final(self)@ == old(self)@,
            },
    {
        match self.require_admin(admin) {
            Err(e) => Err(e),
            Ok(_) => {
                self.paused = true;
                assert(self@.jobs =~= old(self)@.jobs);
                Ok(())
            },
        }
    }

    /// Takes the pause back. Only the administrator may.
    pub fn unpause(&mut self, admin: Address) -> (r: Result<(), EscrowError>)
        requires
            old(self).wf(),
        ensures
            final(self).wf(),
            final(self)@ == old(self)@.after(
                (Call::Unpause { admin }),
            ),
            match r {
                Ok(_) => old(self)@.admin_error(admin) is None && final(self)@ == (Ledger {
                    paused: false,
                    ..old(self)@
                }),
                Err(e) => old(self)@.admin_error(admin) == Some(e) && final(self)@ == old(self)@,
            },
    {
        match self.require_admin(admin) {
            Err(e) => Err(e),
            Ok(_) => {
                self.paused = false;
                assert(self@.jobs =~= old(self)@.jobs);
                Ok(())
            },
        }
    }

    /// Sets the fee. The administrator has authorized the call.
    pub fn set_fee_bps(&mut self, new_fee: u32) -> (r: Result<(), EscrowError>)
        requires
            old(self).wf(),
        ensures
            final(self).wf(),
            final(self)@ == old(self)@.after(
                (Call::SetFeeBps { new_fee }),
            ),
            match r {
                Ok(_) => old(self)@.set_fee_bps_error(new_fee) is None && final(self)@ == old(
                    self,
                )@.set_fee_bps_next(new_fee),
                Err(e) => old(self)@.set_fee_bps_error(new_fee) == Some(e) && final(self)@ == old(
                    self,
                )@,
            },
    {
        match self.settings {
            None => Err(EscrowError::Unauthorized),
            Some(s) => {
                if new_fee > MAX_FEE_BPS {
                    return Err(EscrowError::InvalidStatus);
                }
                self.settings = Some(
                    Settings { admin: s.admin, treasury: s.treasury, fee_bps: new_fee },
                );
                assert(self@.jobs =~= old(self)@.jobs);
                Ok(())
            },
        }
    }

    /// Sets the treasury. The administrator has authorized the call.
    pub fn set_treasury(&mut self, new_treasury: Address) -> (r: Result<(), EscrowError>)
        requires
            old(self).wf(),
        ensures
            final(self).wf(),
            final(self)@ == old(self)@.after(
                (Call::SetTreasury { new_treasury }),
            ),
            match r {
                Ok(_) => old(self)@.set_treasury_error() is None && final(self)@ == old(
                    self,
                )@.set_treasury_next(new_treasury),
                Err(e) => old(self)@.set_treasury_error() == Some(e) && final(self)@ == old(self)@,
            },
    {
        match self.settings {
            None => Err(EscrowError::Unauthorized),
            Some(s) => {
                self.settings = Some(
                    Settings { admin: s.admin, treasury: new_treasury, fee_bps: s.fee_bps },
                );
                assert(self@.jobs =~= old(self)@.jobs);
                Ok(())
            },
        }
    }

    /// Creates a job with the given milestones, each a description, an
    /// amount and a deadline, and returns its number. The job is not funded
    /// yet.
    pub fn create_job(
        &mut self,
        client: Address,
        freelancer: Address,
        token: Address,
        milestones: Vec<(String, i128, u64)>,
        job_deadline: u64,
        auto_refund_after: u64,
        now: u64,
    ) -> (r: Result<u64, EscrowError>)
        requires
            old(self).wf(),
            old(self)@.jobs.len() < u64::MAX,
            milestones@.len() <= u32::MAX,
            positive_inputs(milestones@),
            old(self)@.create_job_error(milestones@, job_deadline, now) is None ==> total_of(
                fresh_milestones(milestones@),
            ) <= i128::MAX,
        ensures
            final(self).wf(),
            final(self)@ == old(self)@.after(
                (Call::CreateJob {
                    client,
                    freelancer,
                    token,
                    milestones: milestones@,
                    job_deadline,
                    auto_refund_after,
                    now,
                }),
            ),
            match r {
                Ok(id) => {
                    &&& old(self)@.create_job_error(milestones@, job_deadline, now) is None
                    &&& id == old(self)@.jobs.len() + 1
                    &&& final(self)@ == (Ledger {
                        jobs: old(self)@.jobs.push(
                            old(self)@.created_entry(
                                client,
                                freelancer,
                                token,
                                milestones@,
                                job_deadline,
                                auto_refund_after,
                            ),
                        ),
                        ..old(self)@
                    })
                },
                Err(e) => {
                    &&& old(self)@.create_job_error(milestones@, job_deadline, now) == Some(e)
                    &&& final(self)@ == old(self)@
                },
            },
    {
        if let Err(e) = self.require_not_paused() {
            return Err(e);
        }
        if job_deadline <= now {
            return Err(EscrowError::InvalidDeadline);
        }
        if !deadlines_ok(&milestones, job_deadline, now) {
            return Err(EscrowError::InvalidDeadline);
        }
        let (list, total) = build_milestones(&milestones);
        let id = self.records.len() as u64 + 1;
        let job = Job {
            id,
            client,
            freelancer,
            token,
            total_amount: total,
            status: JobStatus::Created,
            milestones: list,
            job_deadline,
            auto_refund_after,
        };
        self.records.push(JobRecord { job, proposal: None, custody: Ghost(0) });
        proof {
            let entry = old(self)@.created_entry(
                client,
                freelancer,
                token,
                milestones@,
                job_deadline,
                auto_refund_after,
            );
            assert(self.records@.last()@ == entry);
            assert(self@.jobs =~= old(self)@.jobs.push(entry));
        }
        Ok(id)
    }

    /// Takes the job's total from the client into custody.
    pub fn fund_job(&mut self, job_id: u64, client: Address) -> (r: Result<
        Vec<Transfer>,
        EscrowError,
    >)
        requires
            old(self).wf(),
        ensures
            final(self).wf(),
            final(self)@ == old(self)@.after(
                (Call::FundJob { job_id, client }),
            ),
            match r {
                Ok(transfers) => {
                    &&& old(self)@.fund_job_error(job_id, client) is None
                    &&& transfers@ == old(self)@.fund_job_transfers(job_id)
                    &&& final(self)@ == old(self)@.fund_job_next(job_id)
                },
                Err(e) => {
                    &&& old(self)@.fund_job_error(job_id, client) == Some(e)
                    &&& final(self)@ == old(self)@
                },
            },
    {
        if let Err(e) = self.require_not_paused() {
            return Err(e);
        }
        let i = match self.slot(job_id) {
            Some(i) => i,
            None => {
                return Err(EscrowError::JobNotFound);
            },
        };
        if self.records[i].job.client != client {
            return Err(EscrowError::Unauthorized);
        }
        if self.records[i].job.status != JobStatus::Created {
            return Err(EscrowError::AlreadyFunded);
        }
        let total = self.records[i].job.total_amount;
        let token = self.records[i].job.token;
        self.records[i].job.status = JobStatus::Funded;
        self.records[i].custody = Ghost(old(self).records@[i as int].custody@ + total);
        proof {
            let e = old(self)@.entry(job_id);
            lemma_entry_replaced(
                *old(self),
                *self,
                job_id,
                JobEntry {
                    job: JobView { status: JobStatus::Funded, ..e.job },
                    custody: e.custody + e.job.total_amount,
                    ..e
                },
            );
        }
        let mut transfers: Vec<Transfer> = Vec::new();
        transfers.push(Transfer::deposit(token, client, total));
        assert(transfers@ =~= old(self)@.fund_job_transfers(job_id));
        Ok(transfers)
    }

    /// A copy of job `job_id`.
    pub fn get_job(&self, job_id: u64) -> (r: Result<Job, EscrowError>)
        ensures
            match r {
                Ok(job) => self@.has_job(job_id) && job@ == self@.entry(job_id).job,
                Err(e) => !self@.has_job(job_id) && e == EscrowError::JobNotFound,
            },
    {
        match self.slot(job_id) {
            Some(i) => Ok(self.records[i].job.clone()),
            None => Err(EscrowError::JobNotFound),
        }
    }

    /// The number of jobs created so far.
    pub fn get_job_count(&self) -> (count: u64)
        ensures
            count == self@.jobs.len(),
    {
        self.records.len() as u64
    }

    /// A copy of the latest revision proposal for job `job_id`, if there is
    /// one.
    pub fn get_revision_proposal(&self, job_id: u64) -> (r: Option<RevisionProposal>)
        ensures
            match r {
                Some(p) => self@.has_job(job_id) && self@.entry(job_id).proposal == Some(p@),
                None => !self@.has_job(job_id) || self@.entry(job_id).proposal is None,
            },
    {
        match self.slot(job_id) {
            Some(i) => match &self.records[i].proposal {
                Some(p) => Some(p.clone()),
                None => None,
            },
            None => None,
        }
    }

    /// Whether milestone `milestone_id` of job `job_id` exists and is past
    /// its deadline.
    pub fn is_milestone_overdue(&self, job_id: u64, milestone_id: u32, now: u64) -> (r: bool)
        ensures
            r == self@.overdue(job_id, milestone_id, now),
    {
        match self.slot(job_id) {
            Some(i) => {
                if (milestone_id as usize) < self.records[i].job.milestones.len() {
                    now > self.records[i].job.milestones[milestone_id as usize].deadline
                } else {
                    false
                }
            },
            None => false,
        }
    }

    /// The transfers that pay `amount` out for approved work.
    fn payout(&self, token: Address, freelancer: Address, amount: i128) -> (transfers: Vec<
        Transfer,
    >)
        requires
            self.settings matches Some(s) ==> s.fee_bps <= MAX_FEE_BPS,
            amount >= 0,
        ensures
            transfers@ == self@.payout(token, freelancer, amount),
    {
        let mut transfers: Vec<Transfer> = Vec::new();
        match self.settings {
            Some(s) => {
                let fee = fee_amount(amount, s.fee_bps);
                if fee > 0 {
                    transfers.push(Transfer::release(token, s.treasury, fee));
                    transfers.push(Transfer::release(token, freelancer, amount - fee));
                } else {
                    transfers.push(Transfer::release(token, freelancer, amount));
                }
            },
            None => {
                transfers.push(Transfer::release(token, freelancer, amount));
            },
        }
        assert(transfers@ =~= self@.payout(token, freelancer, amount));
        transfers
    }

    /// The freelancer hands milestone `milestone_id` in for approval.
    pub fn submit_milestone(
        &mut self,
        job_id: u64,
        milestone_id: u32,
        freelancer: Address,
        now: u64,
    ) -> (r: Result<(), EscrowError>)
        requires
            old(self).wf(),
        ensures
            final(self).wf(),
            final(self)@ == old(self)@.after(
                (Call::SubmitMilestone { job_id, milestone_id, freelancer, now }),
            ),
            match r {
                Ok(_) => {
                    &&& old(self)@.submit_error(job_id, milestone_id, freelancer, now) is None
                    &&& final(self)@ == old(self)@.submit_next(job_id, milestone_id)
                },
                Err(e) => {
                    &&& old(self)@.submit_error(job_id, milestone_id, freelancer, now) == Some(e)
                    &&& final(self)@ == old(self)@
                },
            },
    {
        if let Err(e) = self.require_not_paused() {
            return Err(e);
        }
        let i = match self.slot(job_id) {
            Some(i) => i,
            None => {
                return Err(EscrowError::JobNotFound);
            },
        };
        if self.records[i].job.freelancer != freelancer {
            return Err(EscrowError::Unauthorized);
        }
        if self.records[i].job.status != JobStatus::Funded && self.records[i].job.status
            != JobStatus::InProgress {
            return Err(EscrowError::InvalidStatus);
        }
        let m = milestone_id as usize;
        if m >= self.records[i].job.milestones.len() {
            return Err(EscrowError::MilestoneNotFound);
        }
        let status = self.records[i].job.milestones[m].status;
        if status != MilestoneStatus::Pending && status != MilestoneStatus::InProgress {
            return Err(EscrowError::InvalidStatus);
        }
        if now > self.records[i].job.milestones[m].deadline {
            return Err(EscrowError::MilestoneDeadlineExceeded);
        }
        self.records[i].job.milestones[m].status = MilestoneStatus::Submitted;
        self.records[i].job.status = JobStatus::InProgress;
        proof {
            let e = old(self)@.entry(job_id);
            let next = JobEntry {
                job: JobView {
                    status: JobStatus::InProgress,
                    ..e.job.mark(milestone_id, MilestoneStatus::Submitted)
                },
                ..e
            };
            assert(self.records@[i as int]@.job.milestones =~= next.job.milestones);
            lemma_sums_update(e.job.milestones, m as int, next.job.milestones[m as int]);
            lemma_entry_replaced(*old(self), *self, job_id, next);
        }
        Ok(())
    }

    /// The client approves milestone `milestone_id`: its amount leaves
    /// custody, the fee for the treasury and the rest for the freelancer.
    /// With the last milestone approved the job is completed.
    pub fn approve_milestone(&mut self, job_id: u64, milestone_id: u32, client: Address) -> (r:
        Result<Vec<Transfer>, EscrowError>)
        requires
            old(self).wf(),
        ensures
            final(self).wf(),
            final(self)@ == old(self)@.after(
                (Call::ApproveMilestone { job_id, milestone_id, client }),
            ),
            match r {
                Ok(transfers) => {
                    &&& old(self)@.approve_error(job_id, milestone_id, client) is None
                    &&& transfers@ == old(self)@.approve_transfers(job_id, milestone_id)
                    &&& final(self)@ == old(self)@.approve_next(job_id, milestone_id)
                },
                Err(e) => {
                    &&& old(self)@.approve_error(job_id, milestone_id, client) == Some(e)
                    &&& final(self)@ == old(self)@
                },
            },
            r matches Ok(transfers) ==> net_inflow(transfers@) == -old(self)@.entry(
                job_id,
            ).job.milestones[milestone_id as int].amount,
            r is Ok && old(self)@.entry(job_id).funds_conserved() ==> final(self)@.entry(
                job_id,
            ).funds_conserved(),
            r is Ok && old(self)@.entry(job_id).job.in_custody() && old(self)@.entry(
                job_id,
            ).funds_conserved() ==> final(self)@.entry(job_id).balanced() && (final(self)@.entry(
                job_id,
            ).job.status == JobStatus::Completed <==> all_approved(
                final(self)@.entry(job_id).job.milestones,
            )),
    {
        if let Err(e) = self.require_not_paused() {
            return Err(e);
        }
        let i = match self.slot(job_id) {
            Some(i) => i,
            None => {
                return Err(EscrowError::JobNotFound);
            },
        };
        if self.records[i].job.client != client {
            return Err(EscrowError::Unauthorized);
        }
        let m = milestone_id as usize;
        if m >= self.records[i].job.milestones.len() {
            return Err(EscrowError::MilestoneNotFound);
        }
        if self.records[i].job.milestones[m].status != MilestoneStatus::Submitted {
            return Err(EscrowError::InvalidStatus);
        }
        let amount = self.records[i].job.milestones[m].amount;
        let transfers = self.payout(
            self.records[i].job.token,
            self.records[i].job.freelancer,
            amount,
        );
        self.records[i].job.milestones[m].status = MilestoneStatus::Approved;
        if every_approved(&self.records[i].job.milestones) {
            self.records[i].job.status = JobStatus::Completed;
        }
        self.records[i].custody = Ghost(old(self).records@[i as int].custody@ - amount);
        proof {
            let e = old(self)@.entry(job_id);
            let marked = e.job.mark(milestone_id, MilestoneStatus::Approved);
            let next = JobEntry {
                job: marked.completed_if_done(),
                custody: e.custody - amount,
                ..e
            };
            assert(self.records@[i as int]@.job.milestones =~= marked.milestones);
            lemma_sums_update(e.job.milestones, m as int, marked.milestones[m as int]);
            lemma_entry_replaced(*old(self), *self, job_id, next);
            old(self)@.law_approve_conserves(job_id, milestone_id, client);
        }
        Ok(transfers)
    }

    /// The client approves several milestones at once. Either every index
    /// names a submitted milestone, or nothing changes. Returns the amount
    /// released and the transfers that release it. A milestone that the
    /// batch names more than once is approved, and paid for, once.
    pub fn approve_milestones_batch(
        &mut self,
        job_id: u64,
        milestone_indices: Vec<u32>,
        client: Address,
    ) -> (r: Result<(i128, Vec<Transfer>), EscrowError>)
        requires
            old(self).wf(),
        ensures
            final(self).wf(),
            final(self)@ == old(self)@.after(
                (Call::ApproveMilestonesBatch {
                    job_id,
                    milestone_indices: milestone_indices@,
                    client,
                }),
            ),
            match r {
                Ok((released, transfers)) => {
                    &&& old(self)@.batch_error(job_id, milestone_indices@, client) is None
                    &&& released == old(self)@.batch_total(job_id, milestone_indices@)
                    &&& transfers@ == old(self)@.batch_transfers(job_id, milestone_indices@)
                    &&& final(self)@ == old(self)@.batch_next(job_id, milestone_indices@)
                },
                Err(e) => {
                    &&& old(self)@.batch_error(job_id, milestone_indices@, client) == Some(e)
                    &&& final(self)@ == old(self)@
                },
            },
            forall|k: int|
                0 <= k < milestone_indices@.len() && old(self)@.has_job(job_id) && approval_error(
                    old(self)@.entry(job_id).job.milestones,
                    #[trigger] milestone_indices@[k],
                ) is Some ==> r is Err && final(self)@ == old(self)@,
            r is Err && !old(self)@.paused && old(self)@.has_job(job_id) && old(self)@.entry(
                job_id,
            ).job.client == client ==> (r->Err_0 == EscrowError::MilestoneNotFound || r->Err_0
                == EscrowError::InvalidStatus) && exists|k: int|
                0 <= k < milestone_indices@.len() && approval_error(
                    old(self)@.entry(job_id).job.milestones,
                    #[trigger] milestone_indices@[k],
                ) == Some(r->Err_0) && forall|j: int|
                    0 <= j < k ==> approval_error(
                        old(self)@.entry(job_id).job.milestones,
                        #[trigger] milestone_indices@[j],
                    ) is None,
            r matches Ok((released, transfers)) ==> net_inflow(transfers@) == -released && 0
                <= released <= old(self)@.entry(job_id).job.remaining(),
            r is Ok && old(self)@.entry(job_id).funds_conserved() ==> final(self)@.entry(
                job_id,
            ).funds_conserved(),
            r is Ok && old(self)@.entry(job_id).job.in_custody() && old(self)@.entry(
                job_id,
            ).funds_conserved() ==> final(self)@.entry(job_id).balanced() && (final(self)@.entry(
                job_id,
            ).job.status == JobStatus::Completed <==> all_approved(
                final(self)@.entry(job_id).job.milestones,
            )),
    {
        if let Err(e) = self.require_not_paused() {
            return Err(e);
        }
        let i = match self.slot(job_id) {
            Some(i) => i,
            None => {
                return Err(EscrowError::JobNotFound);
            },
        };
        if self.records[i].job.client != client {
            return Err(EscrowError::Unauthorized);
        }
        match scan_batch(&self.records[i].job.milestones, &milestone_indices) {
            Some(e) => {
                proof {
                    let k = old(self)@.law_batch_error_kind(job_id, milestone_indices@, client);
                }
                return Err(e);
            },
            None => {},
        }
        proof {
            assert(old(self)@.jobs[i as int].wf());
            lemma_batch_scan_all(old(self)@.entry(job_id).job.milestones, milestone_indices@);
        }
        let released = apply_batch(&mut self.records[i].job.milestones, &milestone_indices);
        let transfers = if released > 0 {
            self.payout(self.records[i].job.token, self.records[i].job.freelancer, released)
        } else {
            Vec::new()
        };
        if every_approved(&self.records[i].job.milestones) {
            self.records[i].job.status = JobStatus::Completed;
        }
        self.records[i].custody = Ghost(old(self).records@[i as int].custody@ - released);
        proof {
            let e = old(self)@.entry(job_id);
            let next = JobEntry {
                job: (JobView {
                    milestones: approve_all(e.job.milestones, milestone_indices@),
                    ..e.job
                }).completed_if_done(),
                custody: e.custody - released,
                ..e
            };
            lemma_entry_replaced(*old(self), *self, job_id, next);
            assert(transfers@ =~= old(self)@.batch_transfers(job_id, milestone_indices@));
            old(self)@.law_batch_conserves(job_id, milestone_indices@, client);
        }
        Ok((released, transfers))
    }

    /// Moves the deadline of milestone `milestone_id`. Client and
    /// freelancer have both authorized the call.
    pub fn extend_deadline(
        &mut self,
        job_id: u64,
        milestone_id: u32,
        new_deadline: u64,
        now: u64,
    ) -> (r: Result<(), EscrowError>)
        requires
            old(self).wf(),
        ensures
            final(self).wf(),
            final(self)@ == old(self)@.after(
                (Call::ExtendDeadline { job_id, milestone_id, new_deadline, now }),
            ),
            match r {
                Ok(_) => {
                    &&& old(self)@.extend_error(job_id, milestone_id, new_deadline, now) is None
                    &&& final(self)@ == old(self)@.extend_next(job_id, milestone_id, new_deadline)
                },
                Err(e) => {
                    &&& old(self)@.extend_error(job_id, milestone_id, new_deadline, now) == Some(e)
                    &&& final(self)@ == old(self)@
                },
            },
    {
        if let Err(e) = self.require_not_paused() {
            return Err(e);
        }
        let i = match self.slot(job_id) {
            Some(i) => i,
            None => {
                return Err(EscrowError::JobNotFound);
            },
        };
        if new_deadline <= now {
            return Err(EscrowError::InvalidDeadline);
        }
        let m = milestone_id as usize;
        if m >= self.records[i].job.milestones.len() {
            return Err(EscrowError::MilestoneNotFound);
        }
        self.records[i].job.milestones[m].deadline = new_deadline;
        proof {
            let e = old(self)@.entry(job_id);
            let moved = with_deadline(e.job.milestones[m as int], new_deadline);
            let next = JobEntry {
                job: JobView { milestones: e.job.milestones.update(m as int, moved), ..e.job },
                ..e
            };
            assert(self.records@[i as int]@.job.milestones =~= next.job.milestones);
            lemma_sums_update(e.job.milestones, m as int, moved);
            lemma_entry_replaced(*old(self), *self, job_id, next);
        }
        Ok(())
    }

    /// What job `i` has not paid out for approved milestones.
    fn remaining_at(&self, i: usize) -> (rest: i128)
        requires
            self.wf(),
            i < self.records@.len(),
        ensures
            rest == self@.jobs[i as int].job.remaining(),
            0 <= rest <= self@.jobs[i as int].job.total_amount,
    {
        proof {
            assert(self@.jobs[i as int].wf());
            lemma_approved_le_total(self@.jobs[i as int].job.milestones);
        }
        self.records[i].job.total_amount - approved_amount(&self.records[i].job.milestones)
    }

    /// The client cancels the job: what remains in custody goes back to the
    /// client.
    pub fn cancel_job(&mut self, job_id: u64, client: Address) -> (r: Result<
        Vec<Transfer>,
        EscrowError,
    >)
        requires
            old(self).wf(),
        ensures
            final(self).wf(),
            final(self)@ == old(self)@.after(
                (Call::CancelJob { job_id, client }),
            ),
            match r {
                Ok(transfers) => {
                    &&& old(self)@.cancel_error(job_id, client) is None
                    &&& transfers@ == old(self)@.cancel_transfers(job_id)
                    &&& final(self)@ == old(self)@.cancel_next(job_id)
                },
                Err(e) => {
                    &&& old(self)@.cancel_error(job_id, client) == Some(e)
                    &&& final(self)@ == old(self)@
                },
            },
    {
        if let Err(e) = self.require_not_paused() {
            return Err(e);
        }
        let i = match self.slot(job_id) {
            Some(i) => i,
            None => {
                return Err(EscrowError::JobNotFound);
            },
        };
        if self.records[i].job.client != client {
            return Err(EscrowError::Unauthorized);
        }
        let status = self.records[i].job.status;
        if status == JobStatus::Completed || status == JobStatus::Cancelled {
            return Err(EscrowError::InvalidStatus);
        }
        let rest = self.remaining_at(i);
        let mut transfers: Vec<Transfer> = Vec::new();
        let mut refund: i128 = 0;
        if rest > 0 && (status == JobStatus::Funded || status == JobStatus::InProgress) {
            refund = rest;
            transfers.push(Transfer::release(self.records[i].job.token, client, rest));
        }
        self.records[i].job.status = JobStatus::Cancelled;
        self.records[i].custody = Ghost(old(self).records@[i as int].custody@ - refund);
        proof {
            let e = old(self)@.entry(job_id);
            let next = JobEntry {
                job: JobView { status: JobStatus::Cancelled, ..e.job },
                custody: e.custody - e.job.cancel_refund(),
                ..e
            };
            lemma_entry_replaced(*old(self), *self, job_id, next);
            assert(transfers@ =~= old(self)@.cancel_transfers(job_id));
        }
        Ok(transfers)
    }

    /// The client takes back what remains of an abandoned job, once the
    /// grace period after the job's deadline is over and no submitted
    /// milestone waits for approval.
    pub fn claim_refund(&mut self, job_id: u64, client: Address, now: u64) -> (r: Result<
        Vec<Transfer>,
        EscrowError,
    >)
        requires
            old(self).wf(),
        ensures
            final(self).wf(),
            final(self)@ == old(self)@.after(
                (Call::ClaimRefund { job_id, client, now }),
            ),
            match r {
                Ok(transfers) => {
                    &&& old(self)@.refund_error(job_id, client, now) is None
                    &&& transfers@ == old(self)@.refund_transfers(job_id)
                    &&& final(self)@ == old(self)@.refund_next(job_id)
                },
                Err(e) => {
                    &&& old(self)@.refund_error(job_id, client, now) == Some(e)
                    &&& final(self)@ == old(self)@
                },
            },
    {
        if let Err(e) = self.require_not_paused() {
            return Err(e);
        }
        let i = match self.slot(job_id) {
            Some(i) => i,
            None => {
                return Err(EscrowError::JobNotFound);
            },
        };
        if self.records[i].job.client != client {
            return Err(EscrowError::Unauthorized);
        }
        let status = self.records[i].job.status;
        if status != JobStatus::Funded && status != JobStatus::InProgress {
            return Err(EscrowError::InvalidStatus);
        }
        let eligible_at: u128 = self.records[i].job.job_deadline as u128
            + self.records[i].job.auto_refund_after as u128;
        if (now as u128) < eligible_at {
            return Err(EscrowError::GracePeriodNotMet);
        }
        if some_submitted(&self.records[i].job.milestones) {
            return Err(EscrowError::HasPendingMilestone);
        }
        let rest = self.remaining_at(i);
        if rest <= 0 {
            return Err(EscrowError::NoRefundDue);
        }
        let mut transfers: Vec<Transfer> = Vec::new();
        transfers.push(Transfer::release(self.records[i].job.token, client, rest));
        self.records[i].job.status = JobStatus::Cancelled;
        self.records[i].custody = Ghost(old(self).records@[i as int].custody@ - rest);
        proof {
            let e = old(self)@.entry(job_id);
            let next = JobEntry {
                job: JobView { status: JobStatus::Cancelled, ..e.job },
                custody: e.custody - e.job.remaining(),
                ..e
            };
            lemma_entry_replaced(*old(self), *self, job_id, next);
            assert(transfers@ =~= old(self)@.refund_transfers(job_id));
        }
        Ok(transfers)
    }

    /// Whether a settlement of job `job_id` would be taken now.
    pub fn can_settle(&self, job_id: u64) -> (r: Result<(), EscrowError>)
        ensures
            match r {
                Ok(_) => self@.settle_error(job_id) is None,
                Err(e) => self@.settle_error(job_id) == Some(e),
            },
    {
        if let Err(e) = self.require_not_paused() {
            return Err(e);
        }
        let i = match self.slot(job_id) {
            Some(i) => i,
            None => {
                return Err(EscrowError::JobNotFound);
            },
        };
        let status = self.records[i].job.status;
        if status == JobStatus::Created || status == JobStatus::Completed || status
            == JobStatus::Cancelled {
            return Err(EscrowError::InvalidStatus);
        }
        Ok(())
    }

    /// Settles a job whose dispute has ended: what remains goes to the
    /// client, to the freelancer or half to each, or stays where it is for
    /// a higher instance. A job that is not funded, or settled already, is
    /// refused, so that no dispute settles a job twice.
    pub fn resolve_dispute_callback(&mut self, job_id: u64, resolution: DisputeResolution) -> (r:
        Result<Vec<Transfer>, EscrowError>)
        requires
            old(self).wf(),
        ensures
            final(self).wf(),
            final(self)@ == old(self)@.after(
                (Call::ResolveDisputeCallback { job_id, resolution }),
            ),
            match r {
                Ok(transfers) => {
                    &&& old(self)@.settle_error(job_id) is None
                    &&& transfers@ == old(self)@.settle_transfers(job_id, resolution)
                    &&& final(self)@ == old(self)@.settle_next(job_id, resolution)
                },
                Err(e) => {
                    &&& old(self)@.settle_error(job_id) == Some(e)
                    &&& final(self)@ == old(self)@
                },
            },
    {
        if let Err(e) = self.require_not_paused() {
            return Err(e);
        }
        let i = match self.slot(job_id) {
            Some(i) => i,
            None => {
                return Err(EscrowError::JobNotFound);
            },
        };
        let status = self.records[i].job.status;
        if status == JobStatus::Created || status == JobStatus::Completed || status
            == JobStatus::Cancelled {
            return Err(EscrowError::InvalidStatus);
        }
        let rest = self.remaining_at(i);
        let token = self.records[i].job.token;
        let job_client = self.records[i].job.client;
        let job_freelancer = self.records[i].job.freelancer;
        let mut transfers: Vec<Transfer> = Vec::new();
        let mut moved: i128 = 0;
        match resolution {
            DisputeResolution::ClientWins => {
                if rest > 0 {
                    transfers.push(Transfer::release(token, job_client, rest));
                    moved = rest;
                }
                self.records[i].job.status = JobStatus::Cancelled;
            },
            DisputeResolution::FreelancerWins => {
                if rest > 0 {
                    transfers.push(Transfer::release(token, job_freelancer, rest));
                    moved = rest;
                }
                self.records[i].job.status = JobStatus::Completed;
            },
            DisputeResolution::RefundBoth => {
                if rest > 0 {
                    let half = rest / 2;
                    transfers.push(Transfer::release(token, job_client, half));
                    transfers.push(Transfer::release(token, job_freelancer, rest - half));
                    moved = rest;
                }
                self.records[i].job.status = JobStatus::Cancelled;
            },
            DisputeResolution::Escalate => {},
        }
        self.records[i].custody = Ghost(old(self).records@[i as int].custody@ - moved);
        proof {
            let e = old(self)@.entry(job_id);
            let next = JobEntry {
                job: JobView { status: settled_status(e.job.status, resolution), ..e.job },
                custody: e.custody - e.job.settled_amount(resolution),
                ..e
            };
            lemma_entry_replaced(*old(self), *self, job_id, next);
            assert(transfers@ =~= old(self)@.settle_transfers(job_id, resolution));
        }
        Ok(transfers)
    }

    /// Client or freelancer proposes to replace the job's milestones, and
    /// with them its total. One proposal at a time waits for an answer. A
    /// proposal is refused where an amount or the total is not positive,
    /// or the total is no `i128`.
    pub fn propose_revision(
        &mut self,
        caller: Address,
        job_id: u64,
        new_milestones: Vec<Milestone>,
        now: u64,
    ) -> (r: Result<(), EscrowError>)
        requires
            old(self).wf(),
        ensures
            final(self).wf(),
            final(self)@ == old(self)@.after(
                (Call::ProposeRevision {
                    caller,
                    job_id,
                    new_milestones: new_milestones@,
                    now,
                }),
            ),
            match r {
                Ok(_) => {
                    &&& old(self)@.propose_error(caller, job_id, new_milestones@) is None
                    &&& final(self)@ == old(self)@.propose_next(
                        caller,
                        job_id,
                        new_milestones@,
                        now,
                    )
                },
                Err(e) => {
                    &&& old(self)@.propose_error(caller, job_id, new_milestones@) == Some(e)
                    &&& final(self)@ == old(self)@
                },
            },
    {
        let i = match self.slot(job_id) {
            Some(i) => i,
            None => {
                return Err(EscrowError::JobNotFound);
            },
        };
        if caller != self.records[i].job.client && caller != self.records[i].job.freelancer {
            return Err(EscrowError::NotAuthorizedForProposalAction);
        }
        match &self.records[i].proposal {
            Some(p) => {
                if p.status == ProposalStatus::Pending {
                    return Err(EscrowError::RevisionProposalAlreadyExists);
                }
            },
            None => {},
        }
        if new_milestones.len() == 0 {
            return Err(EscrowError::EmptyMilestonesProposed);
        }
        if !amounts_positive(&new_milestones) {
            return Err(EscrowError::ProposalTotalMismatch);
        }
        let new_total = match checked_total(&new_milestones) {
            Some(total) => total,
            None => {
                return Err(EscrowError::ProposalTotalMismatch);
            },
        };
        if new_total <= 0 {
            return Err(EscrowError::ProposalTotalMismatch);
        }
        let ghost listed = new_milestones@;
        self.records[i].proposal = Some(
            RevisionProposal {
                proposer: caller,
                new_milestones,
                new_total,
                status: ProposalStatus::Pending,
                created_at: now,
            },
        );
        proof {
            let e = old(self)@.entry(job_id);
            let next = JobEntry {
                proposal: Some(
                    ProposalView {
                        proposer: caller,
                        new_milestones: listed,
                        new_total,
                        status: ProposalStatus::Pending,
                        created_at: now,
                    },
                ),
                ..e
            };
            lemma_entry_replaced(*old(self), *self, job_id, next);
        }
        Ok(())
    }

    /// Whether `caller` may answer the proposal for job `i`.
    fn check_answer(&self, caller: Address, job_id: u64) -> (r: Result<usize, EscrowError>)
        ensures
            match r {
                Ok(i) => {
                    &&& self@.answer_error(caller, job_id) is None
                    &&& i == job_id - 1
                    &&& i < self.records@.len()
                    &&& self.records@[i as int].proposal is Some
                },
                Err(e) => self@.answer_error(caller, job_id) == Some(e),
            },
    {
        let i = match self.slot(job_id) {
            Some(i) => i,
            None => {
                return Err(EscrowError::JobNotFound);
            },
        };
        match &self.records[i].proposal {
            None => Err(EscrowError::RevisionProposalNotFound),
            Some(p) => {
                if p.status != ProposalStatus::Pending {
                    Err(EscrowError::ProposalNotPending)
                } else if caller != self.records[i].job.client && caller
                    != self.records[i].job.freelancer {
                    Err(EscrowError::NotAuthorizedForProposalAction)
                } else if caller == p.proposer {
                    Err(EscrowError::NotAuthorizedForProposalAction)
                } else {
                    Ok(i)
                }
            },
        }
    }

    /// The other party accepts the pending proposal: the job takes the
    /// proposed milestones and total, and the difference of the totals
    /// moves between the client and custody.
    pub fn accept_revision(&mut self, caller: Address, job_id: u64) -> (r: Result<
        Vec<Transfer>,
        EscrowError,
    >)
        requires
            old(self).wf(),
        ensures
            final(self).wf(),
            final(self)@ == old(self)@.after(
                (Call::AcceptRevision { caller, job_id }),
            ),
            match r {
                Ok(transfers) => {
                    &&& old(self)@.answer_error(caller, job_id) is None
                    &&& transfers@ == old(self)@.accept_transfers(job_id)
                    &&& final(self)@ == old(self)@.accept_next(job_id)
                },
                Err(e) => {
                    &&& old(self)@.answer_error(caller, job_id) == Some(e)
                    &&& final(self)@ == old(self)@
                },
            },
    {
        let i = match self.check_answer(caller, job_id) {
            Ok(i) => i,
            Err(e) => {
                return Err(e);
            },
        };
        proof {
            assert(old(self)@.jobs[i as int].wf());
            lemma_approved_le_total(old(self)@.jobs[i as int].job.milestones);
            lemma_approved_le_total(old(self)@.jobs[i as int].proposal->0.new_milestones);
        }
        let mut proposal = match self.records[i].proposal.take() {
            Some(p) => p,
            None => {
                return Err(EscrowError::RevisionProposalNotFound);
            },
        };
        let old_total = self.records[i].job.total_amount;
        let new_total = proposal.new_total;
        let token = self.records[i].job.token;
        let job_client = self.records[i].job.client;
        let mut transfers: Vec<Transfer> = Vec::new();
        if new_total > old_total {
            transfers.push(Transfer::deposit(token, job_client, new_total - old_total));
        } else if new_total < old_total {
            transfers.push(Transfer::release(token, job_client, old_total - new_total));
        }
        self.records[i].job.milestones = clone_milestones(&proposal.new_milestones);
        self.records[i].job.total_amount = new_total;
        proposal.status = ProposalStatus::Accepted;
        self.records[i].proposal = Some(proposal);
        self.records[i].custody = Ghost(
            old(self).records@[i as int].custody@ + new_total - old_total,
        );
        proof {
            let e = old(self)@.entry(job_id);
            let p = e.proposal->0;
            let next = JobEntry {
                job: JobView { milestones: p.new_milestones, total_amount: p.new_total, ..e.job },
                proposal: Some(ProposalView { status: ProposalStatus::Accepted, ..p }),
                custody: e.custody + old(self)@.revision_delta(job_id),
            };
            lemma_entry_replaced(*old(self), *self, job_id, next);
            assert(transfers@ =~= old(self)@.accept_transfers(job_id));
        }
        Ok(transfers)
    }

    /// The other party rejects the pending proposal. The job and its
    /// custody stay as they are, and a new proposal may follow.
    pub fn reject_revision(&mut self, caller: Address, job_id: u64) -> (r: Result<
        (),
        EscrowError,
    >)
        requires
            old(self).wf(),
        ensures
            final(self).wf(),
            final(self)@ == old(self)@.after(
                (Call::RejectRevision { caller, job_id }),
            ),
            match r {
                Ok(_) => {
                    &&& old(self)@.answer_error(caller, job_id) is None
                    &&& final(self)@ == old(self)@.reject_next(job_id)
                },
                Err(e) => {
                    &&& old(self)@.answer_error(caller, job_id) == Some(e)
                    &&& final(self)@ == old(self)@
                },
            },
    {
        let i = match self.check_answer(caller, job_id) {
            Ok(i) => i,
            Err(e) => {
                return Err(e);
            },
        };
        let mut proposal = match self.records[i].proposal.take() {
            Some(p) => p,
            None => {
                return Err(EscrowError::RevisionProposalNotFound);
            },
        };
        proposal.status = ProposalStatus::Rejected;
        self.records[i].proposal = Some(proposal);
        proof {
            let e = old(self)@.entry(job_id);
            let next = JobEntry {
                proposal: Some(ProposalView { status: ProposalStatus::Rejected, ..e.proposal->0 }),
                ..e
            };
            assert(old(self)@.jobs[i as int].wf());
            lemma_entry_replaced(*old(self), *self, job_id, next);
        }
        Ok(())
    }

    /// Whether `create_job` can be called with these arguments: the job
    /// and its milestones can be numbered, each amount is positive, and
    /// the total is an `i128`, where the job is not refused.
    pub fn job_in_range(&self, milestones: &Vec<(String, i128, u64)>, job_deadline: u64, now: u64) -> (r:
        bool)
        ensures
            r == {
                &&& self@.jobs.len() < u64::MAX
                &&& milestones@.len() <= u32::MAX
                &&& positive_inputs(milestones@)
                &&& self@.create_job_error(milestones@, job_deadline, now) is None ==> total_of(
                    fresh_milestones(milestones@),
                ) <= i128::MAX
            },
    {
        if self.records.len() as u64 == u64::MAX || milestones.len() > u32::MAX as usize {
            return false;
        }
        if inputs_in_range(milestones) {
            return true;
        }
        if !inputs_positive(milestones) {
            return false;
        }
        self.paused || job_deadline <= now || !deadlines_ok(milestones, job_deadline, now)
    }

    /// The ledger with the given settings and jobs, where these make a
    /// well-formed ledger: the fee within its limit, the jobs numbered from
    /// 1 in their order, and of each job and each proposal the amounts
    /// positive and their sum the total. Custody is taken to hold for each
    /// job what its status asks.
    pub fn restore(settings: Option<Settings>, paused: bool, jobs: Vec<StoredJob>) -> (r: Option<
        EscrowContract,
    >)
        ensures
            match r {
                Some(ledger) => ledger.wf() && ledger@ == restored(settings, paused, jobs@),
                None => !restored(settings, paused, jobs@).wf(),
            },
    {
        let ghost target = restored(settings, paused, jobs@);
        match settings {
            Some(s) => {
                if s.fee_bps > MAX_FEE_BPS {
                    return None;
                }
            },
            None => {},
        }
        let ghost stored = jobs@;
        let mut records: Vec<JobRecord> = Vec::new();
        for item in it: jobs
            invariant
                it.seq() == stored,
                target == restored(settings, paused, stored),
                records@.len() == it.index(),
                forall|k: int|
                    0 <= k < records@.len() ==> (#[trigger] records@[k])@ == stored[k]@
                        && stored[k]@.wf() && stored[k]@.job.id == k + 1,
        {
            let ghost k = records@.len() as int;
            assert(item == stored[k]);
            assert(target.jobs[k] == stored[k]@);
            let position = records.len() as u64;
            if position == u64::MAX || item.job.id != position + 1 {
                return None;
            }
            if !amounts_positive(&item.job.milestones) {
                return None;
            }
            match checked_total(&item.job.milestones) {
                Some(total) => {
                    if total != item.job.total_amount {
                        return None;
                    }
                },
                None => {
                    return None;
                },
            }
            match &item.proposal {
                Some(p) => {
                    if p.new_milestones.len() == 0 || !amounts_positive(&p.new_milestones) {
                        return None;
                    }
                    match checked_total(&p.new_milestones) {
                        Some(total) => {
                            if total != p.new_total {
                                return None;
                            }
                        },
                        None => {
                            return None;
                        },
                    }
                },
                None => {},
            }
            let ghost custody = owed_custody(item.job@);
            assert(stored[k]@.wf());
            records.push(JobRecord { job: item.job, proposal: item.proposal, custody: Ghost(custody) });
            assert(records@[k]@ == stored[k]@);
        }
        let ledger = EscrowContract { settings, paused, records };
        assert(ledger@.jobs =~= target.jobs);
        Some(ledger)
    }
}

} // verus!
