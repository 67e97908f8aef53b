//! Records of the job ledger and their mathematical model.

use crate::account::Address;
use vstd::prelude::*;

verus! {

/// The highest protocol fee, in basis points: ten per cent.
pub const MAX_FEE_BPS: u32 = 1000;

/// Why an operation of the job ledger was refused.
#[derive(Clone, Copy, Debug, PartialEq, Eq, Hash, Structural)]
pub enum EscrowError {
    JobNotFound,
    Unauthorized,
    InvalidStatus,
    MilestoneNotFound,
    InsufficientFunds,
    AlreadyFunded,
    InvalidDeadline,
    MilestoneDeadlineExceeded,
    HasPendingMilestone,
    NoRefundDue,
    GracePeriodNotMet,
    InvalidMilestoneIndex,
    TokenNotAllowed,
    AlreadyInitialized,
    ContractPaused,
    NotAdmin,
    /// A pending revision proposal already exists for the job.
    RevisionProposalAlreadyExists,
    /// No revision proposal exists for the job.
    RevisionProposalNotFound,
    /// The caller may not act on the proposal.
    NotAuthorizedForProposalAction,
    /// The proposal has been accepted or rejected already.
    ProposalNotPending,
    /// The top-up for an increased total cannot be expressed.
    InsufficientTopUp,
    /// A proposed amount, or the proposed total, is not a positive amount.
    ProposalTotalMismatch,
    /// The proposed milestone list is empty.
    EmptyMilestonesProposed,
}

impl EscrowError {
    /// The number under which the error is reported to the host.
    pub open spec fn code_of(self) -> u32 {
        match self {
            EscrowError::JobNotFound => 1,
            EscrowError::Unauthorized => 2,
            EscrowError::InvalidStatus => 3,
            EscrowError::MilestoneNotFound => 4,
            EscrowError::InsufficientFunds => 5,
            EscrowError::AlreadyFunded => 6,
            EscrowError::InvalidDeadline => 7,
            EscrowError::MilestoneDeadlineExceeded => 8,
            EscrowError::HasPendingMilestone => 9,
            EscrowError::NoRefundDue => 10,
            EscrowError::GracePeriodNotMet => 11,
            EscrowError::InvalidMilestoneIndex => 12,
            EscrowError::TokenNotAllowed => 13,
            EscrowError::AlreadyInitialized => 14,
            EscrowError::ContractPaused => 15,
            EscrowError::NotAdmin => 16,
            EscrowError::RevisionProposalAlreadyExists => 17,
            EscrowError::RevisionProposalNotFound => 18,
            EscrowError::NotAuthorizedForProposalAction => 19,
            EscrowError::ProposalNotPending => 20,
            EscrowError::InsufficientTopUp => 21,
            EscrowError::ProposalTotalMismatch => 22,
            EscrowError::EmptyMilestonesProposed => 23,
        }
    }

    /// The number under which the error is reported to the host.
    pub fn code(self) -> (c: u32)
        ensures
            c == self.code_of(),
    {
        match self {
            EscrowError::JobNotFound => 1,
            EscrowError::Unauthorized => 2,
            EscrowError::InvalidStatus => 3,
            EscrowError::MilestoneNotFound => 4,
            EscrowError::InsufficientFunds => 5,
            EscrowError::AlreadyFunded => 6,
            EscrowError::InvalidDeadline => 7,
            EscrowError::MilestoneDeadlineExceeded => 8,
            EscrowError::HasPendingMilestone => 9,
            EscrowError::NoRefundDue => 10,
            EscrowError::GracePeriodNotMet => 11,
            EscrowError::InvalidMilestoneIndex => 12,
            EscrowError::TokenNotAllowed => 13,
            EscrowError::AlreadyInitialized => 14,
            EscrowError::ContractPaused => 15,
            EscrowError::NotAdmin => 16,
            EscrowError::RevisionProposalAlreadyExists => 17,
            EscrowError::RevisionProposalNotFound => 18,
            EscrowError::NotAuthorizedForProposalAction => 19,
            EscrowError::ProposalNotPending => 20,
            EscrowError::InsufficientTopUp => 21,
            EscrowError::ProposalTotalMismatch => 22,
            EscrowError::EmptyMilestonesProposed => 23,
        }
    }
}

#[derive(Clone, Copy, Debug, PartialEq, Eq, Hash, Structural)]
pub enum JobStatus {
    Created,
    Funded,
    InProgress,
    Completed,
    Disputed,
    Cancelled,
}

/// How a dispute over a job ended.
#[derive(Clone, Copy, Debug, PartialEq, Eq, Hash, Structural)]
pub enum DisputeResolution {
    ClientWins,
    FreelancerWins,
    RefundBoth,
    Escalate,
}

#[derive(Clone, Copy, Debug, PartialEq, Eq, Hash, Structural)]
pub enum MilestoneStatus {
    Pending,
    InProgress,
    Submitted,
    Approved,
}

/// The state of a revision proposal: pending, then accepted or rejected for
/// good.
#[derive(Clone, Copy, Debug, PartialEq, Eq, Hash, Structural)]
pub enum ProposalStatus {
    Pending,
    Accepted,
    Rejected,
}

/// A priced unit of work with a deadline.
#[derive(Debug, PartialEq, Eq)]
pub struct Milestone {
    pub id: u32,
    pub description: String,
    pub amount: i128,
    pub status: MilestoneStatus,
    pub deadline: u64,
}

impl Clone for Milestone {
    fn clone(&self) -> (r: Self)
        ensures
            r == *self,
    {
        Milestone {
            id: self.id,
            description: self.description.clone(),
            amount: self.amount,
            status: self.status,
            deadline: self.deadline,
        }
    }
}

/// The sum of the amounts of all milestones.
pub open spec fn total_of(ms: Seq<Milestone>) -> int
    decreases ms.len(),
{
    if ms.len() == 0 {
        0
    } else {
        total_of(ms.drop_last()) + ms.last().amount
    }
}

/// The sum of the amounts of the approved milestones.
pub open spec fn approved_total(ms: Seq<Milestone>) -> int
    decreases ms.len(),
{
    if ms.len() == 0 {
        0
    } else {
        approved_total(ms.drop_last()) + if ms.last().status == MilestoneStatus::Approved {
            ms.last().amount as int
        } else {
            0
        }
    }
}

/// Every milestone has a positive amount.
pub open spec fn positive_amounts(ms: Seq<Milestone>) -> bool {
    forall|i: int| 0 <= i < ms.len() ==> (#[trigger] ms[i]).amount > 0
}

/// Every milestone is approved.
pub open spec fn all_approved(ms: Seq<Milestone>) -> bool {
    forall|i: int| 0 <= i < ms.len() ==> (#[trigger] ms[i]).status == MilestoneStatus::Approved
}

/// Some milestone is submitted and waits for the client.
pub open spec fn any_submitted(ms: Seq<Milestone>) -> bool {
    exists|i: int| 0 <= i < ms.len() && (#[trigger] ms[i]).status == MilestoneStatus::Submitted
}

/// The milestone `m` with another status.
pub open spec fn with_status(m: Milestone, status: MilestoneStatus) -> Milestone {
    Milestone { status, ..m }
}

/// The milestone `m` with another deadline.
pub open spec fn with_deadline(m: Milestone, deadline: u64) -> Milestone {
    Milestone { deadline, ..m }
}

/// The protocol fee on `amount` at `fee_bps` basis points, rounded down.
pub open spec fn fee_of(amount: int, fee_bps: int) -> int {
    amount * fee_bps / 10_000
}

pub proof fn lemma_sums_push(ms: Seq<Milestone>, m: Milestone)
    ensures
        total_of(ms.push(m)) == total_of(ms) + m.amount,
        approved_total(ms.push(m)) == approved_total(ms) + if m.status
            == MilestoneStatus::Approved {
            m.amount as int
        } else {
            0
        },
{
    assert(ms.push(m).drop_last() =~= ms);
}

pub proof fn lemma_sums_take(ms: Seq<Milestone>, i: int)
    requires
        0 <= i < ms.len(),
    ensures
        total_of(ms.take(i + 1)) == total_of(ms.take(i)) + ms[i].amount,
        approved_total(ms.take(i + 1)) == approved_total(ms.take(i)) + if ms[i].status
            == MilestoneStatus::Approved {
            ms[i].amount as int
        } else {
            0
        },
{
    assert(ms.take(i + 1) =~= ms.take(i).push(ms[i]));
    lemma_sums_push(ms.take(i), ms[i]);
}

/// With positive amounts, the approved part of a prefix is at most the
/// prefix, and the prefix at most the whole.
pub proof fn lemma_sums_bounds(ms: Seq<Milestone>, i: int)
    requires
        positive_amounts(ms),
        0 <= i <= ms.len(),
    ensures
        0 <= approved_total(ms.take(i)) <= total_of(ms.take(i)) <= total_of(ms),
        i < ms.len() ==> total_of(ms.take(i)) + ms[i].amount <= total_of(ms),
    decreases ms.len() - i,
{
    if i == ms.len() {
        assert(ms.take(i) =~= ms);
        lemma_approved_le_total(ms);
    } else {
        lemma_sums_bounds(ms, i + 1);
        lemma_sums_take(ms, i);
        assert(positive_amounts(ms.take(i))) by {
            assert forall|k: int| 0 <= k < ms.take(i).len() implies (#[trigger] ms.take(
                i,
            )[k]).amount > 0 by {
                assert(ms.take(i)[k] == ms[k]);
            }
        }
        lemma_approved_le_total(ms.take(i));
    }
}

pub proof fn lemma_approved_le_total(ms: Seq<Milestone>)
    requires
        positive_amounts(ms),
    ensures
        0 <= approved_total(ms) <= total_of(ms),
        ms.len() > 0 ==> total_of(ms) > 0,
    decreases ms.len(),
{
    if ms.len() > 0 {
        assert(ms.last() == ms[ms.len() - 1]);
        assert forall|k: int| 0 <= k < ms.drop_last().len() implies (#[trigger] ms.drop_last()[k]).amount
            > 0 by {
            assert(ms.drop_last()[k] == ms[k]);
        }
        lemma_approved_le_total(ms.drop_last());
    }
}

/// Where every milestone is approved, the approved sum is the whole.
pub proof fn lemma_all_approved_total(ms: Seq<Milestone>)
    requires
        all_approved(ms),
    ensures
        approved_total(ms) == total_of(ms),
    decreases ms.len(),
{
    if ms.len() > 0 {
        assert(ms.last() == ms[ms.len() - 1]);
        assert forall|k: int| 0 <= k < ms.drop_last().len() implies (#[trigger] ms.drop_last()[k]).status
            == MilestoneStatus::Approved by {
            assert(ms.drop_last()[k] == ms[k]);
        }
        lemma_all_approved_total(ms.drop_last());
    }
}

/// What a change of one milestone's status or deadline does to the sums.
pub proof fn lemma_sums_update(ms: Seq<Milestone>, i: int, m: Milestone)
    requires
        0 <= i < ms.len(),
        m.amount == ms[i].amount,
    ensures
        total_of(ms.update(i, m)) == total_of(ms),
        approved_total(ms.update(i, m)) == approved_total(ms) - (if ms[i].status
            == MilestoneStatus::Approved {
            ms[i].amount as int
        } else {
            0
        }) + (if m.status == MilestoneStatus::Approved {
            m.amount as int
        } else {
            0
        }),
        positive_amounts(ms) ==> positive_amounts(ms.update(i, m)),
    decreases ms.len(),
{
    if positive_amounts(ms) {
        assert forall|k: int| 0 <= k < ms.update(i, m).len() implies (#[trigger] ms.update(
            i,
            m,
        )[k]).amount > 0 by {
            if k != i {
                assert(ms.update(i, m)[k] == ms[k]);
            }
        }
    }
    if i == ms.len() - 1 {
        assert(ms.update(i, m).drop_last() =~= ms.drop_last());
    } else {
        assert(ms.update(i, m).drop_last() =~= ms.drop_last().update(i, m));
        assert(ms.drop_last()[i] == ms[i]);
        lemma_sums_update(ms.drop_last(), i, m);
    }
}

/// An escrowed engagement between a client and a freelancer.
#[derive(Debug, PartialEq, Eq)]
pub struct Job {
    pub id: u64,
    pub client: Address,
    pub freelancer: Address,
    pub token: Address,
    pub total_amount: i128,
    pub status: JobStatus,
    pub milestones: Vec<Milestone>,
    pub job_deadline: u64,
    pub auto_refund_after: u64,
}

/// A job as a mathematical value.
pub struct JobView {
    pub id: u64,
    pub client: Address,
    pub freelancer: Address,
    pub token: Address,
    pub total_amount: i128,
    pub status: JobStatus,
    pub milestones: Seq<Milestone>,
    pub job_deadline: u64,
    pub auto_refund_after: u64,
}

impl View for Job {
    type V = JobView;

    open spec fn view(&self) -> JobView {
        JobView {
            id: self.id,
            client: self.client,
            freelancer: self.freelancer,
            token: self.token,
            total_amount: self.total_amount,
            status: self.status,
            milestones: self.milestones@,
            job_deadline: self.job_deadline,
            auto_refund_after: self.auto_refund_after,
        }
    }
}

impl JobView {
    /// The amounts are positive and add up to the job's total.
    pub open spec fn wf(self) -> bool {
        &&& positive_amounts(self.milestones)
        &&& self.total_amount == total_of(self.milestones)
    }

    /// What has not been paid out for an approved milestone.
    pub open spec fn remaining(self) -> int {
        self.total_amount - approved_total(self.milestones)
    }

    /// `who` is the client or the freelancer of the job.
    pub open spec fn is_party(self, who: Address) -> bool {
        who == self.client || who == self.freelancer
    }

    /// The job holds funds: it is funded and not yet settled.
    pub open spec fn in_custody(self) -> bool {
        self.status == JobStatus::Funded || self.status == JobStatus::InProgress || self.status
            == JobStatus::Disputed
    }

    /// The job is settled: completed or cancelled.
    pub open spec fn settled(self) -> bool {
        self.status == JobStatus::Completed || self.status == JobStatus::Cancelled
    }
}

/// A copy of the milestones.
pub fn clone_milestones(ms: &Vec<Milestone>) -> (r: Vec<Milestone>)
    ensures
        r@ == ms@,
{
    let mut out: Vec<Milestone> = Vec::new();
    let mut i: usize = 0;
    while i < ms.len()
        invariant
            i <= ms.len(),
            out@ == ms@.take(i as int),
        decreases ms.len() - i,
    {
        out.push(ms[i].clone());
        i += 1;
        assert(out@ =~= ms@.take(i as int));
    }
    assert(out@ =~= ms@);
    out
}

impl Clone for Job {
    fn clone(&self) -> (r: Self)
        ensures
            r@ == self@,
    {
        Job {
            id: self.id,
            client: self.client,
            freelancer: self.freelancer,
            token: self.token,
            total_amount: self.total_amount,
            status: self.status,
            milestones: clone_milestones(&self.milestones),
            job_deadline: self.job_deadline,
            auto_refund_after: self.auto_refund_after,
        }
    }
}

/// A proposal to replace the milestones, and with them the total, of a job.
#[derive(Debug)]
pub struct RevisionProposal {
    pub proposer: Address,
    pub new_milestones: Vec<Milestone>,
    pub new_total: i128,
    pub status: ProposalStatus,
    pub created_at: u64,
}

/// A revision proposal as a mathematical value.
pub struct ProposalView {
    pub proposer: Address,
    pub new_milestones: Seq<Milestone>,
    pub new_total: i128,
    pub status: ProposalStatus,
    pub created_at: u64,
}

impl View for RevisionProposal {
    type V = ProposalView;

    open spec fn view(&self) -> ProposalView {
        ProposalView {
            proposer: self.proposer,
            new_milestones: self.new_milestones@,
            new_total: self.new_total,
            status: self.status,
            created_at: self.created_at,
        }
    }
}

impl ProposalView {
    /// The candidate list is not empty, its amounts are positive and add up
    /// to the proposed total.
    pub open spec fn wf(self) -> bool {
        &&& self.new_milestones.len() > 0
        &&& positive_amounts(self.new_milestones)
        &&& self.new_total == total_of(self.new_milestones)
    }
}

impl Clone for RevisionProposal {
    fn clone(&self) -> (r: Self)
        ensures
            r@ == self@,
    {
        RevisionProposal {
            proposer: self.proposer,
            new_milestones: clone_milestones(&self.new_milestones),
            new_total: self.new_total,
            status: self.status,
            created_at: self.created_at,
        }
    }
}

/// What the ledger keeps for one job.
pub struct JobRecord {
    pub job: Job,
    /// The latest revision proposal, if there has been one.
    pub proposal: Option<RevisionProposal>,
    /// What the asset ledger holds for the job, every transfer that the
    /// ledger has asked for carried out.
    pub custody: Ghost<int>,
}

/// One job of the ledger as a mathematical value.
pub struct JobEntry {
    pub job: JobView,
    pub proposal: Option<ProposalView>,
    pub custody: int,
}

/// The view of an optional proposal.
pub open spec fn proposal_view(p: Option<RevisionProposal>) -> Option<ProposalView> {
    match p {
        Some(p) => Some(p@),
        None => None,
    }
}

impl View for JobRecord {
    type V = JobEntry;

    open spec fn view(&self) -> JobEntry {
        JobEntry { job: self.job@, proposal: proposal_view(self.proposal), custody: self.custody@ }
    }
}

impl JobEntry {
    pub open spec fn wf(self) -> bool {
        &&& self.job.wf()
        &&& self.proposal matches Some(p) ==> p.wf()
    }

    /// A revision proposal waits for an answer.
    pub open spec fn has_pending_proposal(self) -> bool {
        self.proposal matches Some(p) && p.status == ProposalStatus::Pending
    }

    /// The job's total is what is in custody and what was paid out for
    /// approved milestones.
    pub open spec fn funds_conserved(self) -> bool {
        self.job.total_amount == self.custody + approved_total(self.job.milestones)
    }

    /// Custody is as the job's status asks: nothing before funding and
    /// after settlement, and between the two what conservation gives.
    pub open spec fn balanced(self) -> bool {
        if self.job.in_custody() {
            self.funds_conserved()
        } else {
            self.custody == 0
        }
    }
}

/// A job and its latest revision proposal as they are kept outside the
/// ledger.
pub struct StoredJob {
    pub job: Job,
    pub proposal: Option<RevisionProposal>,
}

/// What custody holds for a job whose funds are conserved: what remains
/// while the job holds funds, and nothing before and after.
pub open spec fn owed_custody(job: JobView) -> int {
    if job.in_custody() {
        job.remaining()
    } else {
        0
    }
}

impl View for StoredJob {
    type V = JobEntry;

    open spec fn view(&self) -> JobEntry {
        JobEntry {
            job: self.job@,
            proposal: proposal_view(self.proposal),
            custody: owed_custody(self.job@),
        }
    }
}

/// The administrator, the treasury that receives the fees, and the fee.
#[derive(Clone, Copy, Debug, PartialEq, Eq, Structural)]
pub struct Settings {
    pub admin: Address,
    pub treasury: Address,
    pub fee_bps: u32,
}

/// The job ledger. Job `k` is the `k`-th that was created, counted from 1.
pub struct EscrowContract {
    pub settings: Option<Settings>,
    pub paused: bool,
    pub records: Vec<JobRecord>,
}

/// The job ledger as a mathematical value.
pub struct Ledger {
    pub settings: Option<Settings>,
    pub paused: bool,
    pub jobs: Seq<JobEntry>,
}

impl View for EscrowContract {
    type V = Ledger;

    open spec fn view(&self) -> Ledger {
        Ledger {
            settings: self.settings,
            paused: self.paused,
            jobs: Seq::new(self.records@.len(), |i: int| self.records@[i]@),
        }
    }
}

impl Ledger {
    pub open spec fn wf(self) -> bool {
        &&& self.settings matches Some(s) ==> s.fee_bps <= MAX_FEE_BPS
        &&& forall|i: int|
            0 <= i < self.jobs.len() ==> (#[trigger] self.jobs[i]).wf() && self.jobs[i].job.id == i
                + 1
    }

    pub open spec fn has_job(self, job_id: u64) -> bool {
        1 <= job_id <= self.jobs.len()
    }

    /// The entry of job `job_id`.
    pub open spec fn entry(self, job_id: u64) -> JobEntry
        recommends
            self.has_job(job_id),
    {
        self.jobs[job_id - 1]
    }

    /// The ledger with another entry for job `job_id`.
    pub open spec fn with_entry(self, job_id: u64, e: JobEntry) -> Ledger
        recommends
            self.has_job(job_id),
    {
        Ledger { jobs: self.jobs.update(job_id - 1, e), ..self }
    }

    /// The fee in force: that of the settings, and none before
    /// initialization.
    pub open spec fn fee_bps(self) -> u32 {
        match self.settings {
            Some(s) => s.fee_bps,
            None => 0,
        }
    }

    /// Every job's custody is as its status asks.
    pub open spec fn balanced(self) -> bool {
        forall|i: int| 0 <= i < self.jobs.len() ==> (#[trigger] self.jobs[i]).balanced()
    }
}

/// The ledger that the stored settings and jobs stand for.
pub open spec fn restored(settings: Option<Settings>, paused: bool, jobs: Seq<StoredJob>) -> Ledger {
    Ledger { settings, paused, jobs: Seq::new(jobs.len(), |i: int| jobs[i]@) }
}

impl EscrowContract {
    /// The ledger is well formed.
    pub open spec fn wf(&self) -> bool {
        self@.wf()
    }
}

} // verus!
