use std::collections::HashMap;
use stellar_market::account::{Address, Flow, Transfer};
use stellar_market::escrow::model::{
    DisputeResolution, EscrowContract, EscrowError, JobStatus, Milestone, MilestoneStatus,
    ProposalStatus,
};

const GRACE_PERIOD: u64 = 604_800; // 7 days in seconds
const JOB_DEADLINE: u64 = 1_000_000;

/// The clock, the principals and one asset with its balances; `held` is what
/// the job ledger has in custody.
struct Env {
    next: u128,
    now: u64,
    balances: HashMap<Address, i128>,
    held: i128,
}

impl Env {
    fn default() -> Env {
        Env { next: 1, now: 0, balances: HashMap::new(), held: 0 }
    }

    fn generate(&mut self) -> Address {
        self.next += 1;
        Address::account(0, self.next)
    }

    fn mint(&mut self, to: Address, amount: i128) {
        *self.balances.entry(to).or_insert(0) += amount;
    }

    fn balance(&self, who: Address) -> i128 {
        *self.balances.get(&who).unwrap_or(&0)
    }

    /// Carries the transfers out, as the asset would: no amount below zero,
    /// no balance below zero.
    fn settle(&mut self, transfers: Vec<Transfer>) {
        for t in transfers {
            assert!(t.amount >= 0, "negative amount");
            match t.flow {
                Flow::Deposit => {
                    let from = self.balances.entry(t.party).or_insert(0);
                    assert!(*from >= t.amount, "balance is not sufficient");
                    *from -= t.amount;
                    self.held += t.amount;
                }
                Flow::Release => {
                    assert!(self.held >= t.amount, "custody is not sufficient");
                    self.held -= t.amount;
                    *self.balances.entry(t.party).or_insert(0) += t.amount;
                }
            }
        }
    }
}

fn task(description: &str, amount: i128, deadline: u64) -> (String, i128, u64) {
    (description.to_string(), amount, deadline)
}

fn pending(id: u32, description: &str, amount: i128) -> Milestone {
    Milestone {
        id,
        description: description.to_string(),
        amount,
        status: MilestoneStatus::Pending,
        deadline: JOB_DEADLINE,
    }
}

fn default_milestones() -> Vec<(String, i128, u64)> {
    vec![
        task("Design", 500, 500_000),
        task("Frontend", 1000, 700_000),
        task("Backend", 1500, 900_000),
    ]
}

/// A ledger, a client with 10000 units, a freelancer, the asset and an
/// administrator.
fn setup_test(env: &mut Env) -> (EscrowContract, Address, Address, Address, Address) {
    let contract = EscrowContract::new();
    let user_client = env.generate();
    let freelancer = env.generate();
    let admin = env.generate();
    let token = Address::contract(0, 7);
    env.mint(user_client, 10000);
    (contract, user_client, freelancer, token, admin)
}

/// A ledger and the asset, at time 1000.
fn setup_refund_env(env: &mut Env) -> (EscrowContract, Address) {
    env.now = 1000;
    (EscrowContract::new(), Address::contract(0, 7))
}

fn approved_sum(job: &stellar_market::escrow::model::Job) -> i128 {
    job.milestones.iter().filter(|m| m.status == MilestoneStatus::Approved).map(|m| m.amount).sum()
}

/// A funded job of 500, 1000 and 1500 at time 1000.
fn funded_job(env: &mut Env) -> (EscrowContract, Address, Address, u64) {
    let (mut escrow, token) = setup_refund_env(env);
    let client = env.generate();
    let freelancer = env.generate();
    let job_id = escrow
        .create_job(
            client,
            freelancer,
            token,
            default_milestones(),
            JOB_DEADLINE,
            GRACE_PERIOD,
            env.now,
        )
        .unwrap();
    env.mint(client, 3000);
    let t = escrow.fund_job(job_id, client).unwrap();
    env.settle(t);
    (escrow, client, freelancer, job_id)
}

#[test]
fn funds_are_conserved_through_the_life_of_a_job() {
    let mut env = Env::default();
    let (mut escrow, client, freelancer, job_id) = funded_job(&mut env);

    // After each step the job's total is what is held and what was paid out.
    let check = |escrow: &EscrowContract, env: &Env| {
        let job = escrow.get_job(job_id).unwrap();
        assert_eq!(job.total_amount, env.held + approved_sum(&job));
    };
    check(&escrow, &env);

    escrow.submit_milestone(job_id, 1, freelancer, env.now).unwrap();
    check(&escrow, &env);
    let t = escrow.approve_milestone(job_id, 1, client).unwrap();
    env.settle(t);
    check(&escrow, &env);
    assert_eq!(env.held, 2000);

    // A revision that raises the total by 700 pulls 700 from the client.
    env.mint(client, 700);
    let mut revised = vec![
        pending(0, "Design", 500),
        pending(1, "Frontend", 1000),
        pending(2, "Backend", 2200),
    ];
    revised[1].status = MilestoneStatus::Approved;
    escrow.propose_revision(freelancer, job_id, revised, env.now).unwrap();
    let t = escrow.accept_revision(client, job_id).unwrap();
    env.settle(t);
    check(&escrow, &env);
    assert_eq!(env.held, 2700);
    assert_eq!(escrow.get_job(job_id).unwrap().total_amount, 3700);

    escrow.submit_milestone(job_id, 0, freelancer, env.now).unwrap();
    escrow.submit_milestone(job_id, 2, freelancer, env.now).unwrap();
    let (released, t) = escrow.approve_milestones_batch(job_id, vec![2, 0], client).unwrap();
    env.settle(t);
    assert_eq!(released, 2700);
    check(&escrow, &env);
    assert_eq!(env.held, 0);
    assert_eq!(escrow.get_job(job_id).unwrap().status, JobStatus::Completed);
    assert_eq!(env.balance(freelancer), 3700);
    assert_eq!(env.balance(client), 0);
}

#[test]
fn refused_batch_changes_nothing() {
    let mut env = Env::default();
    let (mut escrow, client, freelancer, job_id) = funded_job(&mut env);
    escrow.submit_milestone(job_id, 0, freelancer, env.now).unwrap();
    escrow.submit_milestone(job_id, 2, freelancer, env.now).unwrap();
    let before = escrow.get_job(job_id).unwrap();

    // Milestone 1 is pending: the batch is refused though 0 and 2 could be approved.
    let result = escrow.approve_milestones_batch(job_id, vec![0, 1, 2], client);
    assert_eq!(result, Err(EscrowError::InvalidStatus));
    assert_eq!(escrow.get_job(job_id).unwrap(), before);

    // An index beyond the list comes first in the batch: its error is reported.
    let result = escrow.approve_milestones_batch(job_id, vec![3, 1], client);
    assert_eq!(result, Err(EscrowError::MilestoneNotFound));
    assert_eq!(EscrowError::MilestoneNotFound.code(), 4);
    assert_eq!(escrow.get_job(job_id).unwrap(), before);
    assert_eq!(env.held, 3000);
    assert_eq!(env.balance(freelancer), 0);
}

#[test]
fn batch_pays_a_milestone_once_however_often_it_names_it() {
    let mut env = Env::default();
    let (mut escrow, client, freelancer, job_id) = funded_job(&mut env);
    escrow.submit_milestone(job_id, 0, freelancer, env.now).unwrap();
    escrow.submit_milestone(job_id, 2, freelancer, env.now).unwrap();

    let (released, transfers) =
        escrow.approve_milestones_batch(job_id, vec![0, 2, 0, 0, 2], client).unwrap();
    assert_eq!(released, 2000);
    assert_eq!(transfers, vec![Transfer::release(Address::contract(0, 7), freelancer, 2000)]);
    env.settle(transfers);

    let job = escrow.get_job(job_id).unwrap();
    assert_eq!(job.milestones[0].status, MilestoneStatus::Approved);
    assert_eq!(job.milestones[1].status, MilestoneStatus::Pending);
    assert_eq!(job.milestones[2].status, MilestoneStatus::Approved);
    assert_eq!(approved_sum(&job), 2000);
    assert_eq!(job.total_amount, env.held + approved_sum(&job));
    assert_eq!(job.status, JobStatus::InProgress);

    // What was approved cannot be approved again.
    assert_eq!(
        escrow.approve_milestones_batch(job_id, vec![0], client),
        Err(EscrowError::InvalidStatus)
    );
}

#[test]
fn batch_of_one_milestone_named_twice_releases_its_amount() {
    let mut env = Env::default();
    let (mut escrow, client, freelancer, job_id) = funded_job(&mut env);
    escrow.submit_milestone(job_id, 0, freelancer, env.now).unwrap();

    let (released, transfers) = escrow.approve_milestones_batch(job_id, vec![0, 0], client).unwrap();
    assert_eq!(released, 500);
    assert_eq!(transfers, vec![Transfer::release(Address::contract(0, 7), freelancer, 500)]);
    env.settle(transfers);
    assert_eq!(env.held, 2500);
    assert_eq!(approved_sum(&escrow.get_job(job_id).unwrap()), 500);
}

#[test]
fn empty_batch_releases_nothing() {
    let mut env = Env::default();
    let (mut escrow, client, _freelancer, job_id) = funded_job(&mut env);
    let (released, transfers) = escrow.approve_milestones_batch(job_id, vec![], client).unwrap();
    assert_eq!(released, 0);
    assert!(transfers.is_empty());
    assert_eq!(escrow.get_job(job_id).unwrap().status, JobStatus::Funded);
}

#[test]
fn fee_is_rounded_down() {
    let mut env = Env::default();
    env.now = 1000;
    let mut escrow = EscrowContract::new();
    let admin = env.generate();
    let treasury = env.generate();
    escrow.initialize(admin, treasury, 250).unwrap();
    let token = Address::contract(0, 7);
    let client = env.generate();
    let freelancer = env.generate();
    let job_id = escrow
        .create_job(
            client,
            freelancer,
            token,
            vec![task("Odd", 1999, 2000), task("Small", 39, 2000)],
            3000,
            GRACE_PERIOD,
            env.now,
        )
        .unwrap();
    escrow.fund_job(job_id, client).unwrap();
    escrow.submit_milestone(job_id, 0, freelancer, env.now).unwrap();
    escrow.submit_milestone(job_id, 1, freelancer, env.now).unwrap();

    // 1999 * 250 / 10000 = 49.975: the fee is 49.
    let transfers = escrow.approve_milestone(job_id, 0, client).unwrap();
    assert_eq!(
        transfers,
        vec![Transfer::release(token, treasury, 49), Transfer::release(token, freelancer, 1950)]
    );
    // 39 * 250 / 10000 is below 1: no fee, and no transfer for it.
    let transfers = escrow.approve_milestone(job_id, 1, client).unwrap();
    assert_eq!(transfers, vec![Transfer::release(token, freelancer, 39)]);
}

#[test]
fn fee_of_the_greatest_amount_does_not_overflow() {
    let mut env = Env::default();
    let mut escrow = EscrowContract::new();
    let admin = env.generate();
    let treasury = env.generate();
    escrow.initialize(admin, treasury, 1000).unwrap();
    let token = Address::contract(0, 7);
    let client = env.generate();
    let freelancer = env.generate();
    let job_id = escrow
        .create_job(
            client,
            freelancer,
            token,
            vec![task("All", i128::MAX, 2000)],
            3000,
            GRACE_PERIOD,
            env.now,
        )
        .unwrap();
    escrow.fund_job(job_id, client).unwrap();
    escrow.submit_milestone(job_id, 0, freelancer, env.now).unwrap();
    let transfers = escrow.approve_milestone(job_id, 0, client).unwrap();
    let fee = 17_014_118_346_046_923_173_168_730_371_588_410_572;
    assert_eq!(fee, i128::MAX / 10);
    assert_eq!(
        transfers,
        vec![
            Transfer::release(token, treasury, fee),
            Transfer::release(token, freelancer, i128::MAX - fee),
        ]
    );
}

#[test]
fn refund_both_gives_the_odd_unit_to_the_freelancer() {
    let mut env = Env::default();
    let (mut escrow, token) = setup_refund_env(&mut env);
    let client = env.generate();
    let freelancer = env.generate();

    let job_id = escrow
        .create_job(
            client,
            freelancer,
            token,
            vec![task("Odd", 3001, 2000)],
            3000,
            GRACE_PERIOD,
            env.now,
        )
        .unwrap();
    env.mint(client, 3001);
    let t = escrow.fund_job(job_id, client).unwrap();
    env.settle(t);
    let t = escrow.resolve_dispute_callback(job_id, DisputeResolution::RefundBoth).unwrap();
    assert_eq!(
        t,
        vec![Transfer::release(token, client, 1500), Transfer::release(token, freelancer, 1501)],
    );
    env.settle(t);
    assert_eq!(env.held, 0);

    // Of a single unit the client gets nothing and the freelancer all.
    let job_id = escrow
        .create_job(
            client,
            freelancer,
            token,
            vec![task("One", 1, 2000)],
            3000,
            GRACE_PERIOD,
            env.now,
        )
        .unwrap();
    env.mint(client, 1);
    let t = escrow.fund_job(job_id, client).unwrap();
    env.settle(t);
    let t = escrow.resolve_dispute_callback(job_id, DisputeResolution::RefundBoth).unwrap();
    assert_eq!(
        t,
        vec![Transfer::release(token, client, 0), Transfer::release(token, freelancer, 1)],
    );
    env.settle(t);
    assert_eq!(env.held, 0);
    assert_eq!(escrow.get_job(job_id).unwrap().status, JobStatus::Cancelled);
}

#[test]
fn escalation_moves_nothing_and_settlement_happens_once() {
    let mut env = Env::default();
    let (mut escrow, client, _freelancer, job_id) = funded_job(&mut env);

    let t = escrow.resolve_dispute_callback(job_id, DisputeResolution::Escalate).unwrap();
    assert!(t.is_empty());
    assert_eq!(escrow.get_job(job_id).unwrap().status, JobStatus::Funded);
    assert_eq!(escrow.can_settle(job_id), Ok(()));

    let t = escrow.resolve_dispute_callback(job_id, DisputeResolution::ClientWins).unwrap();
    env.settle(t);
    assert_eq!(env.balance(client), 3000);
    assert_eq!(escrow.can_settle(job_id), Err(EscrowError::InvalidStatus));
    assert_eq!(
        escrow.resolve_dispute_callback(job_id, DisputeResolution::ClientWins),
        Err(EscrowError::InvalidStatus)
    );
    assert_eq!(
        escrow.resolve_dispute_callback(9, DisputeResolution::ClientWins),
        Err(EscrowError::JobNotFound),
    );
}

#[test]
fn job_that_is_not_funded_is_not_settled_and_cancels_without_refund() {
    let mut env = Env::default();
    let (mut escrow, token) = setup_refund_env(&mut env);
    let client = env.generate();
    let freelancer = env.generate();
    let job_id = escrow
        .create_job(
            client,
            freelancer,
            token,
            default_milestones(),
            JOB_DEADLINE,
            GRACE_PERIOD,
            env.now,
        )
        .unwrap();

    assert_eq!(
        escrow.resolve_dispute_callback(job_id, DisputeResolution::FreelancerWins),
        Err(EscrowError::InvalidStatus)
    );
    assert_eq!(escrow.cancel_job(job_id, freelancer), Err(EscrowError::Unauthorized));
    let t = escrow.cancel_job(job_id, client).unwrap();
    assert!(t.is_empty());
    assert_eq!(escrow.get_job(job_id).unwrap().status, JobStatus::Cancelled);
    assert_eq!(escrow.cancel_job(job_id, client), Err(EscrowError::InvalidStatus));
    assert_eq!(escrow.fund_job(job_id, client), Err(EscrowError::AlreadyFunded));
}

#[test]
fn funding_is_for_the_client_and_happens_once() {
    let mut env = Env::default();
    let (mut escrow, client, freelancer, job_id) = funded_job(&mut env);
    assert_eq!(escrow.fund_job(job_id, client), Err(EscrowError::AlreadyFunded));
    assert_eq!(EscrowError::AlreadyFunded.code(), 6);
    assert_eq!(escrow.fund_job(job_id, freelancer), Err(EscrowError::Unauthorized));
    assert_eq!(escrow.fund_job(7, client), Err(EscrowError::JobNotFound));
    assert_eq!(escrow.fund_job(0, client), Err(EscrowError::JobNotFound));
    assert_eq!(EscrowError::JobNotFound.code(), 1);
    assert_eq!(escrow.get_job(7).err(), Some(EscrowError::JobNotFound));
}

#[test]
fn job_deadline_and_milestone_deadlines_are_held_to_the_window() {
    let mut env = Env::default();
    env.now = 1000;
    let mut escrow = EscrowContract::new();
    let client = env.generate();
    let freelancer = env.generate();
    let token = env.generate();
    let mut create = |deadline: u64, job_deadline: u64| {
        escrow.create_job(
            client,
            freelancer,
            token,
            vec![task("Task", 100, deadline)],
            job_deadline,
            GRACE_PERIOD,
            1000,
        )
    };
    // The job's deadline is the time itself.
    assert_eq!(create(1000, 1000), Err(EscrowError::InvalidDeadline));
    // The milestone's deadline is the time itself.
    assert_eq!(create(1000, 2000), Err(EscrowError::InvalidDeadline));
    // The milestone's deadline is after the job's.
    assert_eq!(create(2001, 2000), Err(EscrowError::InvalidDeadline));
    // The milestone's deadline may be the job's.
    assert_eq!(create(2000, 2000), Ok(1));
    assert_eq!(create(1001, 1001), Ok(2));
}

#[test]
fn milestone_waits_for_submission_before_approval() {
    let mut env = Env::default();
    let (mut escrow, client, freelancer, job_id) = funded_job(&mut env);

    assert_eq!(escrow.approve_milestone(job_id, 0, client), Err(EscrowError::InvalidStatus));
    assert_eq!(escrow.approve_milestone(job_id, 3, client), Err(EscrowError::MilestoneNotFound));
    assert_eq!(escrow.approve_milestone(job_id, 0, freelancer), Err(EscrowError::Unauthorized));
    assert_eq!(escrow.submit_milestone(job_id, 0, client, env.now), Err(EscrowError::Unauthorized));
    assert_eq!(
        escrow.submit_milestone(job_id, 3, freelancer, env.now),
        Err(EscrowError::MilestoneNotFound),
    );

    // At its deadline a milestone can still be submitted, a second later not.
    assert_eq!(
        escrow.submit_milestone(job_id, 0, freelancer, 500_001),
        Err(EscrowError::MilestoneDeadlineExceeded),
    );
    assert_eq!(escrow.submit_milestone(job_id, 0, freelancer, 500_000), Ok(()));
    assert_eq!(
        escrow.submit_milestone(job_id, 0, freelancer, env.now),
        Err(EscrowError::InvalidStatus),
    );
    assert!(!escrow.is_milestone_overdue(job_id, 0, 500_000));
    assert!(escrow.is_milestone_overdue(job_id, 0, 500_001));
    assert!(!escrow.is_milestone_overdue(job_id, 5, u64::MAX));
    assert!(!escrow.is_milestone_overdue(9, 0, u64::MAX));

    let t = escrow.approve_milestone(job_id, 0, client).unwrap();
    env.settle(t);
    assert_eq!(escrow.approve_milestone(job_id, 0, client), Err(EscrowError::InvalidStatus));
    assert_eq!(
        escrow.submit_milestone(job_id, 0, freelancer, env.now),
        Err(EscrowError::InvalidStatus),
    );
}

#[test]
fn job_without_milestones_has_no_refund_due() {
    let mut env = Env::default();
    let (mut escrow, token) = setup_refund_env(&mut env);
    let client = env.generate();
    let freelancer = env.generate();
    let job_id = escrow.create_job(
        client,
        freelancer,
        token,
        vec![],
        JOB_DEADLINE,
        GRACE_PERIOD,
        env.now,
    ).unwrap();
    assert_eq!(escrow.get_job(job_id).unwrap().total_amount, 0);
    let t = escrow.fund_job(job_id, client).unwrap();
    env.settle(t);

    // The grace period ends at the deadline plus the period, that second included.
    assert_eq!(
        escrow.claim_refund(job_id, client, JOB_DEADLINE + GRACE_PERIOD - 1),
        Err(EscrowError::GracePeriodNotMet)
    );
    assert_eq!(
        escrow.claim_refund(job_id, client, JOB_DEADLINE + GRACE_PERIOD),
        Err(EscrowError::NoRefundDue),
    );
    assert_eq!(EscrowError::NoRefundDue.code(), 10);
}

#[test]
fn grace_period_beyond_the_clock_never_ends() {
    let mut env = Env::default();
    let (mut escrow, token) = setup_refund_env(&mut env);
    let client = env.generate();
    let freelancer = env.generate();
    let job_id = escrow
        .create_job(
            client,
            freelancer,
            token,
            vec![task("Task", 10, u64::MAX)],
            u64::MAX,
            u64::MAX,
            env.now,
        )
        .unwrap();
    escrow.fund_job(job_id, client).unwrap();
    assert_eq!(escrow.claim_refund(job_id, client, u64::MAX), Err(EscrowError::GracePeriodNotMet));
}

#[test]
fn revision_is_answered_once_by_the_other_party() {
    let mut env = Env::default();
    let (mut escrow, client, freelancer, job_id) = funded_job(&mut env);
    let outsider = env.generate();

    assert_eq!(escrow.accept_revision(client, job_id), Err(EscrowError::RevisionProposalNotFound));
    assert_eq!(escrow.reject_revision(client, job_id), Err(EscrowError::RevisionProposalNotFound));
    assert_eq!(EscrowError::RevisionProposalNotFound.code(), 18);
    assert_eq!(escrow.accept_revision(client, 9), Err(EscrowError::JobNotFound));
    assert!(escrow.get_revision_proposal(job_id).is_none());
    assert!(escrow.get_revision_proposal(9).is_none());

    escrow.propose_revision(client, job_id, vec![pending(0, "All", 2000)], 77).unwrap();
    assert_eq!(escrow.get_revision_proposal(job_id).unwrap().created_at, 77);
    assert_eq!(
        escrow.reject_revision(client, job_id),
        Err(EscrowError::NotAuthorizedForProposalAction),
    );
    assert_eq!(
        escrow.accept_revision(outsider, job_id),
        Err(EscrowError::NotAuthorizedForProposalAction),
    );

    let transfers = escrow.accept_revision(freelancer, job_id).unwrap();
    assert_eq!(transfers, vec![Transfer::release(Address::contract(0, 7), client, 1000)]);
    env.settle(transfers);
    assert_eq!(env.balance(client), 1000);
    let job = escrow.get_job(job_id).unwrap();
    assert_eq!(job.total_amount, 2000);
    assert_eq!(job.milestones, vec![pending(0, "All", 2000)]);
    assert_eq!(job.status, JobStatus::Funded);
    assert_eq!(escrow.get_revision_proposal(job_id).unwrap().status, ProposalStatus::Accepted);

    assert_eq!(escrow.accept_revision(freelancer, job_id), Err(EscrowError::ProposalNotPending));
    assert_eq!(escrow.reject_revision(freelancer, job_id), Err(EscrowError::ProposalNotPending));
    assert_eq!(EscrowError::ProposalNotPending.code(), 20);
}

#[test]
fn proposal_with_an_amount_or_a_total_that_is_not_positive_is_refused() {
    let mut env = Env::default();
    let (mut escrow, client, freelancer, job_id) = funded_job(&mut env);
    let before = escrow.get_job(job_id).unwrap();
    let mut refused = |amounts: &[i128]| {
        let list = amounts.iter().enumerate().map(|(i, a)| pending(i as u32, "New", *a)).collect();
        assert_eq!(
            escrow.propose_revision(client, job_id, list, env.now),
            Err(EscrowError::ProposalTotalMismatch)
        );
        assert!(escrow.get_revision_proposal(job_id).is_none());
    };
    // The total is nothing, or less.
    refused(&[0]);
    refused(&[-1]);
    refused(&[5, -5]);
    refused(&[5, -6]);
    refused(&[i128::MIN, i128::MIN]);
    // The total is positive, but not every amount.
    refused(&[5, -1]);
    refused(&[0, 7]);
    refused(&[i128::MAX, i128::MIN, 3]);

    // The job is as it was, and a proposal of positive amounts is taken.
    assert_eq!(escrow.get_job(job_id).unwrap(), before);
    escrow.propose_revision(freelancer, job_id, vec![pending(0, "New", 1)], env.now).unwrap();
    assert_eq!(escrow.get_revision_proposal(job_id).unwrap().new_total, 1);
}

#[test]
fn proposal_whose_total_is_no_amount_is_refused() {
    let mut env = Env::default();
    let (mut escrow, client, _freelancer, job_id) = funded_job(&mut env);
    let result = escrow.propose_revision(
        client,
        job_id,
        vec![pending(0, "Most", i128::MAX), pending(1, "More", 1)],
        env.now,
    );
    assert_eq!(result, Err(EscrowError::ProposalTotalMismatch));
    assert_eq!(EscrowError::ProposalTotalMismatch.code(), 22);
    assert!(escrow.get_revision_proposal(job_id).is_none());
    assert_eq!(
        escrow.propose_revision(client, 9, vec![pending(0, "New", 1)], env.now),
        Err(EscrowError::JobNotFound),
    );
    escrow.propose_revision(client, job_id, vec![pending(0, "Most", i128::MAX)], env.now).unwrap();
    assert_eq!(escrow.get_revision_proposal(job_id).unwrap().new_total, i128::MAX);
}

#[test]
fn administration_needs_the_administrator() {
    let mut env = Env::default();
    let mut escrow = EscrowContract::new();
    let admin = env.generate();
    let treasury = env.generate();

    assert_eq!(escrow.set_fee_bps(10), Err(EscrowError::Unauthorized));
    assert_eq!(escrow.set_treasury(treasury), Err(EscrowError::Unauthorized));
    assert_eq!(escrow.pause(admin), Err(EscrowError::NotAdmin));
    assert_eq!(escrow.unpause(admin), Err(EscrowError::NotAdmin));
    assert_eq!(escrow.initialize(admin, treasury, 1001), Err(EscrowError::InvalidStatus));
    assert_eq!(escrow.initialize(admin, treasury, 1000), Ok(()));
    assert_eq!(escrow.initialize(admin, treasury, 1), Err(EscrowError::AlreadyInitialized));
    assert_eq!(EscrowError::AlreadyInitialized.code(), 14);
    assert_eq!(escrow.set_fee_bps(1001), Err(EscrowError::InvalidStatus));
    assert_eq!(escrow.set_fee_bps(1000), Ok(()));
    assert_eq!(escrow.unpause(treasury), Err(EscrowError::NotAdmin));
}

#[test]
fn pause_stops_cancellation_batches_and_settlement_but_not_revisions() {
    let mut env = Env::default();
    let mut escrow = EscrowContract::new();
    let admin = env.generate();
    escrow.initialize(admin, admin, 0).unwrap();
    let client = env.generate();
    let freelancer = env.generate();
    let token = env.generate();
    let job_id = escrow
        .create_job(
            client,
            freelancer,
            token,
            vec![task("Task", 100, 2000)],
            2500,
            GRACE_PERIOD,
            env.now,
        )
        .unwrap();
    escrow.fund_job(job_id, client).unwrap();
    escrow.pause(admin).unwrap();

    assert_eq!(escrow.cancel_job(job_id, client), Err(EscrowError::ContractPaused));
    assert_eq!(
        escrow.approve_milestones_batch(job_id, vec![0], client),
        Err(EscrowError::ContractPaused),
    );
    assert_eq!(
        escrow.resolve_dispute_callback(job_id, DisputeResolution::ClientWins),
        Err(EscrowError::ContractPaused)
    );
    assert_eq!(escrow.can_settle(job_id), Err(EscrowError::ContractPaused));
    assert_eq!(
        escrow.propose_revision(client, job_id, vec![pending(0, "New", 50)], env.now),
        Ok(()),
    );
    assert_eq!(escrow.reject_revision(freelancer, job_id), Ok(()));
}

#[test]
fn errors_that_no_operation_gives_keep_their_numbers() {
    assert_eq!(EscrowError::InsufficientFunds.code(), 5);
    assert_eq!(EscrowError::InvalidMilestoneIndex.code(), 12);
    assert_eq!(EscrowError::TokenNotAllowed.code(), 13);
    assert_eq!(EscrowError::InsufficientTopUp.code(), 21);
}

#[test]
fn extended_deadline_lets_a_late_milestone_in() {
    let mut env = Env::default();
    let (mut escrow, _client, freelancer, job_id) = funded_job(&mut env);
    env.now = 600_000;
    assert_eq!(
        escrow.submit_milestone(job_id, 0, freelancer, env.now),
        Err(EscrowError::MilestoneDeadlineExceeded),
    );
    assert_eq!(
        escrow.extend_deadline(job_id, 0, 600_000, env.now),
        Err(EscrowError::InvalidDeadline),
    );
    assert_eq!(
        escrow.extend_deadline(job_id, 3, 700_000, env.now),
        Err(EscrowError::MilestoneNotFound),
    );
    assert_eq!(escrow.extend_deadline(9, 0, 700_000, env.now), Err(EscrowError::JobNotFound));
    escrow.extend_deadline(job_id, 0, 700_000, env.now).unwrap();
    assert_eq!(escrow.submit_milestone(job_id, 0, freelancer, env.now), Ok(()));
}
