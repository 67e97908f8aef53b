use std::collections::HashMap;
use stellar_market::account::{Address, Flow, Transfer};
use stellar_market::dispute::model::{
    DisputeContract, DisputeError, DisputeStatus, VoteChoice,
};

/// The clock, the principals and one asset with its balances; `held` is what
/// the registry has in custody.
struct Env {
    next: u128,
    now: u64,
    sequence: u32,
    balances: HashMap<Address, i128>,
    held: i128,
}

impl Env {
    fn generate(&mut self) -> Address {
        self.next += 1;
        Address::account(0, self.next)
    }

    fn mint(&mut self, to: Address, amount: i128) {
        *self.balances.entry(to).or_insert(0) += amount;
    }

    fn balance(&self, who: Address) -> i128 {
        *self.balances.get(&who).unwrap_or(&0)
    }

    /// Carries the transfers out, as the asset would: no amount below zero,
    /// no balance below zero.
    fn settle(&mut self, transfers: Vec<Transfer>) {
        for t in transfers {
            assert!(t.amount >= 0, "negative amount");
            match t.flow {
                Flow::Deposit => {
                    let from = self.balances.entry(t.party).or_insert(0);
                    assert!(*from >= t.amount, "balance is not sufficient");
                    *from -= t.amount;
                    self.held += t.amount;
                }
                Flow::Release => {
                    assert!(self.held >= t.amount, "custody is not sufficient");
                    self.held -= t.amount;
                    *self.balances.entry(t.party).or_insert(0) += t.amount;
                }
            }
        }
    }

    /// One vote of `voter`.
    fn vote(
        &self,
        registry: &mut DisputeContract,
        id: u64,
        voter: Address,
        choice: VoteChoice,
        reason: &str,
    ) {
        registry.cast_vote(id, voter, choice, reason.to_string(), self.now).unwrap();
    }

    /// `count` votes of new voters for `choice`.
    fn votes(
        &mut self,
        registry: &mut DisputeContract,
        id: u64,
        count: u32,
        choice: VoteChoice,
        reason: &str,
    ) {
        for _ in 0..count {
            let voter = self.generate();
            self.vote(registry, id, voter, choice, reason);
        }
    }

    /// Resolves the dispute and carries its transfers out.
    fn resolve(
        &mut self,
        registry: &mut DisputeContract,
        id: u64,
        malicious: bool,
    ) -> DisputeStatus {
        let resolution = registry.resolve_dispute(id, malicious, self.now, self.sequence).unwrap();
        self.settle(resolution.transfers);
        resolution.status
    }

    /// Claims the reward of `voter` and pays it.
    fn claim(&mut self, registry: &mut DisputeContract, id: u64, voter: Address) -> i128 {
        let (reward, transfers) = registry.claim_voter_reward(id, voter).unwrap();
        self.settle(transfers);
        reward
    }

    /// Raises a dispute with `min_votes` of 3 and no stake, and takes the fee.
    fn raise(
        &mut self,
        registry: &mut DisputeContract,
        client: Address,
        freelancer: Address,
        initiator: Address,
        reason: &str,
        fee: i128,
        token: Address,
    ) -> u64 {
        let (id, transfers) = registry
            .raise_dispute(
                1,
                client,
                freelancer,
                initiator,
                reason.to_string(),
                3,
                fee,
                token,
                0,
                self.now,
            )
            .unwrap();
        self.settle(transfers);
        id
    }
}

/// A registry with an administrator and a threshold of 80, and the asset.
fn setup_env() -> (Env, DisputeContract, Address, Address) {
    let mut env = Env { next: 1, now: 0, sequence: 0, balances: HashMap::new(), held: 0 };
    let mut registry = DisputeContract::new();
    let admin = env.generate();
    registry.initialize(admin, 80).unwrap();
    let token = Address::contract(0, 7);
    (env, registry, token, admin)
}

// ---- Core dispute tests ----

#[test]
fn test_raise_dispute() {
    let (mut env, mut client, token_id, _admin) = setup_env();

    let user_client = env.generate();
    let freelancer = env.generate();
    env.mint(user_client, 1000);

    let (dispute_id, transfers) = client
        .raise_dispute(
            1,
            user_client,
            freelancer,
            user_client,
            "Work not delivered".to_string(),
            3,
            100,
            token_id,
            0,
            env.now,
        )
        .unwrap();
    env.settle(transfers);

    assert_eq!(dispute_id, 1);

    let dispute = client.get_dispute(dispute_id).unwrap();
    assert_eq!(dispute.job_id, 1);
    assert_eq!(dispute.status, DisputeStatus::Open);
    assert_eq!(dispute.min_votes, 3);
    assert_eq!(dispute.appeal_count, 0);
    assert_eq!(dispute.max_appeals, 2);
    assert_eq!(dispute.dispute_fee, 100);
    assert_eq!(dispute.malicious, false);

    // The fee went into custody
    assert_eq!(env.balance(user_client), 900);
    assert_eq!(env.held, 100);
}

#[test]
fn test_vote_and_resolve() {
    let (mut env, mut client, token_id, _admin) = setup_env();

    let user_client = env.generate();
    let freelancer = env.generate();
    env.mint(freelancer, 1000);

    let dispute_id =
        env.raise(
            &mut client,
            user_client,
            freelancer,
            freelancer,
            "Payment not released",
            100,
            token_id,
        );

    let voter1 = env.generate();
    let voter2 = env.generate();
    let voter3 = env.generate();

    env.vote(&mut client, dispute_id, voter1, VoteChoice::Freelancer, "Work was done");
    env.vote(&mut client, dispute_id, voter2, VoteChoice::Freelancer, "Agree with freelancer");
    env.vote(&mut client, dispute_id, voter3, VoteChoice::Client, "Incomplete work");

    let result = env.resolve(&mut client, dispute_id, false);
    assert_eq!(result, DisputeStatus::ResolvedForFreelancer);

    // The fee is still held for the rewards of the voters
    assert_eq!(env.held, 100);
}

#[test]
fn test_malicious_dispute_penalty() {
    let (mut env, mut client, token_id, _admin) = setup_env();

    let user_client = env.generate();
    let freelancer = env.generate();
    let penalty_amount = 1000i128;

    // Mint tokens to freelancer (initiator)
    env.mint(freelancer, penalty_amount);

    let (dispute_id, transfers) = client
        .raise_dispute(
            1,
            user_client,
            freelancer,
            freelancer,
            "Malicious dispute".to_string(),
            3,
            0,
            token_id,
            penalty_amount,
            env.now,
        )
        .unwrap();
    env.settle(transfers);

    assert_eq!(env.balance(freelancer), 0);
    assert_eq!(env.held, penalty_amount);

    // 3 voters: all for client (100% against freelancer)
    env.votes(&mut client, dispute_id, 3, VoteChoice::Client, "Frivolous");

    env.resolve(&mut client, dispute_id, false);

    assert!(client.is_malicious_dispute(dispute_id).unwrap());

    // Penalty should go to the winner (client)
    assert_eq!(env.balance(user_client), penalty_amount);
    assert_eq!(env.balance(freelancer), 0);
}

#[test]
fn test_resolve_without_enough_votes() {
    let (mut env, mut client, token_id, _admin) = setup_env();

    let user_client = env.generate();
    let freelancer = env.generate();

    let dispute_id = env.raise(
        &mut client,
        user_client,
        freelancer,
        user_client,
        "Issue",
        0,
        token_id,
    );

    let voter = env.generate();
    env.vote(&mut client, dispute_id, voter, VoteChoice::Client, "Reason");

    let result = client.resolve_dispute(dispute_id, false, env.now, env.sequence);
    assert_eq!(result.err(), Some(DisputeError::NotEnoughVotes));
}

// ---- Voter reward tests ----

#[test]
fn test_claim_voter_reward_proportional() {
    let (mut env, mut client, token_id, _admin) = setup_env();

    let user_client = env.generate();
    let freelancer = env.generate();
    env.mint(user_client, 1000);

    let dispute_id = env.raise(
        &mut client,
        user_client,
        freelancer,
        user_client,
        "Bad work",
        100,
        token_id,
    );

    let voter1 = env.generate();
    let voter2 = env.generate();
    let voter3 = env.generate();

    // 2 vote for client, 1 for freelancer
    env.vote(&mut client, dispute_id, voter1, VoteChoice::Client, "r1");
    env.vote(&mut client, dispute_id, voter2, VoteChoice::Client, "r2");
    env.vote(&mut client, dispute_id, voter3, VoteChoice::Freelancer, "r3");

    env.resolve(&mut client, dispute_id, false);

    // Each winning voter (voter1, voter2) should get 100/2 = 50
    let reward1 = env.claim(&mut client, dispute_id, voter1);
    assert_eq!(reward1, 50);

    let reward2 = env.claim(&mut client, dispute_id, voter2);
    assert_eq!(reward2, 50);

    assert_eq!(env.balance(voter1), 50);
    assert_eq!(env.balance(voter2), 50);
    assert_eq!(env.held, 0);
}

#[test]
fn test_get_claimable_reward() {
    let (mut env, mut client, token_id, _admin) = setup_env();

    let user_client = env.generate();
    let freelancer = env.generate();
    env.mint(user_client, 1000);

    let dispute_id = env.raise(
        &mut client,
        user_client,
        freelancer,
        user_client,
        "Bad work",
        90,
        token_id,
    );

    let voter1 = env.generate();
    let voter2 = env.generate();
    let voter3 = env.generate();
    let non_voter = env.generate();

    env.vote(&mut client, dispute_id, voter1, VoteChoice::Client, "r");
    env.vote(&mut client, dispute_id, voter2, VoteChoice::Client, "r");
    env.vote(&mut client, dispute_id, voter3, VoteChoice::Freelancer, "r");

    // Before resolution, should return 0
    assert_eq!(client.get_claimable_reward(dispute_id, voter1), 0);

    env.resolve(&mut client, dispute_id, false);

    // Winning voter gets 90/2 = 45
    assert_eq!(client.get_claimable_reward(dispute_id, voter1), 45);
    assert_eq!(client.get_claimable_reward(dispute_id, voter2), 45);

    // Losing voter gets 0
    assert_eq!(client.get_claimable_reward(dispute_id, voter3), 0);

    // Non-voter gets 0
    assert_eq!(client.get_claimable_reward(dispute_id, non_voter), 0);

    // After claiming, should return 0
    env.claim(&mut client, dispute_id, voter1);
    assert_eq!(client.get_claimable_reward(dispute_id, voter1), 0);
}

/// A dispute with a fee of `fee`, raised by the client, with two votes for
/// the client and one for the freelancer. Returns the three voters.
fn two_to_one(env: &mut Env, client: &mut DisputeContract, token_id: Address, fee: i128) -> (
    u64,
    Address,
    Address,
    Address,
) {
    let user_client = env.generate();
    let freelancer = env.generate();
    env.mint(user_client, 1000);
    let dispute_id = env.raise(
        client,
        user_client,
        freelancer,
        user_client,
        "Bad work",
        fee,
        token_id,
    );
    let voter1 = env.generate();
    let voter2 = env.generate();
    let voter3 = env.generate();
    env.vote(client, dispute_id, voter1, VoteChoice::Client, "r");
    env.vote(client, dispute_id, voter2, VoteChoice::Client, "r");
    env.vote(client, dispute_id, voter3, VoteChoice::Freelancer, "r");
    (dispute_id, voter1, voter2, voter3)
}

#[test]
fn test_double_claim_prevented() {
    let (mut env, mut client, token_id, _admin) = setup_env();
    let (dispute_id, voter1, _voter2, _voter3) = two_to_one(&mut env, &mut client, token_id, 90);

    env.resolve(&mut client, dispute_id, false);

    env.claim(&mut client, dispute_id, voter1); // First claim OK
    let second = client.claim_voter_reward(dispute_id, voter1); // Double claim is refused
    assert_eq!(second, Err(DisputeError::AlreadyClaimed));
    assert_eq!(DisputeError::AlreadyClaimed.code(), 14);
}

#[test]
fn test_losing_voter_cannot_claim() {
    let (mut env, mut client, token_id, _admin) = setup_env();
    let (dispute_id, _voter1, _voter2, voter3) = two_to_one(&mut env, &mut client, token_id, 90);

    env.resolve(&mut client, dispute_id, false);

    // voter3 voted for freelancer but client won
    let result = client.claim_voter_reward(dispute_id, voter3);
    assert_eq!(result, Err(DisputeError::NotWinningVoter));
    assert_eq!(DisputeError::NotWinningVoter.code(), 13);
}

#[test]
fn test_claim_before_resolution_fails() {
    let (mut env, mut client, token_id, _admin) = setup_env();

    let user_client = env.generate();
    let freelancer = env.generate();
    env.mint(user_client, 1000);

    let dispute_id = env.raise(
        &mut client,
        user_client,
        freelancer,
        user_client,
        "Bad work",
        90,
        token_id,
    );

    let voter1 = env.generate();
    env.vote(&mut client, dispute_id, voter1, VoteChoice::Client, "r");

    // Try to claim before resolution
    let result = client.claim_voter_reward(dispute_id, voter1);
    assert_eq!(result, Err(DisputeError::DisputeNotResolved));
    assert_eq!(DisputeError::DisputeNotResolved.code(), 12);
}

#[test]
fn test_malicious_dispute_refunds_winning_party() {
    let (mut env, mut client, token_id, _admin) = setup_env();

    let user_client = env.generate();
    let freelancer = env.generate();
    env.mint(user_client, 1000);

    let dispute_id = env.raise(
        &mut client,
        user_client,
        freelancer,
        user_client,
        "False claim",
        100,
        token_id,
    );

    let voter1 = env.generate();
    let voter2 = env.generate();
    let voter3 = env.generate();

    env.vote(&mut client, dispute_id, voter1, VoteChoice::Freelancer, "r");
    env.vote(&mut client, dispute_id, voter2, VoteChoice::Freelancer, "r");
    env.vote(&mut client, dispute_id, voter3, VoteChoice::Client, "r");

    // Freelancer wins (dispute was malicious)
    let result = env.resolve(&mut client, dispute_id, true);
    assert_eq!(result, DisputeStatus::ResolvedForFreelancer);

    // Fee refunded to freelancer (winning/victim party)
    assert_eq!(env.balance(freelancer), 100);
    assert_eq!(env.held, 0);

    // Dispute marked as malicious
    let dispute = client.get_dispute(dispute_id).unwrap();
    assert_eq!(dispute.malicious, true);
}

#[test]
fn test_claim_reward_on_malicious_dispute_fails() {
    let (mut env, mut client, token_id, _admin) = setup_env();

    let user_client = env.generate();
    let freelancer = env.generate();
    env.mint(user_client, 1000);

    let dispute_id = env.raise(
        &mut client,
        user_client,
        freelancer,
        user_client,
        "False claim",
        100,
        token_id,
    );

    let voter1 = env.generate();
    let voter2 = env.generate();
    let voter3 = env.generate();

    env.vote(&mut client, dispute_id, voter1, VoteChoice::Freelancer, "r");
    env.vote(&mut client, dispute_id, voter2, VoteChoice::Freelancer, "r");
    env.vote(&mut client, dispute_id, voter3, VoteChoice::Client, "r");

    env.resolve(&mut client, dispute_id, true);

    // Winning voter tries to claim on malicious dispute: no reward available
    let result = client.claim_voter_reward(dispute_id, voter1);
    assert_eq!(result, Err(DisputeError::NoRewardAvailable));
    assert_eq!(DisputeError::NoRewardAvailable.code(), 15);
}

#[test]
fn test_zero_fee_dispute() {
    let (mut env, mut client, token_id, _admin) = setup_env();

    let user_client = env.generate();
    let freelancer = env.generate();

    let dispute_id = env.raise(
        &mut client,
        user_client,
        freelancer,
        user_client,
        "No fee",
        0,
        token_id,
    );

    let voter1 = env.generate();
    let voter2 = env.generate();
    let voter3 = env.generate();

    env.vote(&mut client, dispute_id, voter1, VoteChoice::Client, "r");
    env.vote(&mut client, dispute_id, voter2, VoteChoice::Client, "r");
    env.vote(&mut client, dispute_id, voter3, VoteChoice::Freelancer, "r");

    env.resolve(&mut client, dispute_id, false);

    // Claimable reward should be 0
    assert_eq!(client.get_claimable_reward(dispute_id, voter1), 0);
}

#[test]
fn test_single_winning_voter_gets_full_fee() {
    let (mut env, mut client, token_id, _admin) = setup_env();

    let user_client = env.generate();
    let freelancer = env.generate();
    env.mint(user_client, 1000);

    let dispute_id = env.raise(
        &mut client,
        user_client,
        freelancer,
        user_client,
        "Issue",
        100,
        token_id,
    );

    let voter1 = env.generate();
    let voter2 = env.generate();
    let voter3 = env.generate();

    // All 3 vote for client -> client wins, all 3 share equally
    env.vote(&mut client, dispute_id, voter1, VoteChoice::Client, "r");
    env.vote(&mut client, dispute_id, voter2, VoteChoice::Client, "r");
    env.vote(&mut client, dispute_id, voter3, VoteChoice::Client, "r");

    env.resolve(&mut client, dispute_id, false);

    // All 3 are winners: 100/3 = 33 each (integer division)
    let reward = env.claim(&mut client, dispute_id, voter1);
    assert_eq!(reward, 33);
    assert_eq!(env.balance(voter1), 33);
}

// ---- Appeal system tests ----

#[test]
fn test_appeal_by_losing_party() {
    let (mut env, mut client, token_id, _admin) = setup_env();

    let user_client = env.generate();
    let freelancer = env.generate();

    let dispute_id = env.raise(
        &mut client,
        user_client,
        freelancer,
        user_client,
        "Issue",
        0,
        token_id,
    );

    let voter1 = env.generate();
    let voter2 = env.generate();
    let voter3 = env.generate();

    env.vote(&mut client, dispute_id, voter1, VoteChoice::Freelancer, "Good work");
    env.vote(&mut client, dispute_id, voter2, VoteChoice::Freelancer, "Agree");
    env.vote(&mut client, dispute_id, voter3, VoteChoice::Client, "Disagree");

    let result = env.resolve(&mut client, dispute_id, false);
    assert_eq!(result, DisputeStatus::ResolvedForFreelancer);

    // Client (losing party) appeals
    client.raise_appeal(dispute_id, user_client, env.sequence).unwrap();

    let dispute = client.get_dispute(dispute_id).unwrap();
    assert_eq!(dispute.status, DisputeStatus::Appealed);
    assert_eq!(dispute.appeal_count, 1);
    assert_eq!(dispute.votes_for_client, 0);
    assert_eq!(dispute.votes_for_freelancer, 0);
}

#[test]
fn test_appeal_requires_double_votes() {
    let (mut env, mut client, token_id, _admin) = setup_env();

    let user_client = env.generate();
    let freelancer = env.generate();

    let dispute_id = env.raise(
        &mut client,
        user_client,
        freelancer,
        user_client,
        "Issue",
        0,
        token_id,
    );

    // First round: 3 votes needed
    let voter1 = env.generate();
    let voter2 = env.generate();
    let voter3 = env.generate();

    env.vote(&mut client, dispute_id, voter1, VoteChoice::Freelancer, "Vote 1");
    env.vote(&mut client, dispute_id, voter2, VoteChoice::Freelancer, "Vote 2");
    env.vote(&mut client, dispute_id, voter3, VoteChoice::Client, "Vote 3");

    env.resolve(&mut client, dispute_id, false);

    // Client appeals
    client.raise_appeal(dispute_id, user_client, env.sequence).unwrap();

    // Second round: 6 votes needed (3 * 2^1)
    let voter4 = env.generate();
    let voter5 = env.generate();
    let voter6 = env.generate();
    let voter7 = env.generate();
    let voter8 = env.generate();
    let voter9 = env.generate();

    env.vote(&mut client, dispute_id, voter4, VoteChoice::Client, "Appeal vote 1");
    env.vote(&mut client, dispute_id, voter5, VoteChoice::Client, "Appeal vote 2");
    env.vote(&mut client, dispute_id, voter6, VoteChoice::Client, "Appeal vote 3");
    env.vote(&mut client, dispute_id, voter7, VoteChoice::Client, "Appeal vote 4");
    env.vote(&mut client, dispute_id, voter8, VoteChoice::Freelancer, "Appeal vote 5");
    env.vote(&mut client, dispute_id, voter9, VoteChoice::Freelancer, "Appeal vote 6");

    // Should succeed with 6 votes
    let result = env.resolve(&mut client, dispute_id, false);
    assert_eq!(result, DisputeStatus::ResolvedForClient);
}

#[test]
fn test_appeal_by_winning_party_fails() {
    let (mut env, mut client, token_id, _admin) = setup_env();

    let user_client = env.generate();
    let freelancer = env.generate();

    let dispute_id = env.raise(
        &mut client,
        user_client,
        freelancer,
        user_client,
        "Issue",
        0,
        token_id,
    );

    let voter1 = env.generate();
    let voter2 = env.generate();
    let voter3 = env.generate();

    env.vote(&mut client, dispute_id, voter1, VoteChoice::Freelancer, "Vote 1");
    env.vote(&mut client, dispute_id, voter2, VoteChoice::Freelancer, "Vote 2");
    env.vote(&mut client, dispute_id, voter3, VoteChoice::Client, "Vote 3");

    env.resolve(&mut client, dispute_id, false);

    // Freelancer (winning party) tries to appeal
    let result = client.raise_appeal(dispute_id, freelancer, env.sequence);
    assert_eq!(result, Err(DisputeError::NotLosingParty));
    assert_eq!(DisputeError::NotLosingParty.code(), 10);
}

#[test]
fn test_max_appeals_reached() {
    let (mut env, mut client, token_id, _admin) = setup_env();

    let user_client = env.generate();
    let freelancer = env.generate();

    let dispute_id = env.raise(
        &mut client,
        user_client,
        freelancer,
        user_client,
        "Issue",
        0,
        token_id,
    );

    // First resolution
    env.votes(&mut client, dispute_id, 3, VoteChoice::Freelancer, "V1");
    env.resolve(&mut client, dispute_id, false);

    // First appeal
    client.raise_appeal(dispute_id, user_client, env.sequence).unwrap();
    env.votes(&mut client, dispute_id, 6, VoteChoice::Freelancer, "Vote");
    env.resolve(&mut client, dispute_id, false);

    // Second appeal
    client.raise_appeal(dispute_id, user_client, env.sequence).unwrap();
    env.votes(&mut client, dispute_id, 12, VoteChoice::Freelancer, "Vote");
    env.resolve(&mut client, dispute_id, false);

    // Third appeal fails (max_appeals = 2)
    let result = client.raise_appeal(dispute_id, user_client, env.sequence);
    assert_eq!(result, Err(DisputeError::MaxAppealsReached));
    assert_eq!(DisputeError::MaxAppealsReached.code(), 9);
}

#[test]
fn test_final_resolution_after_max_appeals() {
    let (mut env, mut client, token_id, _admin) = setup_env();

    let user_client = env.generate();
    let freelancer = env.generate();

    let dispute_id = env.raise(
        &mut client,
        user_client,
        freelancer,
        user_client,
        "Issue",
        0,
        token_id,
    );

    // First resolution
    env.votes(&mut client, dispute_id, 3, VoteChoice::Freelancer, "Vote");
    env.resolve(&mut client, dispute_id, false);

    // First appeal
    client.raise_appeal(dispute_id, user_client, env.sequence).unwrap();
    env.votes(&mut client, dispute_id, 6, VoteChoice::Freelancer, "Vote");
    env.resolve(&mut client, dispute_id, false);

    // Second appeal (last one allowed)
    client.raise_appeal(dispute_id, user_client, env.sequence).unwrap();
    env.votes(&mut client, dispute_id, 12, VoteChoice::Client, "Vote");

    // This should be final resolution
    let result = env.resolve(&mut client, dispute_id, false);
    assert_eq!(result, DisputeStatus::FinalResolution);

    let dispute = client.get_dispute(dispute_id).unwrap();
    assert_eq!(dispute.appeal_count, 2);
}

#[test]
fn test_appeal_before_resolution_fails() {
    let (mut env, mut client, token_id, _admin) = setup_env();

    let user_client = env.generate();
    let freelancer = env.generate();

    let dispute_id = env.raise(
        &mut client,
        user_client,
        freelancer,
        user_client,
        "Issue",
        0,
        token_id,
    );

    // Try to appeal before any resolution
    let result = client.raise_appeal(dispute_id, user_client, env.sequence);
    assert_eq!(result, Err(DisputeError::CannotAppealBeforeResolution));
    assert_eq!(DisputeError::CannotAppealBeforeResolution.code(), 11);
}

#[test]
fn test_appeal_after_deadline_fails() {
    let (mut env, mut client, token_id, _admin) = setup_env();

    let user_client = env.generate();
    let freelancer = env.generate();

    let dispute_id = env.raise(
        &mut client,
        user_client,
        freelancer,
        user_client,
        "Issue",
        0,
        token_id,
    );

    // Vote and resolve
    env.votes(&mut client, dispute_id, 3, VoteChoice::Freelancer, "Vote");
    env.resolve(&mut client, dispute_id, false);

    // Jump past appeal deadline (100 ledgers)
    env.sequence += 101;

    // Try to appeal after deadline
    let result = client.raise_appeal(dispute_id, user_client, env.sequence);
    assert_eq!(result, Err(DisputeError::AppealWindowExpired));
    assert_eq!(DisputeError::AppealWindowExpired.code(), 8);
}
