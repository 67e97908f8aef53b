use stellar_market::account::Address;
use stellar_market::escrow::model::{DisputeResolution, EscrowContract};
use stellar_market::reputation::{
    calculate_tier, JobFacts, ReputationContract, ReputationError, ReputationTier, Review,
};

// The stake that the reviews of these tests put.
const MIN_STAKE: i128 = 10_000_000;

struct Env {
    next: u128,
    now: u64,
}

impl Env {
    fn default() -> Env {
        Env { next: 1, now: 0 }
    }

    fn generate(&mut self) -> Address {
        self.next += 1;
        Address::account(0, self.next)
    }
}

fn token() -> Address {
    Address::contract(0, 7)
}

/// Creates a job with one milestone on the job ledger and funds it.
fn setup_in_progress_job(
    env: &Env,
    escrow: &mut EscrowContract,
    client: Address,
    freelancer: Address,
) -> u64 {
    let job_id = escrow
        .create_job(
            client,
            freelancer,
            token(),
            vec![("Task".to_string(), 100, 9999999999)],
            9999999999,
            86400,
            env.now,
        )
        .unwrap();
    escrow.fund_job(job_id, client).unwrap();
    job_id
}

/// Creates a job on the job ledger and completes it by the settlement of a
/// dispute for the freelancer.
fn setup_completed_job(
    env: &Env,
    escrow: &mut EscrowContract,
    client: Address,
    freelancer: Address,
) -> u64 {
    let job_id = setup_in_progress_job(env, escrow, client, freelancer);
    escrow.resolve_dispute_callback(job_id, DisputeResolution::FreelancerWins).unwrap();
    job_id
}

/// What the job ledger holds of the job, if anything.
fn facts(escrow: &EscrowContract, job_id: u64) -> Option<JobFacts> {
    escrow.get_job(job_id).ok().map(|job| JobFacts::of(&job))
}

/// Submits a review with the stake of these tests.
fn review(
    env: &Env,
    reputation: &mut ReputationContract,
    escrow: &EscrowContract,
    from: Address,
    to: Address,
    job_id: u64,
    rating: u32,
    comment: &str,
) -> Result<(), ReputationError> {
    reputation.submit_review(
        facts(escrow, job_id),
        from,
        to,
        job_id,
        rating,
        comment.to_string(),
        MIN_STAKE,
        env.now,
    )
}

#[test]
fn test_submit_review_client_reviews_freelancer() {
    let mut env = Env::default();
    let mut escrow = EscrowContract::new();
    let mut reputation_client = ReputationContract::new();

    let client_addr = env.generate();
    let freelancer_addr = env.generate();

    setup_completed_job(&env, &mut escrow, client_addr, freelancer_addr);

    review(
        &env,
        &mut reputation_client,
        &escrow,
        client_addr,
        freelancer_addr,
        1,
        4,
        "Great work!",
    ).unwrap();

    let rep = reputation_client.get_reputation(freelancer_addr).unwrap();
    assert_eq!(rep.review_count, 1);
    assert_eq!(rep.total_score, 4 * MIN_STAKE as u64);
    assert_eq!(rep.total_weight, MIN_STAKE as u64);
}

#[test]
fn test_average_rating() {
    let mut env = Env::default();
    let mut escrow = EscrowContract::new();
    let mut reputation_client = ReputationContract::new();

    let reviewer1 = env.generate();
    let reviewer2 = env.generate();
    let reviewee = env.generate();

    setup_completed_job(&env, &mut escrow, reviewer1, reviewee);
    setup_completed_job(&env, &mut escrow, reviewer2, reviewee);

    // Review 1: 5 stars
    review(&env, &mut reputation_client, &escrow, reviewer1, reviewee, 1, 5, "Excellent").unwrap();
    // Review 2: 3 stars
    review(&env, &mut reputation_client, &escrow, reviewer2, reviewee, 2, 3, "Average").unwrap();

    let avg = reputation_client.get_average_rating(reviewee, env.now).unwrap();
    // (5*MIN + 3*MIN) * 100 / (MIN + MIN) = 400 (4.00 stars)
    assert_eq!(avg, 400);
    assert_eq!(reputation_client.get_review_count(reviewee), 2);
}

#[test]
fn test_invalid_rating() {
    let mut env = Env::default();
    let mut escrow = EscrowContract::new();
    let mut reputation_client = ReputationContract::new();

    let from = env.generate();
    let reviewee = env.generate();
    setup_completed_job(&env, &mut escrow, from, reviewee);

    // The rating is looked at first: 6 is above the highest, 5
    let result = reputation_client.submit_review(
        facts(&escrow, 1),
        from,
        reviewee,
        1,
        6,
        "Too high".to_string(),
        1,
        env.now,
    );
    assert_eq!(result, Err(ReputationError::InvalidRating));
    assert_eq!(ReputationError::InvalidRating.code(), 1);
}

#[test]
fn test_self_review() {
    let mut env = Env::default();
    let escrow = EscrowContract::new();
    let mut reputation_client = ReputationContract::new();
    let user = env.generate();

    let result = reputation_client.submit_review(
        facts(&escrow, 1),
        user,
        user,
        1,
        5,
        "I'm great".to_string(),
        1,
        env.now,
    );
    assert_eq!(result, Err(ReputationError::SelfReview));
    assert_eq!(ReputationError::SelfReview.code(), 3);
}

#[test]
fn test_job_not_found_with_valid_stake() {
    let mut env = Env::default();
    let escrow = EscrowContract::new();
    let mut reputation_client = ReputationContract::new();

    let from = env.generate();
    let reviewee = env.generate();

    // No job on the job ledger
    let result = review(
        &env,
        &mut reputation_client,
        &escrow,
        from,
        reviewee,
        99,
        5,
        "Does not exist",
    );
    assert_eq!(result, Err(ReputationError::JobNotFound));
    assert_eq!(ReputationError::JobNotFound.code(), 7);
}

#[test]
fn test_job_not_completed() {
    let mut env = Env::default();
    let mut escrow = EscrowContract::new();
    let mut reputation_client = ReputationContract::new();

    let client_addr = env.generate();
    let freelancer_addr = env.generate();

    // Job is funded, not completed
    setup_in_progress_job(&env, &mut escrow, client_addr, freelancer_addr);

    let result = review(
        &env,
        &mut reputation_client,
        &escrow,
        client_addr,
        freelancer_addr,
        1,
        5,
        "Too early",
    );
    assert_eq!(result, Err(ReputationError::JobNotCompleted));
    assert_eq!(ReputationError::JobNotCompleted.code(), 5);
}

#[test]
fn test_not_job_participant() {
    let mut env = Env::default();
    let mut escrow = EscrowContract::new();
    let mut reputation_client = ReputationContract::new();

    let client_addr = env.generate();
    let freelancer_addr = env.generate();
    let outsider = env.generate();
    let another = env.generate();

    setup_completed_job(&env, &mut escrow, client_addr, freelancer_addr);

    // outsider and another were not part of job 1
    let result = review(
        &env,
        &mut reputation_client,
        &escrow,
        outsider,
        another,
        1,
        5,
        "Fraudulent review",
    );
    assert_eq!(result, Err(ReputationError::NotJobParticipant));
    assert_eq!(ReputationError::NotJobParticipant.code(), 6);
}

#[test]
fn test_reviewer_not_participant_but_reviewee_is() {
    let mut env = Env::default();
    let mut escrow = EscrowContract::new();
    let mut reputation_client = ReputationContract::new();

    let client_addr = env.generate();
    let freelancer_addr = env.generate();
    let outsider = env.generate();

    setup_completed_job(&env, &mut escrow, client_addr, freelancer_addr);

    // outsider was no party of the job of the freelancer
    let result = review(
        &env,
        &mut reputation_client,
        &escrow,
        outsider,
        freelancer_addr,
        1,
        5,
        "I wasn't there",
    );
    assert_eq!(result, Err(ReputationError::NotJobParticipant));
}

#[test]
fn test_get_tier_no_reputation() {
    let mut env = Env::default();
    let reputation_client = ReputationContract::new();
    let user = env.generate();
    let tier = reputation_client.get_tier(user, env.now);
    assert_eq!(tier, ReputationTier::Unranked);
}

#[test]
fn test_get_tier_bronze() {
    let mut env = Env::default();
    let mut escrow = EscrowContract::new();
    let mut reputation_client = ReputationContract::new();

    let from = env.generate();
    let reviewee = env.generate();
    setup_completed_job(&env, &mut escrow, from, reviewee);

    // Rating 2 (avg = 200, Bronze tier)
    review(&env, &mut reputation_client, &escrow, from, reviewee, 1, 2, "Okay").unwrap();

    let tier = reputation_client.get_tier(reviewee, env.now);
    assert_eq!(tier, ReputationTier::Bronze);
}

#[test]
fn test_get_tier_silver() {
    let mut env = Env::default();
    let mut escrow = EscrowContract::new();
    let mut reputation_client = ReputationContract::new();

    let from = env.generate();
    let reviewee = env.generate();
    setup_completed_job(&env, &mut escrow, from, reviewee);

    // Rating 4 (avg = 400, Silver tier)
    review(&env, &mut reputation_client, &escrow, from, reviewee, 1, 4, "Good").unwrap();

    let tier = reputation_client.get_tier(reviewee, env.now);
    assert_eq!(tier, ReputationTier::Silver);
}

#[test]
fn test_get_tier_gold() {
    let mut env = Env::default();
    let mut escrow = EscrowContract::new();
    let mut reputation_client = ReputationContract::new();

    let reviewer1 = env.generate();
    let reviewer2 = env.generate();
    let reviewee = env.generate();
    setup_completed_job(&env, &mut escrow, reviewer1, reviewee);
    setup_completed_job(&env, &mut escrow, reviewer2, reviewee);

    // Two 5-star reviews with equal weight -> avg = 500 (Gold tier)
    review(&env, &mut reputation_client, &escrow, reviewer1, reviewee, 1, 5, "Excellent").unwrap();
    review(&env, &mut reputation_client, &escrow, reviewer2, reviewee, 2, 5, "Perfect").unwrap();

    let tier = reputation_client.get_tier(reviewee, env.now);
    assert_eq!(tier, ReputationTier::Gold);
}

#[test]
fn test_get_tier_platinum() {
    let mut env = Env::default();
    let mut escrow = EscrowContract::new();
    let mut reputation_client = ReputationContract::new();

    let reviewer1 = env.generate();
    let reviewer2 = env.generate();
    let reviewer3 = env.generate();
    let reviewee = env.generate();
    setup_completed_job(&env, &mut escrow, reviewer1, reviewee);
    setup_completed_job(&env, &mut escrow, reviewer2, reviewee);
    setup_completed_job(&env, &mut escrow, reviewer3, reviewee);

    // Three 5-star reviews -> avg = 500 (Gold)
    review(
        &env,
        &mut reputation_client,
        &escrow,
        reviewer1,
        reviewee,
        1,
        5,
        "Outstanding",
    ).unwrap();
    review(
        &env,
        &mut reputation_client,
        &escrow,
        reviewer2,
        reviewee,
        2,
        5,
        "Exceptional",
    ).unwrap();
    review(
        &env,
        &mut reputation_client,
        &escrow,
        reviewer3,
        reviewee,
        3,
        5,
        "World-class",
    ).unwrap();

    let avg = reputation_client.get_average_rating(reviewee, env.now).unwrap();
    assert_eq!(avg, 500);

    // Platinum needs avg >= 700, out of reach with 5 stars at most (5*100=500): Gold.
    let tier = reputation_client.get_tier(reviewee, env.now);
    assert_eq!(tier, ReputationTier::Gold);
}

#[test]
fn test_badge_awarded_on_tier_crossing() {
    let mut env = Env::default();
    let mut escrow = EscrowContract::new();
    let mut reputation_client = ReputationContract::new();

    let from = env.generate();
    let reviewee = env.generate();
    setup_completed_job(&env, &mut escrow, from, reviewee);

    // A review that crosses into the Bronze tier
    review(&env, &mut reputation_client, &escrow, from, reviewee, 1, 2, "Decent").unwrap();

    let badges = reputation_client.get_badges(reviewee);
    assert_eq!(badges.len(), 1);
    assert_eq!(badges.get(0).unwrap().badge_type, ReputationTier::Bronze);
}

#[test]
fn test_badge_not_duplicated() {
    let mut env = Env::default();
    let mut escrow = EscrowContract::new();
    let mut reputation_client = ReputationContract::new();

    let reviewer1 = env.generate();
    let reviewer2 = env.generate();
    let reviewee = env.generate();
    setup_completed_job(&env, &mut escrow, reviewer1, reviewee);
    setup_completed_job(&env, &mut escrow, reviewer2, reviewee);

    // First review: Bronze tier (rating 2)
    review(&env, &mut reputation_client, &escrow, reviewer1, reviewee, 1, 2, "Okay").unwrap();
    // Second review: still Bronze tier (avg = (2 + 2) / 2 = 2 = 200)
    review(&env, &mut reputation_client, &escrow, reviewer2, reviewee, 2, 2, "Okay again").unwrap();

    let badges = reputation_client.get_badges(reviewee);
    // One Bronze badge, not two
    assert_eq!(badges.len(), 1);
    assert_eq!(badges.get(0).unwrap().badge_type, ReputationTier::Bronze);
}

#[test]
fn test_multiple_tier_badges() {
    let mut env = Env::default();
    let mut escrow = EscrowContract::new();
    let mut reputation_client = ReputationContract::new();

    let reviewer1 = env.generate();
    let reviewer2 = env.generate();
    let reviewer3 = env.generate();
    let reviewee = env.generate();
    setup_completed_job(&env, &mut escrow, reviewer1, reviewee);
    setup_completed_job(&env, &mut escrow, reviewer2, reviewee);
    setup_completed_job(&env, &mut escrow, reviewer3, reviewee);

    // First review: Bronze tier (rating 2, avg = 200)
    review(&env, &mut reputation_client, &escrow, reviewer1, reviewee, 1, 2, "Okay").unwrap();

    let badges = reputation_client.get_badges(reviewee);
    assert_eq!(badges.len(), 1);
    assert_eq!(badges.get(0).unwrap().badge_type, ReputationTier::Bronze);

    // Second review: Silver tier
    // avg = (2*MIN + 5*MIN) * 100 / (2*MIN) = 350 -> Silver
    review(
        &env,
        &mut reputation_client,
        &escrow,
        reviewer2,
        reviewee,
        2,
        5,
        "Great improvement",
    ).unwrap();

    let badges = reputation_client.get_badges(reviewee);
    assert_eq!(badges.len(), 2);
    assert_eq!(badges.get(0).unwrap().badge_type, ReputationTier::Bronze);
    assert_eq!(badges.get(1).unwrap().badge_type, ReputationTier::Silver);

    // Third review with same weight and rating 5:
    // avg = (2 + 5 + 5) * MIN * 100 / (3 * MIN) = 1200 / 3 = 400 -> still Silver
    review(&env, &mut reputation_client, &escrow, reviewer3, reviewee, 3, 5, "Excellent").unwrap();

    let avg = reputation_client.get_average_rating(reviewee, env.now).unwrap();
    assert!(avg < 500); // Still Silver

    let badges = reputation_client.get_badges(reviewee);
    assert_eq!(badges.len(), 2); // Still Bronze and Silver
}

#[test]
fn test_tier_downgrade_no_badge_removal() {
    let mut env = Env::default();
    let mut escrow = EscrowContract::new();
    let mut reputation_client = ReputationContract::new();

    let reviewer1 = env.generate();
    let reviewer2 = env.generate();
    let reviewee = env.generate();
    setup_completed_job(&env, &mut escrow, reviewer1, reviewee);
    setup_completed_job(&env, &mut escrow, reviewer2, reviewee);

    // First review: Silver tier (rating 4, avg = 400)
    review(&env, &mut reputation_client, &escrow, reviewer1, reviewee, 1, 4, "Good").unwrap();

    let badges = reputation_client.get_badges(reviewee);
    assert_eq!(badges.len(), 1);
    assert_eq!(badges.get(0).unwrap().badge_type, ReputationTier::Silver);

    // Second review: a low rating brings the average down to Bronze
    // avg = (4*M + 1*M) * 100 / (2*M) = 250 (Bronze)
    review(&env, &mut reputation_client, &escrow, reviewer2, reviewee, 2, 1, "Poor").unwrap();

    let tier = reputation_client.get_tier(reviewee, env.now);
    assert_eq!(tier, ReputationTier::Bronze);

    // Badges stay: the Silver badge remains, a Bronze badge is added
    let badges = reputation_client.get_badges(reviewee);
    assert_eq!(badges.len(), 2);
    assert_eq!(badges.get(0).unwrap().badge_type, ReputationTier::Silver);
    assert_eq!(badges.get(1).unwrap().badge_type, ReputationTier::Bronze);
}

#[test]
fn test_get_badges_empty() {
    let mut env = Env::default();
    let reputation_client = ReputationContract::new();
    let user = env.generate();
    let badges = reputation_client.get_badges(user);
    assert_eq!(badges.len(), 0);
}

#[test]
fn test_badge_timestamp() {
    let mut env = Env::default();
    let mut escrow = EscrowContract::new();
    let mut reputation_client = ReputationContract::new();

    let from = env.generate();
    let reviewee = env.generate();
    setup_completed_job(&env, &mut escrow, from, reviewee);

    let before_timestamp = env.now;

    review(&env, &mut reputation_client, &escrow, from, reviewee, 1, 3, "Good").unwrap();

    let badges = reputation_client.get_badges(reviewee);
    assert_eq!(badges.len(), 1);
    let badge = badges.get(0).unwrap();
    assert!(badge.awarded_at >= before_timestamp);
}

#[test]
fn test_set_decay_rate() {
    let mut env = Env::default();
    let mut reputation_client = ReputationContract::new();
    let admin = env.generate();
    reputation_client.initialize(admin, 50).unwrap();

    // Set valid decay rate
    reputation_client.set_decay_rate(admin, 75).unwrap();
    assert_eq!(reputation_client.decay_rate(), 75);
}

#[test]
fn test_set_decay_rate_invalid() {
    let mut env = Env::default();
    let mut reputation_client = ReputationContract::new();
    let admin = env.generate();
    reputation_client.initialize(admin, 50).unwrap();

    // A decay rate above 100 is refused
    let result = reputation_client.set_decay_rate(admin, 101);
    assert_eq!(result, Err(ReputationError::InvalidDecayRate));
    assert_eq!(ReputationError::InvalidDecayRate.code(), 10);
}

#[test]
fn test_decay_calculation() {
    let mut env = Env::default();
    let mut escrow = EscrowContract::new();
    let mut reputation_client = ReputationContract::new();

    let admin = env.generate();
    // Set decay rate to 50% per year
    reputation_client.initialize(admin, 50).unwrap();

    let from = env.generate();
    let reviewee = env.generate();
    setup_completed_job(&env, &mut escrow, from, reviewee);

    // Initial timestamp: day 0
    let start_time = 1_000_000;
    env.now = start_time;

    // Review with weight MIN_STAKE, rating 5
    review(&env, &mut reputation_client, &escrow, from, reviewee, 1, 5, "Great").unwrap();

    // At day 0 (no decay), avg = 500
    assert_eq!(reputation_client.get_average_rating(reviewee, env.now), Ok(500));

    // Advance 1 day (86400 seconds) — negligible decay
    env.now = start_time + 86400;
    assert_eq!(reputation_client.get_average_rating(reviewee, env.now), Ok(500));

    // Advance 1 year (31,536,000 seconds)
    // 50% decay per year -> half the weight, but the ratio is the same for a single review
    env.now = start_time + 31_536_000;
    assert_eq!(reputation_client.get_average_rating(reviewee, env.now), Ok(500));

    // To see the decay, add a second review at year 1
    let reviewer2 = env.generate();
    setup_completed_job(&env, &mut escrow, reviewer2, reviewee);

    // Second review at year 1 with rating 1 (Poor)
    review(
        &env,
        &mut reputation_client,
        &escrow,
        reviewer2,
        reviewee,
        2,
        1,
        "Terrible now",
    ).unwrap();

    // Review 1 (5 stars) has 50% weight decay. Review 2 (1 star) has full weight.
    // effective_w1 = MIN_STAKE/2, effective_w2 = MIN_STAKE
    // Weighted score: 5 * (MIN/2) + 1 * MIN = 2.5*MIN + MIN = 3.5*MIN
    // Total weight: MIN/2 + MIN = 1.5*MIN
    // Avg = 3.5/1.5 * 100 = 233
    assert_eq!(reputation_client.get_average_rating(reviewee, env.now), Ok(233));

    // Advance to year 2
    // Review 1 is 2 years old -> 100% decayed (weight 0)
    // Review 2 is 1 year old -> 50% decayed (weight MIN/2)
    // Weighted score: 0 + 1 * MIN/2 = MIN/2
    // Total weight: MIN/2
    // Avg = 1.0 * 100 = 100
    env.now = start_time + 63_072_000;
    assert_eq!(reputation_client.get_average_rating(reviewee, env.now), Ok(100));
}

// ---- more of the reputation service ----

#[test]
fn tiers_begin_at_their_thresholds() {
    assert_eq!(calculate_tier(0), ReputationTier::Unranked);
    assert_eq!(calculate_tier(99), ReputationTier::Unranked);
    assert_eq!(calculate_tier(100), ReputationTier::Bronze);
    assert_eq!(calculate_tier(299), ReputationTier::Bronze);
    assert_eq!(calculate_tier(300), ReputationTier::Silver);
    assert_eq!(calculate_tier(499), ReputationTier::Silver);
    assert_eq!(calculate_tier(500), ReputationTier::Gold);
    assert_eq!(calculate_tier(699), ReputationTier::Gold);
    assert_eq!(calculate_tier(700), ReputationTier::Platinum);
    assert_eq!(calculate_tier(u64::MAX), ReputationTier::Platinum);
}

#[test]
fn second_review_for_the_same_job_is_refused() {
    let mut env = Env::default();
    let mut escrow = EscrowContract::new();
    let mut reputation = ReputationContract::new();
    let client = env.generate();
    let freelancer = env.generate();
    setup_completed_job(&env, &mut escrow, client, freelancer);

    review(&env, &mut reputation, &escrow, client, freelancer, 1, 5, "Once").unwrap();
    let again = review(&env, &mut reputation, &escrow, client, freelancer, 1, 4, "Twice");
    assert_eq!(again, Err(ReputationError::AlreadyReviewed));
    assert_eq!(ReputationError::AlreadyReviewed.code(), 2);

    // The freelancer can still give the client a review for that job.
    review(&env, &mut reputation, &escrow, freelancer, client, 1, 5, "Back").unwrap();
    assert_eq!(reputation.get_review_count(client), 1);
    assert_eq!(reputation.get_review_count(freelancer), 1);
    assert_eq!(reputation.get_reviews(freelancer)[0].comment, "Once");
}

#[test]
fn rating_zero_is_refused_and_unknown_user_has_no_reputation() {
    let mut env = Env::default();
    let mut escrow = EscrowContract::new();
    let mut reputation = ReputationContract::new();
    let client = env.generate();
    let freelancer = env.generate();
    setup_completed_job(&env, &mut escrow, client, freelancer);

    let result = review(&env, &mut reputation, &escrow, client, freelancer, 1, 0, "Nothing");
    assert_eq!(result, Err(ReputationError::InvalidRating));
    assert_eq!(reputation.get_reputation(freelancer), Err(ReputationError::UserNotFound));
    assert_eq!(ReputationError::UserNotFound.code(), 4);
    assert_eq!(reputation.get_average_rating(freelancer, env.now), Ok(0));
    assert_eq!(reputation.get_reviews(freelancer).len(), 0);
}

#[test]
fn initialization_happens_once_and_only_the_administrator_sets_the_rate() {
    let mut env = Env::default();
    let mut reputation = ReputationContract::new();
    let admin = env.generate();
    let other = env.generate();

    assert_eq!(reputation.set_decay_rate(admin, 10), Err(ReputationError::NotInitialized));
    assert_eq!(ReputationError::NotInitialized.code(), 9);
    assert_eq!(reputation.initialize(admin, 101), Err(ReputationError::InvalidDecayRate));
    reputation.initialize(admin, 100).unwrap();
    assert_eq!(reputation.initialize(admin, 10), Err(ReputationError::Unauthorized));
    assert_eq!(ReputationError::Unauthorized.code(), 8);
    assert_eq!(reputation.set_decay_rate(other, 10), Err(ReputationError::Unauthorized));
    assert_eq!(reputation.decay_rate(), 100);
}

fn review_of(stake_weight: i128, timestamp: u64) -> Review {
    Review {
        reviewer: Address::account(0, 1),
        reviewee: Address::account(0, 2),
        job_id: 1,
        rating: 5,
        comment: String::new(),
        stake_weight,
        timestamp,
    }
}

#[test]
fn effective_weight_fades_with_age() {
    let mut env = Env::default();
    let mut reputation = ReputationContract::new();
    let admin = env.generate();

    // Without decay the weight is the stake, and 1 where none was put.
    assert_eq!(reputation.get_effective_weight(&review_of(1000, 0), 31_536_000), 1000);
    assert_eq!(reputation.get_effective_weight(&review_of(0, 0), 31_536_000), 1);
    assert_eq!(reputation.get_effective_weight(&review_of(-5, 0), 31_536_000), 1);

    reputation.initialize(admin, 50).unwrap();
    // 50 per cent a year: after half a year 25 per cent are gone.
    assert_eq!(reputation.get_effective_weight(&review_of(1000, 0), 15_768_000), 750);
    // After one year half of it, after two years all of it.
    assert_eq!(reputation.get_effective_weight(&review_of(1000, 0), 31_536_000), 500);
    assert_eq!(reputation.get_effective_weight(&review_of(1000, 0), 63_072_000), 0);
    assert_eq!(reputation.get_effective_weight(&review_of(1000, 0), u64::MAX), 0);
    // A review from the future has its full weight.
    assert_eq!(reputation.get_effective_weight(&review_of(1000, 500), 100), 1000);
    // The greatest stake does not overflow: the product stops at the top.
    assert_eq!(
        reputation.get_effective_weight(&review_of(i128::MAX, 0), 1),
        i128::MAX / 100
    );
}

#[test]
fn stake_above_64_bits_counts_with_its_low_bits() {
    let mut env = Env::default();
    let mut escrow = EscrowContract::new();
    let mut reputation = ReputationContract::new();
    let client = env.generate();
    let freelancer = env.generate();
    setup_completed_job(&env, &mut escrow, client, freelancer);

    let stake: i128 = (1i128 << 64) + 7;
    reputation
        .submit_review(
            facts(&escrow, 1),
            client,
            freelancer,
            1,
            3,
            "Big".to_string(),
            stake,
            env.now,
        )
        .unwrap();
    let rep = reputation.get_reputation(freelancer).unwrap();
    assert_eq!(rep.total_weight, 7);
    assert_eq!(rep.total_score, 21);
    assert_eq!(reputation.get_average_rating(freelancer, env.now), Ok(300));
}
