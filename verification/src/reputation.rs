//! Reputation: reviews after completed jobs, weighted by stake and fading
//! with age, and the tiers and badges that follow from them.
//!
//! The author of a review has been authenticated by the embedding
//! application, which also looks the job up on the job ledger and
//! hands over what it found; `now` is its clock.

use crate::account::Address;
use crate::escrow::model::{Job, JobStatus};
use vstd::prelude::*;

verus! {

/// The number of seconds in a year of 365 days.
pub const SECONDS_PER_YEAR: u64 = 31_536_000;

/// The highest decay rate, in per cent a year.
pub const MAX_DECAY_RATE: u32 = 100;

/// Why an operation of the reputation service was refused.
#[derive(Clone, Copy, Debug, PartialEq, Eq, Hash, Structural)]
pub enum ReputationError {
    InvalidRating,
    AlreadyReviewed,
    SelfReview,
    UserNotFound,
    JobNotCompleted,
    NotJobParticipant,
    JobNotFound,
    Unauthorized,
    NotInitialized,
    InvalidDecayRate,
}

impl ReputationError {
    /// The number under which the error is reported to the host.
    pub open spec fn code_of(self) -> u32 {
        match self {
            ReputationError::InvalidRating => 1,
            ReputationError::AlreadyReviewed => 2,
            ReputationError::SelfReview => 3,
            ReputationError::UserNotFound => 4,
            ReputationError::JobNotCompleted => 5,
            ReputationError::NotJobParticipant => 6,
            ReputationError::JobNotFound => 7,
            ReputationError::Unauthorized => 8,
            ReputationError::NotInitialized => 9,
            ReputationError::InvalidDecayRate => 10,
        }
    }

    /// The number under which the error is reported to the host.
    pub fn code(self) -> (c: u32)
        ensures
            c == self.code_of(),
    {
        match self {
            ReputationError::InvalidRating => 1,
            ReputationError::AlreadyReviewed => 2,
            ReputationError::SelfReview => 3,
            ReputationError::UserNotFound => 4,
            ReputationError::JobNotCompleted => 5,
            ReputationError::NotJobParticipant => 6,
            ReputationError::JobNotFound => 7,
            ReputationError::Unauthorized => 8,
            ReputationError::NotInitialized => 9,
            ReputationError::InvalidDecayRate => 10,
        }
    }
}

/// One review of a user by the other party of a completed job.
#[derive(Debug, PartialEq, Eq)]
pub struct Review {
    pub reviewer: Address,
    pub reviewee: Address,
    pub job_id: u64,
    pub rating: u32,
    pub comment: String,
    pub stake_weight: i128,
    pub timestamp: u64,
}

impl Clone for Review {
    fn clone(&self) -> (r: Self)
        ensures
            r == *self,
    {
        Review {
            reviewer: self.reviewer,
            reviewee: self.reviewee,
            job_id: self.job_id,
            rating: self.rating,
            comment: self.comment.clone(),
            stake_weight: self.stake_weight,
            timestamp: self.timestamp,
        }
    }
}

/// The running totals of a user's reviews, each counted with the weight
/// that it had when it came.
#[derive(Clone, Copy, Debug, PartialEq, Eq, Structural)]
pub struct UserReputation {
    pub user: Address,
    pub total_score: u64,
    pub total_weight: u64,
    pub review_count: u32,
}

#[derive(Clone, Copy, Debug, PartialEq, Eq, Hash, Structural)]
pub enum ReputationTier {
    /// Below every tier.
    Unranked,
    Bronze,
    Silver,
    Gold,
    Platinum,
}

/// A tier that a user has reached, and when.
#[derive(Clone, Copy, Debug, PartialEq, Eq, Structural)]
pub struct Badge {
    pub badge_type: ReputationTier,
    pub awarded_at: u64,
}

/// What the application found of a job on the job ledger.
#[derive(Clone, Copy, Debug, PartialEq, Eq, Structural)]
pub struct JobFacts {
    pub status: JobStatus,
    pub client: Address,
    pub freelancer: Address,
}

impl JobFacts {
    /// What the service needs of `job`.
    pub fn of(job: &Job) -> (facts: JobFacts)
        ensures
            facts == (JobFacts {
                status: job@.status,
                client: job@.client,
                freelancer: job@.freelancer,
            }),
    {
        JobFacts { status: job.status, client: job.client, freelancer: job.freelancer }
    }
}

/// The tier of an average rating in hundredths of a star: bronze from 100,
/// silver from 300, gold from 500, platinum from 700.
pub open spec fn tier_of(average_rating: u64) -> ReputationTier {
    if average_rating >= 700 {
        ReputationTier::Platinum
    } else if average_rating >= 500 {
        ReputationTier::Gold
    } else if average_rating >= 300 {
        ReputationTier::Silver
    } else if average_rating >= 100 {
        ReputationTier::Bronze
    } else {
        ReputationTier::Unranked
    }
}

/// The tier of an average rating in hundredths of a star.
pub fn calculate_tier(average_rating: u64) -> (tier: ReputationTier)
    ensures
        tier == tier_of(average_rating),
{
    if average_rating >= 700 {
        ReputationTier::Platinum
    } else if average_rating >= 500 {
        ReputationTier::Gold
    } else if average_rating >= 300 {
        ReputationTier::Silver
    } else if average_rating >= 100 {
        ReputationTier::Bronze
    } else {
        ReputationTier::Unranked
    }
}

/// A weight cut down to 64 bits.
pub open spec fn low_bits(weight: int) -> int {
    weight % 0x1_0000_0000_0000_0000
}

/// The weight with which a review enters the running totals: the stake in
/// 64 bits, and 1 where no stake was put.
pub open spec fn stake_as_weight(stake_weight: i128) -> int {
    if stake_weight > 0 {
        low_bits(stake_weight as int)
    } else {
        1
    }
}

/// What is left of a weight after `age` seconds at `decay_rate` per cent a
/// year, in per cent.
pub open spec fn decay_factor(decay_rate: u32, age: u64) -> int {
    let product = if decay_rate * age > u64::MAX {
        u64::MAX as int
    } else {
        decay_rate * age
    };
    let lost = product / (SECONDS_PER_YEAR as int);
    if lost >= 100 {
        0
    } else {
        100 - lost
    }
}

/// The weight at `now` of a stake put at `timestamp`: the stake, or 1
/// where none was put, less what it has lost with age.
pub open spec fn faded_weight(stake_weight: i128, timestamp: u64, decay_rate: u32, now: u64) -> int {
    let initial = if stake_weight > 0 {
        stake_weight as int
    } else {
        1
    };
    if decay_rate == 0 {
        initial
    } else {
        let age = if now > timestamp {
            (now - timestamp) as u64
        } else {
            0
        };
        let factor = decay_factor(decay_rate, age);
        if factor == 0 {
            0
        } else if initial * factor > i128::MAX {
            i128::MAX / 100
        } else {
            initial * factor / 100
        }
    }
}

/// The weight of a review at `now`.
pub open spec fn effective_weight(review: Review, decay_rate: u32, now: u64) -> int {
    faded_weight(review.stake_weight, review.timestamp, decay_rate, now)
}

/// The weight with which a review enters the average at `now`.
pub open spec fn counted_weight(review: Review, decay_rate: u32, now: u64) -> int {
    if effective_weight(review, decay_rate, now) > 0 {
        low_bits(effective_weight(review, decay_rate, now))
    } else {
        0
    }
}

/// The sum of the ratings, each times the weight of its review at `now`.
pub open spec fn weighted_score(reviews: Seq<Review>, decay_rate: u32, now: u64) -> int
    decreases reviews.len(),
{
    if reviews.len() == 0 {
        0
    } else {
        weighted_score(reviews.drop_last(), decay_rate, now) + reviews.last().rating
            * counted_weight(reviews.last(), decay_rate, now)
    }
}

/// The sum of the weights of the reviews at `now`.
pub open spec fn weight_sum(reviews: Seq<Review>, decay_rate: u32, now: u64) -> int
    decreases reviews.len(),
{
    if reviews.len() == 0 {
        0
    } else {
        weight_sum(reviews.drop_last(), decay_rate, now) + counted_weight(
            reviews.last(),
            decay_rate,
            now,
        )
    }
}

/// The weighted average of the ratings at `now`, in hundredths of a star,
/// and 0 where no review has any weight.
pub open spec fn average_of(reviews: Seq<Review>, decay_rate: u32, now: u64) -> int {
    if weight_sum(reviews, decay_rate, now) == 0 {
        0
    } else {
        weighted_score(reviews, decay_rate, now) * 100 / weight_sum(reviews, decay_rate, now)
    }
}

/// The sums of the average can be held in 64 bits.
pub open spec fn sums_fit(reviews: Seq<Review>, decay_rate: u32, now: u64) -> bool {
    &&& weighted_score(reviews, decay_rate, now) * 100 <= u64::MAX
    &&& weight_sum(reviews, decay_rate, now) <= u64::MAX
}

/// The owner of the reviews has one for job `job_id` from that author.
pub open spec fn has_review(reviews: Seq<Review>, reviewer: Address, job_id: u64) -> bool {
    exists|i: int|
        0 <= i < reviews.len() && (#[trigger] reviews[i]).reviewer == reviewer && reviews[i].job_id
            == job_id
}

/// A badge of `tier` is among the badges.
pub open spec fn has_badge(badges: Seq<Badge>, tier: ReputationTier) -> bool {
    exists|i: int| 0 <= i < badges.len() && (#[trigger] badges[i]).badge_type == tier
}

/// What the service keeps for one user.
pub struct Profile {
    pub reputation: UserReputation,
    pub reviews: Vec<Review>,
    pub badges: Vec<Badge>,
}

/// One user's profile as a mathematical value.
pub struct ProfileView {
    pub reputation: UserReputation,
    pub reviews: Seq<Review>,
    pub badges: Seq<Badge>,
}

impl View for Profile {
    type V = ProfileView;

    open spec fn view(&self) -> ProfileView {
        ProfileView { reputation: self.reputation, reviews: self.reviews@, badges: self.badges@ }
    }
}

/// The administrator and the decay rate, in per cent a year.
#[derive(Clone, Copy, Debug, PartialEq, Eq, Structural)]
pub struct DecaySettings {
    pub admin: Address,
    pub decay_rate: u32,
}

/// The reputation service: a profile for each user that has been reviewed.
pub struct ReputationContract {
    pub settings: Option<DecaySettings>,
    pub profiles: Vec<Profile>,
}

/// The reputation service as a mathematical value.
pub struct Reputations {
    pub settings: Option<DecaySettings>,
    pub profiles: Seq<ProfileView>,
}

impl View for ReputationContract {
    type V = Reputations;

    open spec fn view(&self) -> Reputations {
        Reputations {
            settings: self.settings,
            profiles: Seq::new(self.profiles@.len(), |i: int| self.profiles@[i]@),
        }
    }
}

/// The profile of a user without reviews.
pub open spec fn blank_profile(user: Address) -> ProfileView {
    ProfileView {
        reputation: UserReputation { user, total_score: 0, total_weight: 0, review_count: 0 },
        reviews: Seq::empty(),
        badges: Seq::empty(),
    }
}

impl Reputations {
    /// No user has two profiles, and the decay rate is a percentage.
    pub open spec fn wf(self) -> bool {
        &&& self.settings matches Some(s) ==> s.decay_rate <= MAX_DECAY_RATE
        &&& forall|i: int, j: int|
            0 <= i < self.profiles.len() && 0 <= j < self.profiles.len() && i != j ==> (
            #[trigger] self.profiles[i]).reputation.user != (
            #[trigger] self.profiles[j]).reputation.user
    }

    /// The decay rate in force: that of the settings, and none before
    /// initialization.
    pub open spec fn decay_rate(self) -> u32 {
        match self.settings {
            Some(s) => s.decay_rate,
            None => 0,
        }
    }

    pub open spec fn has_profile(self, user: Address) -> bool {
        exists|i: int| 0 <= i < self.profiles.len() && (#[trigger] self.profiles[i]).reputation.user
            == user
    }

    /// The place of the profile of `user`.
    pub open spec fn position(self, user: Address) -> int {
        choose|i: int| 0 <= i < self.profiles.len() && (#[trigger] self.profiles[i]).reputation.user
            == user
    }

    /// The profile of `user`, blank where the user has not been reviewed.
    pub open spec fn profile(self, user: Address) -> ProfileView {
        if self.has_profile(user) {
            self.profiles[self.position(user)]
        } else {
            blank_profile(user)
        }
    }

    /// The service with another profile for the user of `p`.
    pub open spec fn with_profile(self, p: ProfileView) -> Reputations {
        if self.has_profile(p.reputation.user) {
            Reputations {
                profiles: self.profiles.update(self.position(p.reputation.user), p),
                ..self
            }
        } else {
            Reputations { profiles: self.profiles.push(p), ..self }
        }
    }

    /// The average rating of `user` at `now`, in hundredths of a star.
    pub open spec fn average_rating(self, user: Address, now: u64) -> int {
        average_of(self.profile(user).reviews, self.decay_rate(), now)
    }

    // ---- administration ----
    pub open spec fn initialize_error(self, decay_rate: u32) -> Option<ReputationError> {
        if self.settings is Some {
            Some(ReputationError::Unauthorized)
        } else if decay_rate > MAX_DECAY_RATE {
            Some(ReputationError::InvalidDecayRate)
        } else {
            None
        }
    }

    pub open spec fn set_decay_rate_error(self, admin: Address, rate: u32) -> Option<
        ReputationError,
    > {
        match self.settings {
            None => Some(ReputationError::NotInitialized),
            Some(s) => if s.admin != admin {
                Some(ReputationError::Unauthorized)
            } else if rate > MAX_DECAY_RATE {
                Some(ReputationError::InvalidDecayRate)
            } else {
                None
            },
        }
    }

    // ---- reviews ----
    pub open spec fn submit_error(
        self,
        job: Option<JobFacts>,
        reviewer: Address,
        reviewee: Address,
        job_id: u64,
        rating: u32,
    ) -> Option<ReputationError> {
        if rating < 1 || rating > 5 {
            Some(ReputationError::InvalidRating)
        } else if reviewer == reviewee {
            Some(ReputationError::SelfReview)
        } else if has_review(self.profile(reviewee).reviews, reviewer, job_id) {
            Some(ReputationError::AlreadyReviewed)
        } else {
            match job {
                None => Some(ReputationError::JobNotFound),
                Some(j) => if j.status != JobStatus::Completed {
                    Some(ReputationError::JobNotCompleted)
                } else if !((reviewer == j.client && reviewee == j.freelancer) || (reviewer
                    == j.freelancer && reviewee == j.client)) {
                    Some(ReputationError::NotJobParticipant)
                } else {
                    None
                },
            }
        }
    }

    /// The review that `submit_review` records.
    pub open spec fn new_review(
        reviewer: Address,
        reviewee: Address,
        job_id: u64,
        rating: u32,
        comment: String,
        stake_weight: i128,
        now: u64,
    ) -> Review {
        Review { reviewer, reviewee, job_id, rating, comment, stake_weight, timestamp: now }
    }

    /// The profile of the reviewee after `review`: the totals raised, the
    /// review added, and a badge for the tier that the new average reaches,
    /// where the user has none of that tier yet.
    pub open spec fn reviewed_profile(self, review: Review, now: u64) -> ProfileView {
        let p = self.profile(review.reviewee);
        let weight = stake_as_weight(review.stake_weight);
        let reviews = p.reviews.push(review);
        let tier = tier_of(average_of(reviews, self.decay_rate(), now) as u64);
        ProfileView {
            reputation: UserReputation {
                user: review.reviewee,
                total_score: (p.reputation.total_score + review.rating * weight) as u64,
                total_weight: (p.reputation.total_weight + weight) as u64,
                review_count: (p.reputation.review_count + 1) as u32,
            },
            reviews,
            badges: if tier != ReputationTier::Unranked && !has_badge(p.badges, tier) {
                p.badges.push(Badge { badge_type: tier, awarded_at: now })
            } else {
                p.badges
            },
        }
    }

    /// The totals and the sums of the average stay within 64 bits when
    /// `review` is added.
    pub open spec fn review_fits(self, review: Review, now: u64) -> bool {
        let p = self.profile(review.reviewee);
        let weight = stake_as_weight(review.stake_weight);
        &&& p.reputation.total_score + review.rating * weight <= u64::MAX
        &&& p.reputation.total_weight + weight <= u64::MAX
        &&& p.reputation.review_count < u32::MAX
        &&& sums_fit(p.reviews.push(review), self.decay_rate(), now)
    }
}

impl ReputationContract {
    /// The service is well formed.
    pub open spec fn wf(&self) -> bool {
        self@.wf()
    }
}

pub proof fn lemma_review_sums_take(reviews: Seq<Review>, decay_rate: u32, now: u64, i: int)
    requires
        0 <= i < reviews.len(),
    ensures
        weighted_score(reviews.take(i + 1), decay_rate, now) == weighted_score(
            reviews.take(i),
            decay_rate,
            now,
        ) + reviews[i].rating * counted_weight(reviews[i], decay_rate, now),
        weight_sum(reviews.take(i + 1), decay_rate, now) == weight_sum(
            reviews.take(i),
            decay_rate,
            now,
        ) + counted_weight(reviews[i], decay_rate, now),
{
    assert(reviews.take(i + 1).drop_last() =~= reviews.take(i));
}

/// The sums of a prefix are at most the sums of the whole.
pub proof fn lemma_review_sums_grow(reviews: Seq<Review>, decay_rate: u32, now: u64, i: int)
    requires
        0 <= i <= reviews.len(),
    ensures
        0 <= weighted_score(reviews.take(i), decay_rate, now) <= weighted_score(
            reviews,
            decay_rate,
            now,
        ),
        0 <= weight_sum(reviews.take(i), decay_rate, now) <= weight_sum(reviews, decay_rate, now),
    decreases reviews.len() - i,
{
    if i == reviews.len() {
        assert(reviews.take(i) =~= reviews);
        lemma_review_sums_nonnegative(reviews, decay_rate, now);
    } else {
        lemma_review_sums_grow(reviews, decay_rate, now, i + 1);
        lemma_review_sums_take(reviews, decay_rate, now, i);
        lemma_review_sums_nonnegative(reviews.take(i), decay_rate, now);
        let w = counted_weight(reviews[i], decay_rate, now);
        assert(0 <= reviews[i].rating * w) by (nonlinear_arith)
            requires
                0 <= w,
                0 <= reviews[i].rating,
        ;
    }
}

pub proof fn lemma_review_sums_nonnegative(reviews: Seq<Review>, decay_rate: u32, now: u64)
    ensures
        0 <= weighted_score(reviews, decay_rate, now),
        0 <= weight_sum(reviews, decay_rate, now),
    decreases reviews.len(),
{
    if reviews.len() > 0 {
        lemma_review_sums_nonnegative(reviews.drop_last(), decay_rate, now);
        let w = counted_weight(reviews.last(), decay_rate, now);
        assert(0 <= reviews.last().rating * w) by (nonlinear_arith)
            requires
                0 <= w,
                0 <= reviews.last().rating,
        ;
    }
}

/// The weight of `review` at `now`, at `decay_rate` per cent a year.
pub fn weight_at(review: &Review, decay_rate: u32, now: u64) -> (weight: i128)
    requires
        decay_rate <= MAX_DECAY_RATE,
    ensures
        weight == effective_weight(*review, decay_rate, now),
        weight >= 0,
{
    weight_of(review.stake_weight, review.timestamp, decay_rate, now)
}

/// The weight at `now` of a stake put at `timestamp`, at `decay_rate` per
/// cent a year.
pub fn weight_of(stake_weight: i128, timestamp: u64, decay_rate: u32, now: u64) -> (weight: i128)
    requires
        decay_rate <= MAX_DECAY_RATE,
    ensures
        weight == faded_weight(stake_weight, timestamp, decay_rate, now),
        weight >= 0,
{
    let initial: i128 = if stake_weight > 0 {
        stake_weight
    } else {
        1
    };
    if decay_rate == 0 {
        return initial;
    }
    let age: u64 = if now > timestamp {
        now - timestamp
    } else {
        0
    };
    assert(decay_rate * age <= 100 * 0xffff_ffff_ffff_ffff) by (nonlinear_arith)
        requires
            decay_rate <= 100,
            age <= 0xffff_ffff_ffff_ffff,
    ;
    let wide: u128 = decay_rate as u128 * age as u128;
    let product: u64 = if wide > u64::MAX as u128 {
        u64::MAX
    } else {
        wide as u64
    };
    let lost: u64 = product / SECONDS_PER_YEAR;
    if lost >= 100 {
        return 0;
    }
    let factor: i128 = (100 - lost) as i128;
    let limit: i128 = i128::MAX / factor;
    proof {
        vstd::arithmetic::div_mod::lemma_fundamental_div_mod(i128::MAX as int, factor as int);
        vstd::arithmetic::div_mod::lemma_mod_pos_bound(i128::MAX as int, factor as int);
        if initial <= limit {
            assert(initial * factor <= limit * factor) by (nonlinear_arith)
                requires
                    initial <= limit,
                    factor > 0,
            ;
            assert(0 <= initial * factor) by (nonlinear_arith)
                requires
                    initial > 0,
                    factor > 0,
            ;
        } else {
            assert(initial * factor >= (limit + 1) * factor) by (nonlinear_arith)
                requires
                    initial >= limit + 1,
                    factor > 0,
            ;
            assert((limit + 1) * factor == factor * limit + factor) by (nonlinear_arith);
        }
    }
    if initial > limit {
        i128::MAX / 100
    } else {
        initial * factor / 100
    }
}

/// A positive weight cut down to 64 bits.
pub fn weight_bits(weight: i128) -> (bits: u64)
    requires
        weight >= 0,
    ensures
        bits == low_bits(weight as int),
{
    (weight % 0x1_0000_0000_0000_0000i128) as u64
}

/// The weighted average of the ratings at `now`, in hundredths of a star.
pub fn average_at(reviews: &Vec<Review>, decay_rate: u32, now: u64) -> (average: u64)
    requires
        decay_rate <= MAX_DECAY_RATE,
        sums_fit(reviews@, decay_rate, now),
    ensures
        average == average_of(reviews@, decay_rate, now),
{
    let mut score: u64 = 0;
    let mut weights: u64 = 0;
    let mut i: usize = 0;
    while i < reviews.len()
        invariant
            i <= reviews.len(),
            decay_rate <= MAX_DECAY_RATE,
            sums_fit(reviews@, decay_rate, now),
            score == weighted_score(reviews@.take(i as int), decay_rate, now),
            weights == weight_sum(reviews@.take(i as int), decay_rate, now),
        decreases reviews.len() - i,
    {
        proof {
            lemma_review_sums_grow(reviews@, decay_rate, now, i as int + 1);
            lemma_review_sums_grow(reviews@, decay_rate, now, i as int);
            lemma_review_sums_take(reviews@, decay_rate, now, i as int);
        }
        let effective = weight_at(&reviews[i], decay_rate, now);
        let weight: u64 = if effective > 0 {
            weight_bits(effective)
        } else {
            0
        };
        proof {
            let r = reviews@[i as int].rating as int;
            let w = weight as int;
            let s = score as int;
            assert(0 <= r * w) by (nonlinear_arith)
                requires
                    0 <= r,
                    0 <= w,
            ;
        }
        score = score + reviews[i].rating as u64 * weight;
        weights = weights + weight;
        i += 1;
    }
    assert(reviews@.take(reviews.len() as int) =~= reviews@);
    if weights == 0 {
        return 0;
    }
    proof {
        let s = score as int;
        let w = weights as int;
        assert(0 <= s * 100 / w <= s * 100) by (nonlinear_arith)
            requires
                0 <= s,
                w >= 1,
        ;
    }
    score * 100 / weights
}

/// The sums of the average at `now`, where each can be held in 64 bits.
pub fn checked_sums(reviews: &Vec<Review>, decay_rate: u32, now: u64) -> (r: Option<(u64, u64)>)
    requires
        decay_rate <= MAX_DECAY_RATE,
    ensures
        match r {
            Some((score, weights)) => score == weighted_score(reviews@, decay_rate, now)
                && weights == weight_sum(reviews@, decay_rate, now),
            None => weighted_score(reviews@, decay_rate, now) > u64::MAX || weight_sum(
                reviews@,
                decay_rate,
                now,
            ) > u64::MAX,
        },
{
    let mut score: u64 = 0;
    let mut weights: u64 = 0;
    let mut i: usize = 0;
    while i < reviews.len()
        invariant
            i <= reviews.len(),
            decay_rate <= MAX_DECAY_RATE,
            score == weighted_score(reviews@.take(i as int), decay_rate, now),
            weights == weight_sum(reviews@.take(i as int), decay_rate, now),
        decreases reviews.len() - i,
    {
        proof {
            lemma_review_sums_grow(reviews@, decay_rate, now, i as int + 1);
            lemma_review_sums_take(reviews@, decay_rate, now, i as int);
        }
        let effective = weight_at(&reviews[i], decay_rate, now);
        let weight: u64 = if effective > 0 {
            weight_bits(effective)
        } else {
            0
        };
        proof {
            let r = reviews@[i as int].rating as int;
            let w = weight as int;
            assert(0 <= r * w <= 0xffff_ffff * 0xffff_ffff_ffff_ffff) by (nonlinear_arith)
                requires
                    0 <= r <= 0xffff_ffff,
                    0 <= w <= 0xffff_ffff_ffff_ffff,
            ;
        }
        let term: u128 = reviews[i].rating as u128 * weight as u128;
        if score as u128 + term > u64::MAX as u128 || weight > u64::MAX - weights {
            return None;
        }
        score = score + (term as u64);
        weights = weights + weight;
        i += 1;
    }
    assert(reviews@.take(reviews.len() as int) =~= reviews@);
    Some((score, weights))
}

/// Whether the sums of the average at `now` can be held in 64 bits.
pub fn ratings_in_range(reviews: &Vec<Review>, decay_rate: u32, now: u64) -> (r: bool)
    requires
        decay_rate <= MAX_DECAY_RATE,
    ensures
        r == sums_fit(reviews@, decay_rate, now),
{
    proof {
        lemma_review_sums_nonnegative(reviews@, decay_rate, now);
    }
    match checked_sums(reviews, decay_rate, now) {
        Some((score, _)) => score as u128 * 100 <= u64::MAX as u128,
        None => false,
    }
}

/// Whether the owner of the reviews has one for job `job_id` from that
/// author.
pub fn review_listed(reviews: &Vec<Review>, reviewer: Address, job_id: u64) -> (r: bool)
    ensures
        r == has_review(reviews@, reviewer, job_id),
{
    let mut i: usize = 0;
    while i < reviews.len()
        invariant
            i <= reviews.len(),
            forall|k: int|
                0 <= k < i ==> !((#[trigger] reviews@[k]).reviewer == reviewer && reviews@[k].job_id
                    == job_id),
        decreases reviews.len() - i,
    {
        if reviews[i].reviewer == reviewer && reviews[i].job_id == job_id {
            return true;
        }
        i += 1;
    }
    false
}

/// Whether a badge of `tier` is among the badges.
pub fn badge_listed(badges: &Vec<Badge>, tier: ReputationTier) -> (r: bool)
    ensures
        r == has_badge(badges@, tier),
{
    let mut i: usize = 0;
    while i < badges.len()
        invariant
            i <= badges.len(),
            forall|k: int| 0 <= k < i ==> (#[trigger] badges@[k]).badge_type != tier,
        decreases badges.len() - i,
    {
        if badges[i].badge_type == tier {
            return true;
        }
        i += 1;
    }
    false
}

/// A copy of the reviews.
pub fn clone_reviews(reviews: &Vec<Review>) -> (r: Vec<Review>)
    ensures
        r@ == reviews@,
{
    let mut out: Vec<Review> = Vec::new();
    let mut i: usize = 0;
    while i < reviews.len()
        invariant
            i <= reviews.len(),
            out@ == reviews@.take(i as int),
        decreases reviews.len() - i,
    {
        out.push(reviews[i].clone());
        i += 1;
        assert(out@ =~= reviews@.take(i as int));
    }
    assert(out@ =~= reviews@);
    out
}

/// A copy of the badges.
pub fn clone_badges(badges: &Vec<Badge>) -> (r: Vec<Badge>)
    ensures
        r@ == badges@,
{
    let mut out: Vec<Badge> = Vec::new();
    let mut i: usize = 0;
    while i < badges.len()
        invariant
            i <= badges.len(),
            out@ == badges@.take(i as int),
        decreases badges.len() - i,
    {
        out.push(badges[i]);
        i += 1;
        assert(out@ =~= badges@.take(i as int));
    }
    assert(out@ =~= badges@);
    out
}

impl ReputationContract {
    /// A service without profiles, not initialized.
    pub fn new() -> (service: ReputationContract)
        ensures
            service.wf(),
            service@ == (Reputations { settings: None, profiles: Seq::empty() }),
    {
        let service = ReputationContract { settings: None, profiles: Vec::new() };
        assert(service@.profiles =~= Seq::empty());
        service
    }

    /// The place of the profile of `user`.
    fn find(&self, user: Address) -> (r: Option<usize>)
        requires
            self.wf(),
        ensures
            match r {
                Some(i) => self@.has_profile(user) && i == self@.position(user) && i
                    < self.profiles@.len() && self.profiles@[i as int]@ == self@.profile(user),
                None => !self@.has_profile(user),
            },
    {
        let mut i: usize = 0;
        while i < self.profiles.len()
            invariant
                self.wf(),
                i <= self.profiles.len(),
                forall|k: int| 0 <= k < i ==> (#[trigger] self@.profiles[k]).reputation.user != user,
            decreases self.profiles.len() - i,
        {
            if self.profiles[i].reputation.user == user {
                proof {
                    assert(self@.profiles[i as int].reputation.user == user);
                    let j = self@.position(user);
                    assert(self@.profiles[j].reputation.user == user);
                    assert(j == i);
                }
                return Some(i);
            }
            i += 1;
        }
        None
    }

    /// The decay rate in force.
    pub fn decay_rate(&self) -> (rate: u32)
        ensures
            rate == self@.decay_rate(),
    {
        match self.settings {
            Some(s) => s.decay_rate,
            None => 0,
        }
    }

    /// Sets the administrator and the decay rate, once.
    pub fn initialize(&mut self, admin: Address, decay_rate: u32) -> (r: Result<
        (),
        ReputationError,
    >)
        requires
            old(self).wf(),
        ensures
            final(self).wf(),
            match r {
                Ok(_) => old(self)@.initialize_error(decay_rate) is None && final(self)@ == (
                Reputations { settings: Some(DecaySettings { admin, decay_rate }), ..old(self)@ }),
                Err(e) => old(self)@.initialize_error(decay_rate) == Some(e) && final(self)@
                    == old(self)@,
            },
    {
        if self.settings.is_some() {
            return Err(ReputationError::Unauthorized);
        }
        if decay_rate > MAX_DECAY_RATE {
            return Err(ReputationError::InvalidDecayRate);
        }
        self.settings = Some(DecaySettings { admin, decay_rate });
        assert(self@.profiles =~= old(self)@.profiles);
        Ok(())
    }

    /// Sets the decay rate. Only the administrator may.
    pub fn set_decay_rate(&mut self, admin: Address, rate: u32) -> (r: Result<(), ReputationError>)
        requires
            old(self).wf(),
        ensures
            final(self).wf(),
            match r {
                Ok(_) => old(self)@.set_decay_rate_error(admin, rate) is None && final(self)@ == (
                Reputations {
                    settings: Some(DecaySettings { admin, decay_rate: rate }),
                    ..old(self)@
                }),
                Err(e) => old(self)@.set_decay_rate_error(admin, rate) == Some(e) && final(self)@
                    == old(self)@,
            },
    {
        match self.settings {
            None => Err(ReputationError::NotInitialized),
            Some(s) => {
                if s.admin != admin {
                    return Err(ReputationError::Unauthorized);
                }
                if rate > MAX_DECAY_RATE {
                    return Err(ReputationError::InvalidDecayRate);
                }
                self.settings = Some(DecaySettings { admin, decay_rate: rate });
                assert(self@.profiles =~= old(self)@.profiles);
                Ok(())
            },
        }
    }

    /// Whether the average of `user` at `now` can be computed: its sums can
    /// be held in 64 bits.
    pub fn can_rate(&self, user: Address, now: u64) -> (r: bool)
        requires
            self.wf(),
        ensures
            r == sums_fit(self@.profile(user).reviews, self@.decay_rate(), now),
    {
        match self.find(user) {
            Some(i) => ratings_in_range(&self.profiles[i].reviews, self.decay_rate(), now),
            None => {
                assert(weight_sum(Seq::<Review>::empty(), self@.decay_rate(), now) == 0);
                assert(weighted_score(Seq::<Review>::empty(), self@.decay_rate(), now) == 0);
                true
            },
        }
    }

    /// Why the review is refused, if it is.
    pub fn check_review(
        &self,
        job: Option<JobFacts>,
        reviewer: Address,
        reviewee: Address,
        job_id: u64,
        rating: u32,
    ) -> (r: Result<(), ReputationError>)
        requires
            self.wf(),
        ensures
            match r {
                Ok(_) => self@.submit_error(job, reviewer, reviewee, job_id, rating) is None,
                Err(e) => self@.submit_error(job, reviewer, reviewee, job_id, rating) == Some(e),
            },
    {
        if rating < 1 || rating > 5 {
            return Err(ReputationError::InvalidRating);
        }
        if reviewer == reviewee {
            return Err(ReputationError::SelfReview);
        }
        match self.find(reviewee) {
            Some(i) => {
                if review_listed(&self.profiles[i].reviews, reviewer, job_id) {
                    return Err(ReputationError::AlreadyReviewed);
                }
            },
            None => {
                assert(!has_review(Seq::<Review>::empty(), reviewer, job_id));
            },
        }
        match job {
            None => Err(ReputationError::JobNotFound),
            Some(j) => {
                if j.status != JobStatus::Completed {
                    Err(ReputationError::JobNotCompleted)
                } else if !((reviewer == j.client && reviewee == j.freelancer) || (reviewer
                    == j.freelancer && reviewee == j.client)) {
                    Err(ReputationError::NotJobParticipant)
                } else {
                    Ok(())
                }
            },
        }
    }

    /// Whether `submit_review` can be called with these arguments: the
    /// running totals and the sums of the average stay within 64 bits,
    /// where the review is not refused.
    pub fn review_in_range(
        &self,
        job: Option<JobFacts>,
        reviewer: Address,
        reviewee: Address,
        job_id: u64,
        rating: u32,
        comment: &String,
        stake_weight: i128,
        now: u64,
    ) -> (r: bool)
        requires
            self.wf(),
        ensures
            r == (self@.submit_error(job, reviewer, reviewee, job_id, rating) is None
                ==> self@.review_fits(
                Reputations::new_review(
                    reviewer,
                    reviewee,
                    job_id,
                    rating,
                    *comment,
                    stake_weight,
                    now,
                ),
                now,
            )),
    {
        match self.check_review(job, reviewer, reviewee, job_id, rating) {
            Ok(_) => self.can_take_review(
                reviewer,
                reviewee,
                job_id,
                rating,
                comment,
                stake_weight,
                now,
            ),
            Err(_) => true,
        }
    }

    /// Whether a review of `reviewee` with this rating and stake can be
    /// taken at `now`: the running totals and the sums of the average stay
    /// within 64 bits.
    pub fn can_take_review(
        &self,
        reviewer: Address,
        reviewee: Address,
        job_id: u64,
        rating: u32,
        comment: &String,
        stake_weight: i128,
        now: u64,
    ) -> (r: bool)
        requires
            self.wf(),
        ensures
            r == self@.review_fits(
                Reputations::new_review(
                    reviewer,
                    reviewee,
                    job_id,
                    rating,
                    *comment,
                    stake_weight,
                    now,
                ),
                now,
            ),
    {
        let ghost review = Reputations::new_review(
            reviewer,
            reviewee,
            job_id,
            rating,
            *comment,
            stake_weight,
            now,
        );
        let decay = self.decay_rate();
        let weight: u64 = if stake_weight > 0 {
            weight_bits(stake_weight)
        } else {
            1
        };
        let effective = weight_of(stake_weight, now, decay, now);
        let counted: u64 = if effective > 0 {
            weight_bits(effective)
        } else {
            0
        };
        proof {
            let r = rating as int;
            assert(0 <= r * weight <= 0xffff_ffff * 0xffff_ffff_ffff_ffff) by (nonlinear_arith)
                requires
                    0 <= r <= 0xffff_ffff,
                    0 <= weight <= 0xffff_ffff_ffff_ffff,
            ;
            assert(0 <= r * counted <= 0xffff_ffff * 0xffff_ffff_ffff_ffff) by (nonlinear_arith)
                requires
                    0 <= r <= 0xffff_ffff,
                    0 <= counted <= 0xffff_ffff_ffff_ffff,
            ;
            lemma_review_sums_nonnegative(self@.profile(reviewee).reviews, decay, now);
            assert(self@.profile(reviewee).reviews.push(review).drop_last() =~= self@.profile(
                reviewee,
            ).reviews);
        }
        let (total_score, total_weight, review_count, sums) = match self.find(reviewee) {
            Some(i) => (
                self.profiles[i].reputation.total_score,
                self.profiles[i].reputation.total_weight,
                self.profiles[i].reputation.review_count,
                checked_sums(&self.profiles[i].reviews, decay, now),
            ),
            None => {
                assert(weight_sum(Seq::<Review>::empty(), decay, now) == 0);
                assert(weighted_score(Seq::<Review>::empty(), decay, now) == 0);
                (0, 0, 0, Some((0, 0)))
            },
        };
        if total_score as u128 + rating as u128 * weight as u128 > u64::MAX as u128 {
            return false;
        }
        if weight > u64::MAX - total_weight || review_count == u32::MAX {
            return false;
        }
        match sums {
            Some((score, weights)) => {
                let more: u128 = score as u128 + rating as u128 * counted as u128;
                more <= (u64::MAX / 100) as u128 && counted <= u64::MAX - weights
            },
            None => false,
        }
    }

    /// Whether the service is well formed: no user with two profiles, and
    /// the decay rate a percentage.
    pub fn is_well_formed(&self) -> (r: bool)
        ensures
            r == self.wf(),
    {
        match self.settings {
            Some(s) => {
                if s.decay_rate > MAX_DECAY_RATE {
                    return false;
                }
            },
            None => {},
        }
        let n = self.profiles.len();
        let mut i: usize = 0;
        while i < n
            invariant
                i <= n,
                n == self.profiles@.len(),
                forall|a: int, b: int|
                    0 <= a < i && 0 <= b < a ==> (#[trigger] self@.profiles[a]).reputation.user != (
                    #[trigger] self@.profiles[b]).reputation.user,
            decreases n - i,
        {
            let mut j: usize = 0;
            while j < i
                invariant
                    j <= i,
                    i < n,
                    n == self.profiles@.len(),
                    forall|b: int|
                        0 <= b < j ==> (#[trigger] self@.profiles[b]).reputation.user
                            != self@.profiles[i as int].reputation.user,
                decreases i - j,
            {
                if self.profiles[j].reputation.user == self.profiles[i].reputation.user {
                    assert(self@.profiles[j as int].reputation.user
                        == self@.profiles[i as int].reputation.user);
                    return false;
                }
                j += 1;
            }
            i += 1;
        }
        assert forall|a: int, b: int|
            0 <= a < self@.profiles.len() && 0 <= b < self@.profiles.len() && a != b implies (
        #[trigger] self@.profiles[a]).reputation.user != (
        #[trigger] self@.profiles[b]).reputation.user by {
            if b < a {
            } else {
                assert(self@.profiles[b].reputation.user != self@.profiles[a].reputation.user);
            }
        }
        true
    }

    /// Records the review that one party of the completed job `job_id`
    /// gives the other. `job` is what the job ledger holds of that job, if
    /// anything. The rating is 1 to 5 stars; the stake is the weight of
    /// the review.
    pub fn submit_review(
        &mut self,
        job: Option<JobFacts>,
        reviewer: Address,
        reviewee: Address,
        job_id: u64,
        rating: u32,
        comment: String,
        stake_weight: i128,
        now: u64,
    ) -> (r: Result<(), ReputationError>)
        requires
            old(self).wf(),
            old(self)@.submit_error(job, reviewer, reviewee, job_id, rating) is None ==> old(
                self,
            )@.review_fits(
                Reputations::new_review(
                    reviewer,
                    reviewee,
                    job_id,
                    rating,
                    comment,
                    stake_weight,
                    now,
                ),
                now,
            ),
        ensures
            final(self).wf(),
            match r {
                Ok(_) => {
                    &&& old(self)@.submit_error(job, reviewer, reviewee, job_id, rating) is None
                    &&& final(self)@ == old(self)@.with_profile(
                        old(self)@.reviewed_profile(
                            Reputations::new_review(
                                reviewer,
                                reviewee,
                                job_id,
                                rating,
                                comment,
                                stake_weight,
                                now,
                            ),
                            now,
                        ),
                    )
                },
                Err(e) => {
                    &&& old(self)@.submit_error(job, reviewer, reviewee, job_id, rating) == Some(e)
                    &&& final(self)@ == old(self)@
                },
            },
    {
        match self.check_review(job, reviewer, reviewee, job_id, rating) {
            Ok(_) => {},
            Err(e) => {
                return Err(e);
            },
        }
        let found = self.find(reviewee);
        let weight: u64 = if stake_weight > 0 {
            weight_bits(stake_weight)
        } else {
            1
        };
        let review = Review {
            reviewer,
            reviewee,
            job_id,
            rating,
            comment,
            stake_weight,
            timestamp: now,
        };
        let ghost target = old(self)@.reviewed_profile(review, now);
        let decay = self.decay_rate();
        proof {
            assert(0 <= rating * weight) by (nonlinear_arith)
                requires
                    0 <= rating,
                    0 <= weight,
            ;
        }
        let i = match found {
            Some(i) => i,
            None => {
                self.profiles.push(
                    Profile {
                        reputation: UserReputation {
                            user: reviewee,
                            total_score: 0,
                            total_weight: 0,
                            review_count: 0,
                        },
                        reviews: Vec::new(),
                        badges: Vec::new(),
                    },
                );
                self.profiles.len() - 1
            },
        };
        assert(self.profiles@[i as int]@.reviews =~= old(self)@.profile(reviewee).reviews);
        assert(self.profiles@[i as int]@.badges =~= old(self)@.profile(reviewee).badges);
        self.profiles[i].reputation.total_score = self.profiles[i].reputation.total_score
            + rating as u64 * weight;
        self.profiles[i].reputation.total_weight = self.profiles[i].reputation.total_weight
            + weight;
        self.profiles[i].reputation.review_count = self.profiles[i].reputation.review_count + 1;
        self.profiles[i].reviews.push(review);
        let average = average_at(&self.profiles[i].reviews, decay, now);
        let tier = calculate_tier(average);
        if tier != ReputationTier::Unranked && !badge_listed(&self.profiles[i].badges, tier) {
            self.profiles[i].badges.push(Badge { badge_type: tier, awarded_at: now });
        }
        proof {
            assert(self.profiles@[i as int]@.reviews =~= target.reviews);
            assert(self.profiles@[i as int]@.badges =~= target.badges);
            assert(self.profiles@[i as int]@ == target);
            let next = old(self)@.with_profile(target);
            assert(self@.profiles =~= next.profiles);
            assert(self@.wf()) by {
                assert forall|a: int, b: int|
                    0 <= a < self@.profiles.len() && 0 <= b < self@.profiles.len() && a
                        != b implies (#[trigger] self@.profiles[a]).reputation.user != (
                #[trigger] self@.profiles[b]).reputation.user by {
                    if a < old(self)@.profiles.len() {
                        assert(self@.profiles[a].reputation.user == old(
                            self,
                        )@.profiles[a].reputation.user);
                    }
                    if b < old(self)@.profiles.len() {
                        assert(self@.profiles[b].reputation.user == old(
                            self,
                        )@.profiles[b].reputation.user);
                    }
                }
            }
        }
        Ok(())
    }

    /// The running totals of `user`.
    pub fn get_reputation(&self, user: Address) -> (r: Result<UserReputation, ReputationError>)
        requires
            self.wf(),
        ensures
            match r {
                Ok(rep) => self@.has_profile(user) && rep == self@.profile(user).reputation,
                Err(e) => !self@.has_profile(user) && e == ReputationError::UserNotFound,
            },
    {
        match self.find(user) {
            Some(i) => Ok(self.profiles[i].reputation),
            None => Err(ReputationError::UserNotFound),
        }
    }

    /// The weight of `review` at `current_time`.
    pub fn get_effective_weight(&self, review: &Review, current_time: u64) -> (weight: i128)
        requires
            self.wf(),
        ensures
            weight == effective_weight(*review, self@.decay_rate(), current_time),
    {
        weight_at(review, self.decay_rate(), current_time)
    }

    /// The average rating of `user` at `now`, in hundredths of a star, and
    /// 0 for a user without reviews.
    pub fn get_average_rating(&self, user: Address, now: u64) -> (r: Result<u64, ReputationError>)
        requires
            self.wf(),
            sums_fit(self@.profile(user).reviews, self@.decay_rate(), now),
        ensures
            r == Ok::<u64, ReputationError>(self@.average_rating(user, now) as u64),
            0 <= self@.average_rating(user, now) <= u64::MAX,
    {
        match self.find(user) {
            Some(i) => Ok(average_at(&self.profiles[i].reviews, self.decay_rate(), now)),
            None => {
                assert(weight_sum(Seq::<Review>::empty(), self@.decay_rate(), now) == 0);
                Ok(0)
            },
        }
    }

    /// The number of reviews of `user`.
    pub fn get_review_count(&self, user: Address) -> (count: u32)
        requires
            self.wf(),
        ensures
            count == self@.profile(user).reputation.review_count,
    {
        match self.find(user) {
            Some(i) => self.profiles[i].reputation.review_count,
            None => 0,
        }
    }

    /// The reviews of `user`, in the order in which they came.
    pub fn get_reviews(&self, user: Address) -> (reviews: Vec<Review>)
        requires
            self.wf(),
        ensures
            reviews@ == self@.profile(user).reviews,
    {
        match self.find(user) {
            Some(i) => clone_reviews(&self.profiles[i].reviews),
            None => Vec::new(),
        }
    }

    /// The tier of `user` at `now`.
    pub fn get_tier(&self, user: Address, now: u64) -> (tier: ReputationTier)
        requires
            self.wf(),
            sums_fit(self@.profile(user).reviews, self@.decay_rate(), now),
        ensures
            tier == tier_of(self@.average_rating(user, now) as u64),
    {
        match self.get_average_rating(user, now) {
            Ok(average) => calculate_tier(average),
            Err(_) => ReputationTier::Unranked,
        }
    }

    /// The badges of `user`, in the order in which they were awarded.
    pub fn get_badges(&self, user: Address) -> (badges: Vec<Badge>)
        requires
            self.wf(),
        ensures
            badges@ == self@.profile(user).badges,
    {
        match self.find(user) {
            Some(i) => clone_badges(&self.profiles[i].badges),
            None => Vec::new(),
        }
    }
}

} // verus!
