//! Records of the dispute registry and their mathematical model.

use crate::account::Address;
use crate::escrow::model::DisputeResolution;
use vstd::arithmetic::power2::pow2;
use vstd::prelude::*;

verus! {

/// The least number of votes that a first round asks for.
pub const MIN_VOTES_FLOOR: u32 = 3;

/// How often a dispute can be appealed.
pub const MAX_APPEALS: u32 = 2;

/// For how many ledger sequence numbers after a resolution an appeal is
/// taken.
pub const APPEAL_WINDOW: u64 = 100;

/// The share of votes against the initiator, in per cent, above which a
/// dispute counts as raised in bad faith, where none has been configured.
pub const DEFAULT_MALICIOUS_THRESHOLD: u32 = 80;

/// Why an operation of the dispute registry was refused.
#[derive(Clone, Copy, Debug, PartialEq, Eq, Hash, Structural)]
pub enum DisputeError {
    DisputeNotFound,
    Unauthorized,
    AlreadyVoted,
    VotingClosed,
    NotEnoughVotes,
    InvalidParty,
    AlreadyResolved,
    AppealWindowExpired,
    MaxAppealsReached,
    NotLosingParty,
    CannotAppealBeforeResolution,
    DisputeNotResolved,
    NotWinningVoter,
    AlreadyClaimed,
    NoRewardAvailable,
    NotConfigured,
    AlreadyConfigured,
}

impl DisputeError {
    /// The number under which the error is reported to the host.
    pub open spec fn code_of(self) -> u32 {
        match self {
            DisputeError::DisputeNotFound => 1,
            DisputeError::Unauthorized => 2,
            DisputeError::AlreadyVoted => 3,
            DisputeError::VotingClosed => 4,
            DisputeError::NotEnoughVotes => 5,
            DisputeError::InvalidParty => 6,
            DisputeError::AlreadyResolved => 7,
            DisputeError::AppealWindowExpired => 8,
            DisputeError::MaxAppealsReached => 9,
            DisputeError::NotLosingParty => 10,
            DisputeError::CannotAppealBeforeResolution => 11,
            DisputeError::DisputeNotResolved => 12,
            DisputeError::NotWinningVoter => 13,
            DisputeError::AlreadyClaimed => 14,
            DisputeError::NoRewardAvailable => 15,
            DisputeError::NotConfigured => 16,
            DisputeError::AlreadyConfigured => 17,
        }
    }

    /// The number under which the error is reported to the host.
    pub fn code(self) -> (c: u32)
        ensures
            c == self.code_of(),
    {
        match self {
            DisputeError::DisputeNotFound => 1,
            DisputeError::Unauthorized => 2,
            DisputeError::AlreadyVoted => 3,
            DisputeError::VotingClosed => 4,
            DisputeError::NotEnoughVotes => 5,
            DisputeError::InvalidParty => 6,
            DisputeError::AlreadyResolved => 7,
            DisputeError::AppealWindowExpired => 8,
            DisputeError::MaxAppealsReached => 9,
            DisputeError::NotLosingParty => 10,
            DisputeError::CannotAppealBeforeResolution => 11,
            DisputeError::DisputeNotResolved => 12,
            DisputeError::NotWinningVoter => 13,
            DisputeError::AlreadyClaimed => 14,
            DisputeError::NoRewardAvailable => 15,
            DisputeError::NotConfigured => 16,
            DisputeError::AlreadyConfigured => 17,
        }
    }
}

#[derive(Clone, Copy, Debug, PartialEq, Eq, Hash, Structural)]
pub enum DisputeStatus {
    Open,
    Voting,
    ResolvedForClient,
    ResolvedForFreelancer,
    Appealed,
    FinalResolution,
}

#[derive(Clone, Copy, Debug, PartialEq, Eq, Hash, Structural)]
pub enum VoteChoice {
    Client,
    Freelancer,
}

/// One voter's vote in the current round.
#[derive(Debug, PartialEq, Eq)]
pub struct Vote {
    pub voter: Address,
    pub choice: VoteChoice,
    pub reason: String,
    pub timestamp: u64,
}

impl Clone for Vote {
    fn clone(&self) -> (r: Self)
        ensures
            r == *self,
    {
        Vote {
            voter: self.voter,
            choice: self.choice,
            reason: self.reason.clone(),
            timestamp: self.timestamp,
        }
    }
}

/// A disagreement over a job, decided by the votes of third parties.
#[derive(Debug, PartialEq, Eq)]
pub struct Dispute {
    pub id: u64,
    pub job_id: u64,
    pub client: Address,
    pub freelancer: Address,
    pub initiator: Address,
    pub reason: String,
    pub status: DisputeStatus,
    pub votes_for_client: u32,
    pub votes_for_freelancer: u32,
    pub min_votes: u32,
    pub token: Address,
    pub initiator_penalty_stake: i128,
    pub created_at: u64,
    pub appeal_count: u32,
    pub max_appeals: u32,
    pub appeal_deadline: u64,
    pub resolution_timestamp: u64,
    pub dispute_fee: i128,
    pub malicious: bool,
}

impl Clone for Dispute {
    fn clone(&self) -> (r: Self)
        ensures
            r == *self,
    {
        Dispute {
            id: self.id,
            job_id: self.job_id,
            client: self.client,
            freelancer: self.freelancer,
            initiator: self.initiator,
            reason: self.reason.clone(),
            status: self.status,
            votes_for_client: self.votes_for_client,
            votes_for_freelancer: self.votes_for_freelancer,
            min_votes: self.min_votes,
            token: self.token,
            initiator_penalty_stake: self.initiator_penalty_stake,
            created_at: self.created_at,
            appeal_count: self.appeal_count,
            max_appeals: self.max_appeals,
            appeal_deadline: self.appeal_deadline,
            resolution_timestamp: self.resolution_timestamp,
            dispute_fee: self.dispute_fee,
            malicious: self.malicious,
        }
    }
}

/// What the registry asks the job ledger to do with a job once its dispute
/// is decided for good.
#[derive(Clone, Copy, Debug, PartialEq, Eq, Structural)]
pub struct Settlement {
    pub job_id: u64,
    pub resolution: DisputeResolution,
}

/// The number of votes for `choice`.
pub open spec fn count_votes(votes: Seq<Vote>, choice: VoteChoice) -> nat
    decreases votes.len(),
{
    if votes.len() == 0 {
        0
    } else {
        count_votes(votes.drop_last(), choice) + if votes.last().choice == choice {
            1nat
        } else {
            0nat
        }
    }
}

/// `voter` has voted in the round.
pub open spec fn has_voted(votes: Seq<Vote>, voter: Address) -> bool {
    exists|i: int| 0 <= i < votes.len() && (#[trigger] votes[i]).voter == voter
}

/// `voter` has voted for `choice` in the round.
pub open spec fn voted_for(votes: Seq<Vote>, voter: Address, choice: VoteChoice) -> bool {
    exists|i: int|
        0 <= i < votes.len() && (#[trigger] votes[i]).voter == voter && votes[i].choice == choice
}

/// No voter has two votes in the round.
pub open spec fn one_vote_each(votes: Seq<Vote>) -> bool {
    forall|i: int, j: int|
        0 <= i < votes.len() && 0 <= j < votes.len() && i != j ==> (#[trigger] votes[i]).voter != (
        #[trigger] votes[j]).voter
}

impl Dispute {
    /// The votes that the current round needs: the minimum, doubled with
    /// each appeal.
    pub open spec fn required_votes(self) -> int {
        self.min_votes * pow2(self.appeal_count as nat)
    }

    /// The votes cast in the current round.
    pub open spec fn total_votes(self) -> int {
        self.votes_for_client + self.votes_for_freelancer
    }

    /// The client has at least as many votes as the freelancer: a tie goes
    /// to the client.
    pub open spec fn client_leads(self) -> bool {
        self.votes_for_client >= self.votes_for_freelancer
    }

    /// The party that the votes favour.
    pub open spec fn leader(self) -> Address {
        if self.client_leads() {
            self.client
        } else {
            self.freelancer
        }
    }

    /// The votes for the party that did not raise the dispute.
    pub open spec fn votes_against_initiator(self) -> int {
        if self.initiator == self.client {
            self.votes_for_freelancer as int
        } else {
            self.votes_for_client as int
        }
    }

    /// The votes went against the initiator by more than `threshold` per
    /// cent.
    pub open spec fn malicious_by_votes(self, threshold: u32) -> bool {
        self.total_votes() > 0 && self.votes_against_initiator() * 100 / self.total_votes()
            > threshold
    }

    /// A round has been decided and the decision stands.
    pub open spec fn resolved(self) -> bool {
        self.status == DisputeStatus::ResolvedForClient || self.status
            == DisputeStatus::ResolvedForFreelancer || self.status
            == DisputeStatus::FinalResolution
    }

    /// Votes are taken.
    pub open spec fn voting_open(self) -> bool {
        self.status == DisputeStatus::Open || self.status == DisputeStatus::Voting || self.status
            == DisputeStatus::Appealed
    }

    /// `who` is the client or the freelancer.
    pub open spec fn is_party(self, who: Address) -> bool {
        who == self.client || who == self.freelancer
    }

    /// The side whose voters are rewarded: that of the resolved status,
    /// and after the final resolution that which the votes favour.
    pub open spec fn winning_choice(self) -> VoteChoice {
        if self.status == DisputeStatus::ResolvedForClient {
            VoteChoice::Client
        } else if self.status == DisputeStatus::ResolvedForFreelancer {
            VoteChoice::Freelancer
        } else if self.client_leads() {
            VoteChoice::Client
        } else {
            VoteChoice::Freelancer
        }
    }

    /// The side that the votes favour: the client's with as many votes as
    /// the freelancer's or more.
    pub open spec fn leading_choice(self) -> VoteChoice {
        if self.client_leads() {
            VoteChoice::Client
        } else {
            VoteChoice::Freelancer
        }
    }

    /// The number of votes for the side that the votes favour.
    pub open spec fn leading_count(self) -> int {
        if self.client_leads() {
            self.votes_for_client as int
        } else {
            self.votes_for_freelancer as int
        }
    }

    /// The number of votes for the winning side.
    pub open spec fn winning_count(self) -> int {
        match self.winning_choice() {
            VoteChoice::Client => self.votes_for_client as int,
            VoteChoice::Freelancer => self.votes_for_freelancer as int,
        }
    }

    /// The fee is there to be shared among the winning voters.
    pub open spec fn pays_rewards(self) -> bool {
        self.resolved() && !self.malicious && self.dispute_fee > 0
    }

    /// What each winning voter gets of the fee: an equal part, rounded
    /// down.
    pub open spec fn reward_share(self) -> int {
        if self.winning_count() > 0 {
            (self.dispute_fee as int) / self.winning_count()
        } else {
            0
        }
    }
}

/// What the registry keeps for one dispute.
pub struct DisputeRecord {
    pub dispute: Dispute,
    /// The votes of the current round, in the order in which they came.
    pub votes: Vec<Vote>,
    /// The voters who have claimed a reward.
    pub rewarded: Vec<Address>,
}

/// One dispute of the registry as a mathematical value.
pub struct DisputeEntry {
    pub dispute: Dispute,
    pub votes: Seq<Vote>,
    pub rewarded: Seq<Address>,
}

impl View for DisputeRecord {
    type V = DisputeEntry;

    open spec fn view(&self) -> DisputeEntry {
        DisputeEntry { dispute: self.dispute, votes: self.votes@, rewarded: self.rewarded@ }
    }
}

impl DisputeEntry {
    /// The tallies count the votes of the round, one for each voter; a
    /// round that is resolved for a party is resolved for the party that
    /// the votes favour; and the limits of the appeal rounds are the
    /// registry's.
    pub open spec fn wf(self) -> bool {
        &&& self.dispute.votes_for_client == count_votes(self.votes, VoteChoice::Client)
        &&& self.dispute.votes_for_freelancer == count_votes(self.votes, VoteChoice::Freelancer)
        &&& one_vote_each(self.votes)
        &&& self.dispute.status == DisputeStatus::ResolvedForClient
            ==> self.dispute.client_leads()
        &&& self.dispute.status == DisputeStatus::ResolvedForFreelancer
            ==> !self.dispute.client_leads()
        &&& self.dispute.min_votes >= MIN_VOTES_FLOOR
        &&& self.dispute.max_appeals == MAX_APPEALS
        &&& self.dispute.appeal_count <= MAX_APPEALS
    }

    /// `voter` voted for the winning side.
    pub open spec fn is_winning_voter(self, voter: Address) -> bool {
        voted_for(self.votes, voter, self.dispute.winning_choice())
    }

    /// What `voter` gets of the fee once: the share of a winning voter,
    /// and nothing for anybody else.
    pub open spec fn reward_of(self, voter: Address) -> int {
        if self.dispute.pays_rewards() && self.is_winning_voter(voter) {
            self.dispute.reward_share()
        } else {
            0
        }
    }
}

/// The administrator and the threshold of bad faith.
#[derive(Clone, Copy, Debug, PartialEq, Eq, Structural)]
pub struct Arbitration {
    pub admin: Address,
    pub threshold: u32,
}

/// The dispute registry. Dispute `k` is the `k`-th that was raised, counted
/// from 1.
pub struct DisputeContract {
    pub config: Option<Arbitration>,
    pub records: Vec<DisputeRecord>,
}

/// The dispute registry as a mathematical value.
pub struct Registry {
    pub config: Option<Arbitration>,
    pub disputes: Seq<DisputeEntry>,
}

impl View for DisputeContract {
    type V = Registry;

    open spec fn view(&self) -> Registry {
        Registry {
            config: self.config,
            disputes: Seq::new(self.records@.len(), |i: int| self.records@[i]@),
        }
    }
}

impl Registry {
    pub open spec fn wf(self) -> bool {
        forall|i: int|
            0 <= i < self.disputes.len() ==> (#[trigger] self.disputes[i]).wf()
                && self.disputes[i].dispute.id == i + 1
    }

    pub open spec fn has_dispute(self, dispute_id: u64) -> bool {
        1 <= dispute_id <= self.disputes.len()
    }

    /// The entry of dispute `dispute_id`.
    pub open spec fn entry(self, dispute_id: u64) -> DisputeEntry
        recommends
            self.has_dispute(dispute_id),
    {
        self.disputes[dispute_id - 1]
    }

    /// The registry with another entry for dispute `dispute_id`.
    pub open spec fn with_entry(self, dispute_id: u64, e: DisputeEntry) -> Registry
        recommends
            self.has_dispute(dispute_id),
    {
        Registry { disputes: self.disputes.update(dispute_id - 1, e), ..self }
    }

    /// The threshold of bad faith in force.
    pub open spec fn threshold(self) -> u32 {
        match self.config {
            Some(c) => c.threshold,
            None => DEFAULT_MALICIOUS_THRESHOLD,
        }
    }
}

impl DisputeContract {
    /// The registry is well formed.
    pub open spec fn wf(&self) -> bool {
        self@.wf()
    }
}

/// What one more vote does to the counts.
pub proof fn lemma_count_push(votes: Seq<Vote>, v: Vote, choice: VoteChoice)
    ensures
        count_votes(votes.push(v), choice) == count_votes(votes, choice) + if v.choice == choice {
            1nat
        } else {
            0nat
        },
{
    assert(votes.push(v).drop_last() =~= votes);
}

/// Who voted for a side is counted in its tally.
pub proof fn lemma_voted_counts(votes: Seq<Vote>, voter: Address, choice: VoteChoice)
    requires
        voted_for(votes, voter, choice),
    ensures
        count_votes(votes, choice) > 0,
    decreases votes.len(),
{
    let i = choose|i: int|
        0 <= i < votes.len() && (#[trigger] votes[i]).voter == voter && votes[i].choice == choice;
    if i < votes.len() - 1 {
        assert(votes.drop_last()[i] == votes[i]);
        lemma_voted_counts(votes.drop_last(), voter, choice);
    }
}

} // verus!
