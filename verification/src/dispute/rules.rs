//! The rules of the dispute registry: for each operation, when it is
//! refused, what it asks the asset ledger to move, and the registry that it
//! leaves.
//!
//! The flag that the caller of a resolution passes decides on the fee: with
//! it the fee goes back to the party that the votes favour, and no voter is
//! rewarded. The votes alone decide on the penalty stake.

use crate::account::{deposit_of, release_of, Address, Transfer};
use crate::dispute::model::{
    has_voted, Arbitration, Dispute, DisputeEntry, DisputeError, DisputeStatus, Registry,
    Settlement, Vote, VoteChoice, APPEAL_WINDOW, MAX_APPEALS, MIN_VOTES_FLOOR,
};
use crate::escrow::model::DisputeResolution;
use vstd::prelude::*;

verus! {

/// The minimum of votes that a dispute is raised with: what was asked for,
/// and at least the floor.
pub open spec fn floored_votes(min_votes: u32) -> u32 {
    if min_votes < MIN_VOTES_FLOOR {
        MIN_VOTES_FLOOR
    } else {
        min_votes
    }
}

/// The deposits that put the fee and the stake of a new dispute in
/// custody: none for an amount that is not positive.
pub open spec fn raise_transfers(
    token: Address,
    initiator: Address,
    dispute_fee: i128,
    penalty_stake: i128,
) -> Seq<Transfer> {
    (if dispute_fee > 0 {
        seq![deposit_of(token, initiator, dispute_fee)]
    } else {
        Seq::empty()
    }) + (if penalty_stake > 0 {
        seq![deposit_of(token, initiator, penalty_stake)]
    } else {
        Seq::empty()
    })
}

impl Dispute {
    /// The round that is decided is the last: no appeal is left.
    pub open spec fn is_final_round(self) -> bool {
        self.appeal_count >= self.max_appeals
    }

    /// The status that a resolution gives the dispute.
    pub open spec fn resolved_status(self) -> DisputeStatus {
        if self.is_final_round() {
            DisputeStatus::FinalResolution
        } else if self.client_leads() {
            DisputeStatus::ResolvedForClient
        } else {
            DisputeStatus::ResolvedForFreelancer
        }
    }

    /// The dispute after a resolution.
    pub open spec fn resolve(self, malicious: bool, now: u64, sequence: u32) -> Dispute {
        Dispute {
            status: self.resolved_status(),
            resolution_timestamp: now,
            appeal_deadline: (sequence + APPEAL_WINDOW) as u64,
            malicious,
            ..self
        }
    }

    /// What a final resolution asks of the job ledger.
    pub open spec fn settlement(self) -> Option<Settlement> {
        if self.is_final_round() {
            Some(
                Settlement {
                    job_id: self.job_id,
                    resolution: if self.client_leads() {
                        DisputeResolution::ClientWins
                    } else {
                        DisputeResolution::FreelancerWins
                    },
                },
            )
        } else {
            None
        }
    }

    /// The transfers of a resolution: the fee back to the party that the
    /// votes favour, where the caller flags the dispute as malicious; and
    /// the penalty stake to that party, where the votes show bad faith,
    /// else back to the initiator.
    pub open spec fn resolve_transfers(self, malicious: bool, threshold: u32) -> Seq<Transfer> {
        (if malicious && self.dispute_fee > 0 {
            seq![release_of(self.token, self.leader(), self.dispute_fee)]
        } else {
            Seq::empty()
        }) + (if self.initiator_penalty_stake > 0 {
            seq![
                release_of(
                    self.token,
                    if self.malicious_by_votes(threshold) {
                        self.leader()
                    } else {
                        self.initiator
                    },
                    self.initiator_penalty_stake,
                ),
            ]
        } else {
            Seq::empty()
        })
    }

    /// The party that lost the round that was decided last.
    pub open spec fn is_losing_party(self, who: Address) -> bool {
        match self.status {
            DisputeStatus::ResolvedForClient => who == self.freelancer,
            DisputeStatus::ResolvedForFreelancer => who == self.client,
            _ => false,
        }
    }

    /// The dispute with a new round of votes opened.
    pub open spec fn appeal(self) -> Dispute {
        Dispute {
            appeal_count: (self.appeal_count + 1) as u32,
            status: DisputeStatus::Appealed,
            votes_for_client: 0,
            votes_for_freelancer: 0,
            ..self
        }
    }

    /// The dispute with one more vote for `choice`.
    pub open spec fn tally(self, choice: VoteChoice) -> Dispute {
        match choice {
            VoteChoice::Client => Dispute {
                votes_for_client: (self.votes_for_client + 1) as u32,
                status: DisputeStatus::Voting,
                ..self
            },
            VoteChoice::Freelancer => Dispute {
                votes_for_freelancer: (self.votes_for_freelancer + 1) as u32,
                status: DisputeStatus::Voting,
                ..self
            },
        }
    }

    /// The tally of `choice`.
    pub open spec fn votes_for(self, choice: VoteChoice) -> u32 {
        match choice {
            VoteChoice::Client => self.votes_for_client,
            VoteChoice::Freelancer => self.votes_for_freelancer,
        }
    }
}

impl DisputeEntry {
    /// Why `voter` cannot claim a reward, if so.
    pub open spec fn claim_error(self, voter: Address) -> Option<DisputeError> {
        let d = self.dispute;
        if !d.resolved() {
            Some(DisputeError::DisputeNotResolved)
        } else if d.malicious {
            Some(DisputeError::NoRewardAvailable)
        } else if d.dispute_fee <= 0 {
            Some(DisputeError::NoRewardAvailable)
        } else if self.rewarded.contains(voter) {
            Some(DisputeError::AlreadyClaimed)
        } else if !self.is_winning_voter(voter) {
            Some(DisputeError::NotWinningVoter)
        } else if d.winning_count() == 0 {
            Some(DisputeError::NoRewardAvailable)
        } else if d.reward_share() <= 0 {
            Some(DisputeError::NoRewardAvailable)
        } else {
            None
        }
    }

    /// What `voter` can claim now: the share, where the voter won and has
    /// not claimed yet.
    pub open spec fn claimable(self, voter: Address) -> int {
        if self.rewarded.contains(voter) {
            0
        } else {
            self.reward_of(voter)
        }
    }
}

impl Registry {
    // ---- administration ----
    pub open spec fn initialize_error(self) -> Option<DisputeError> {
        if self.config is Some {
            Some(DisputeError::AlreadyConfigured)
        } else {
            None
        }
    }

    pub open spec fn initialize_next(self, admin: Address, threshold: u32) -> Registry {
        Registry { config: Some(Arbitration { admin, threshold }), ..self }
    }

    /// The registry has no administrator yet.
    pub open spec fn admin_error(self) -> Option<DisputeError> {
        if self.config is None {
            Some(DisputeError::NotConfigured)
        } else {
            None
        }
    }

    pub open spec fn set_threshold_next(self, threshold: u32) -> Registry {
        Registry { config: Some(Arbitration { threshold, ..self.config->0 }), ..self }
    }

    pub open spec fn set_admin_next(self, new_admin: Address) -> Registry {
        Registry { config: Some(Arbitration { admin: new_admin, ..self.config->0 }), ..self }
    }

    // ---- raising ----
    pub open spec fn raise_error(client: Address, freelancer: Address, initiator: Address) -> Option<
        DisputeError,
    > {
        if initiator != client && initiator != freelancer {
            Some(DisputeError::InvalidParty)
        } else {
            None
        }
    }

    /// The entry of the dispute that `raise_dispute` adds.
    pub open spec fn raised_entry(
        self,
        job_id: u64,
        client: Address,
        freelancer: Address,
        initiator: Address,
        reason: String,
        min_votes: u32,
        dispute_fee: i128,
        token: Address,
        penalty_stake: i128,
        now: u64,
    ) -> DisputeEntry {
        DisputeEntry {
            dispute: Dispute {
                id: (self.disputes.len() + 1) as u64,
                job_id,
                client,
                freelancer,
                initiator,
                reason,
                status: DisputeStatus::Open,
                votes_for_client: 0,
                votes_for_freelancer: 0,
                min_votes: floored_votes(min_votes),
                token,
                initiator_penalty_stake: penalty_stake,
                created_at: now,
                appeal_count: 0,
                max_appeals: MAX_APPEALS,
                appeal_deadline: 0,
                resolution_timestamp: 0,
                dispute_fee,
                malicious: false,
            },
            votes: Seq::empty(),
            rewarded: Seq::empty(),
        }
    }

    // ---- voting ----
    pub open spec fn vote_error(self, dispute_id: u64, voter: Address) -> Option<DisputeError> {
        if !self.has_dispute(dispute_id) {
            Some(DisputeError::DisputeNotFound)
        } else {
            let e = self.entry(dispute_id);
            if !e.dispute.voting_open() {
                Some(DisputeError::VotingClosed)
            } else if e.dispute.is_party(voter) {
                Some(DisputeError::InvalidParty)
            } else if has_voted(e.votes, voter) {
                Some(DisputeError::AlreadyVoted)
            } else {
                None
            }
        }
    }

    pub open spec fn vote_next(
        self,
        dispute_id: u64,
        voter: Address,
        choice: VoteChoice,
        reason: String,
        now: u64,
    ) -> Registry {
        let e = self.entry(dispute_id);
        self.with_entry(
            dispute_id,
            DisputeEntry {
                dispute: e.dispute.tally(choice),
                votes: e.votes.push(Vote { voter, choice, reason, timestamp: now }),
                ..e
            },
        )
    }

    // ---- resolution ----
    pub open spec fn resolve_error(self, dispute_id: u64) -> Option<DisputeError> {
        if !self.has_dispute(dispute_id) {
            Some(DisputeError::DisputeNotFound)
        } else {
            let d = self.entry(dispute_id).dispute;
            if d.status == DisputeStatus::FinalResolution {
                Some(DisputeError::AlreadyResolved)
            } else if d.total_votes() < d.required_votes() {
                Some(DisputeError::NotEnoughVotes)
            } else {
                None
            }
        }
    }

    pub open spec fn resolve_next(self, dispute_id: u64, malicious: bool, now: u64, sequence: u32) -> Registry {
        let e = self.entry(dispute_id);
        self.with_entry(
            dispute_id,
            DisputeEntry { dispute: e.dispute.resolve(malicious, now, sequence), ..e },
        )
    }

    /// Whether the votes of a resolved dispute went against its initiator
    /// by more than the threshold. A dispute that is open, or resolved for
    /// good, does not count.
    pub open spec fn malicious(self, dispute_id: u64) -> bool {
        let d = self.entry(dispute_id).dispute;
        (d.status == DisputeStatus::ResolvedForClient || d.status
            == DisputeStatus::ResolvedForFreelancer) && d.malicious_by_votes(self.threshold())
    }

    // ---- appeal ----
    pub open spec fn appeal_error(self, dispute_id: u64, appellant: Address, sequence: u32) -> Option<
        DisputeError,
    > {
        if !self.has_dispute(dispute_id) {
            Some(DisputeError::DisputeNotFound)
        } else {
            let d = self.entry(dispute_id).dispute;
            if d.appeal_count >= d.max_appeals {
                Some(DisputeError::MaxAppealsReached)
            } else if !d.resolved() {
                Some(DisputeError::CannotAppealBeforeResolution)
            } else if d.status == DisputeStatus::FinalResolution {
                Some(DisputeError::MaxAppealsReached)
            } else if sequence > d.appeal_deadline {
                Some(DisputeError::AppealWindowExpired)
            } else if !d.is_losing_party(appellant) {
                Some(DisputeError::NotLosingParty)
            } else {
                None
            }
        }
    }

    pub open spec fn appeal_next(self, dispute_id: u64) -> Registry {
        let e = self.entry(dispute_id);
        self.with_entry(
            dispute_id,
            DisputeEntry { dispute: e.dispute.appeal(), votes: Seq::empty(), ..e },
        )
    }

    // ---- rewards ----
    pub open spec fn claim_error(self, dispute_id: u64, voter: Address) -> Option<DisputeError> {
        if !self.has_dispute(dispute_id) {
            Some(DisputeError::DisputeNotFound)
        } else {
            self.entry(dispute_id).claim_error(voter)
        }
    }

    pub open spec fn claim_next(self, dispute_id: u64, voter: Address) -> Registry {
        let e = self.entry(dispute_id);
        self.with_entry(dispute_id, DisputeEntry { rewarded: e.rewarded.push(voter), ..e })
    }

    /// What `voter` can claim of dispute `dispute_id` now.
    pub open spec fn claimable(self, dispute_id: u64, voter: Address) -> int {
        if self.has_dispute(dispute_id) {
            self.entry(dispute_id).claimable(voter)
        } else {
            0
        }
    }
}

} // verus!
