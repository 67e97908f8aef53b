//! The operations of the dispute registry.
//!
//! The caller named in an operation has been authenticated by the embedding
//! application; `now` is its clock and `sequence` the number of the current
//! block of the host ledger. An operation that is refused leaves the
//! registry as it was.

use crate::account::{Address, Transfer};
use crate::dispute::model::{
    count_votes, has_voted, lemma_count_push, one_vote_each, voted_for,
    Arbitration, Dispute, DisputeContract, DisputeEntry, DisputeError, DisputeRecord,
    DisputeStatus, Registry, Settlement, Vote, VoteChoice, APPEAL_WINDOW,
    DEFAULT_MALICIOUS_THRESHOLD, MAX_APPEALS, MIN_VOTES_FLOOR,
};
use crate::dispute::rules::raise_transfers;
use crate::escrow::model::DisputeResolution;
use vstd::arithmetic::power2::lemma2_to64;
use vstd::prelude::*;

verus! {

/// What a resolution leaves to be done: the status that the dispute has
/// now, the settlement of the job where the resolution is final, and the
/// transfers of fee and stake.
pub struct Resolution {
    pub status: DisputeStatus,
    pub settlement: Option<Settlement>,
    pub transfers: Vec<Transfer>,
}

/// `post` is `pre` with entry `e` for dispute `dispute_id`.
pub proof fn lemma_dispute_replaced(
    pre: DisputeContract,
    post: DisputeContract,
    dispute_id: u64,
    e: DisputeEntry,
)
    requires
        pre@.has_dispute(dispute_id),
        post.config == pre.config,
        post.records@.len() == pre.records@.len(),
        forall|k: int|
            0 <= k < pre.records@.len() && k != dispute_id - 1 ==> post.records@[k]@
                == pre.records@[k]@,
        post.records@[dispute_id - 1]@ == e,
    ensures
        post@ == pre@.with_entry(dispute_id, e),
        pre.wf() && e.wf() && e.dispute.id == dispute_id ==> post.wf(),
{
    assert(post@.disputes =~= pre@.disputes.update(dispute_id - 1, e));
}

/// Whether `voter` has voted in the round.
pub fn voter_listed(votes: &Vec<Vote>, voter: Address) -> (r: bool)
    ensures
        r == has_voted(votes@, voter),
{
    let mut i: usize = 0;
    while i < votes.len()
        invariant
            i <= votes.len(),
            forall|k: int| 0 <= k < i ==> (#[trigger] votes@[k]).voter != voter,
        decreases votes.len() - i,
    {
        if votes[i].voter == voter {
            return true;
        }
        i += 1;
    }
    false
}

/// Whether `voter` has voted for `choice` in the round.
pub fn voter_sided(votes: &Vec<Vote>, voter: Address, choice: VoteChoice) -> (r: bool)
    ensures
        r == voted_for(votes@, voter, choice),
{
    let mut i: usize = 0;
    while i < votes.len()
        invariant
            i <= votes.len(),
            forall|k: int|
                0 <= k < i ==> !((#[trigger] votes@[k]).voter == voter && votes@[k].choice
                    == choice),
        decreases votes.len() - i,
    {
        if votes[i].voter == voter && votes[i].choice == choice {
            return true;
        }
        i += 1;
    }
    false
}

/// Whether `who` is in the list.
pub fn address_listed(list: &Vec<Address>, who: Address) -> (r: bool)
    ensures
        r == list@.contains(who),
{
    let mut i: usize = 0;
    while i < list.len()
        invariant
            i <= list.len(),
            forall|k: int| 0 <= k < i ==> list@[k] != who,
        decreases list.len() - i,
    {
        if list[i] == who {
            return true;
        }
        i += 1;
    }
    false
}

/// A copy of the votes.
pub fn clone_votes(votes: &Vec<Vote>) -> (r: Vec<Vote>)
    ensures
        r@ == votes@,
{
    let mut out: Vec<Vote> = Vec::new();
    let mut i: usize = 0;
    while i < votes.len()
        invariant
            i <= votes.len(),
            out@ == votes@.take(i as int),
        decreases votes.len() - i,
    {
        out.push(votes[i].clone());
        i += 1;
        assert(out@ =~= votes@.take(i as int));
    }
    assert(out@ =~= votes@);
    out
}

/// The number of votes for `choice`.
pub fn tally_votes(votes: &Vec<Vote>, choice: VoteChoice) -> (count: usize)
    ensures
        count == count_votes(votes@, choice),
{
    let mut count: usize = 0;
    let mut i: usize = 0;
    while i < votes.len()
        invariant
            i <= votes.len(),
            count <= i,
            count == count_votes(votes@.take(i as int), choice),
        decreases votes.len() - i,
    {
        proof {
            assert(votes@.take(i as int + 1).drop_last() =~= votes@.take(i as int));
        }
        if votes[i].choice == choice {
            count += 1;
        }
        i += 1;
    }
    assert(votes@.take(votes.len() as int) =~= votes@);
    count
}

/// Whether no voter has two votes in the round.
pub fn voters_differ(votes: &Vec<Vote>) -> (r: bool)
    ensures
        r == one_vote_each(votes@),
{
    let n = votes.len();
    let mut i: usize = 0;
    while i < n
        invariant
            i <= n,
            n == votes@.len(),
            forall|a: int, b: int|
                0 <= a < i && 0 <= b < a ==> (#[trigger] votes@[a]).voter != (
                #[trigger] votes@[b]).voter,
        decreases n - i,
    {
        let mut j: usize = 0;
        while j < i
            invariant
                j <= i,
                i < n,
                n == votes@.len(),
                forall|b: int| 0 <= b < j ==> (#[trigger] votes@[b]).voter != votes@[i as int].voter,
            decreases i - j,
        {
            if votes[j].voter == votes[i].voter {
                assert(votes@[j as int].voter == votes@[i as int].voter);
                return false;
            }
            j += 1;
        }
        i += 1;
    }
    assert forall|a: int, b: int|
        0 <= a < votes@.len() && 0 <= b < votes@.len() && a != b implies (#[trigger] votes@[a]).voter
        != (#[trigger] votes@[b]).voter by {
        if b < a {
        } else {
            assert(votes@[b].voter != votes@[a].voter);
        }
    }
    true
}

impl DisputeRecord {
    /// Whether the tallies count the votes of the round, one for each
    /// voter, a round that is resolved for a party is resolved for the
    /// party that the votes favour, and the limits of the appeal rounds
    /// are the registry's.
    pub fn is_well_formed(&self) -> (r: bool)
        ensures
            r == self@.wf(),
    {
        let for_client = tally_votes(&self.votes, VoteChoice::Client);
        let for_freelancer = tally_votes(&self.votes, VoteChoice::Freelancer);
        let client_leads = self.dispute.votes_for_client >= self.dispute.votes_for_freelancer;
        let sided = match self.dispute.status {
            DisputeStatus::ResolvedForClient => client_leads,
            DisputeStatus::ResolvedForFreelancer => !client_leads,
            _ => true,
        };
        for_client as u64 == self.dispute.votes_for_client as u64 && for_freelancer as u64
            == self.dispute.votes_for_freelancer as u64 && voters_differ(&self.votes) && sided
            && self.dispute.min_votes >= MIN_VOTES_FLOOR && self.dispute.max_appeals == MAX_APPEALS
            && self.dispute.appeal_count <= MAX_APPEALS
    }
}

impl Dispute {
    /// Whether the votes went against the initiator by more than
    /// `threshold` per cent.
    pub fn shows_bad_faith(&self, threshold: u32) -> (r: bool)
        ensures
            r == self.malicious_by_votes(threshold),
    {
        let total: u64 = self.votes_for_client as u64 + self.votes_for_freelancer as u64;
        if total == 0 {
            return false;
        }
        let against: u64 = if self.initiator == self.client {
            self.votes_for_freelancer as u64
        } else {
            self.votes_for_client as u64
        };
        against * 100 / total > threshold as u64
    }

    /// Whether the round has the votes that it needs.
    pub fn has_enough_votes(&self) -> (r: bool)
        requires
            self.appeal_count <= MAX_APPEALS,
        ensures
            r == (self.total_votes() >= self.required_votes()),
    {
        proof {
            lemma2_to64();
        }
        let factor: u64 = if self.appeal_count == 0 {
            1
        } else if self.appeal_count == 1 {
            2
        } else {
            4
        };
        self.votes_for_client as u64 + self.votes_for_freelancer as u64 >= self.min_votes as u64
            * factor
    }

    /// The side whose voters are rewarded.
    pub fn winning_side(&self) -> (r: VoteChoice)
        ensures
            r == self.winning_choice(),
    {
        if self.status == DisputeStatus::ResolvedForClient {
            VoteChoice::Client
        } else if self.status == DisputeStatus::ResolvedForFreelancer {
            VoteChoice::Freelancer
        } else if self.votes_for_client >= self.votes_for_freelancer {
            VoteChoice::Client
        } else {
            VoteChoice::Freelancer
        }
    }

    /// Whether a round has been decided and the decision stands.
    pub fn is_resolved(&self) -> (r: bool)
        ensures
            r == self.resolved(),
    {
        self.status == DisputeStatus::ResolvedForClient || self.status
            == DisputeStatus::ResolvedForFreelancer || self.status
            == DisputeStatus::FinalResolution
    }
}

impl DisputeContract {
    /// A registry without disputes and without configuration.
    pub fn new() -> (registry: DisputeContract)
        ensures
            registry.wf(),
            registry@ == (Registry { config: None, disputes: Seq::empty() }),
    {
        let registry = DisputeContract { config: None, records: Vec::new() };
        assert(registry@.disputes =~= Seq::empty());
        registry
    }

    /// The place of dispute `dispute_id` among the records.
    fn slot(&self, dispute_id: u64) -> (r: Option<usize>)
        ensures
            match r {
                Some(i) => self@.has_dispute(dispute_id) && i == dispute_id - 1 && i
                    < self.records@.len(),
                None => !self@.has_dispute(dispute_id),
            },
    {
        if dispute_id >= 1 && dispute_id <= self.records.len() as u64 {
            Some((dispute_id - 1) as usize)
        } else {
            None
        }
    }

    /// The threshold of bad faith in force.
    pub fn malicious_threshold(&self) -> (t: u32)
        ensures
            t == self@.threshold(),
    {
        match self.config {
            Some(c) => c.threshold,
            None => DEFAULT_MALICIOUS_THRESHOLD,
        }
    }

    /// Sets the administrator and the threshold of bad faith, once.
    pub fn initialize(&mut self, admin: Address, threshold: u32) -> (r: Result<(), DisputeError>)
        requires
            old(self).wf(),
        ensures
            final(self).wf(),
            match r {
                Ok(_) => old(self)@.initialize_error() is None && final(self)@ == old(
                    self,
                )@.initialize_next(admin, threshold),
                Err(e) => old(self)@.initialize_error() == Some(e) && final(self)@ == old(self)@,
            },
    {
        if self.config.is_some() {
            return Err(DisputeError::AlreadyConfigured);
        }
        self.config = Some(Arbitration { admin, threshold });
        assert(self@.disputes =~= old(self)@.disputes);
        Ok(())
    }

    /// Sets the threshold of bad faith. The administrator has authorized
    /// the call.
    pub fn set_malicious_threshold(&mut self, threshold: u32) -> (r: Result<(), DisputeError>)
        requires
            old(self).wf(),
        ensures
            final(self).wf(),
            match r {
                Ok(_) => old(self)@.admin_error() is None && final(self)@ == old(
                    self,
                )@.set_threshold_next(threshold),
                Err(e) => old(self)@.admin_error() == Some(e) && final(self)@ == old(self)@,
            },
    {
        match self.config {
            None => Err(DisputeError::NotConfigured),
            Some(c) => {
                self.config = Some(Arbitration { admin: c.admin, threshold });
                assert(self@.disputes =~= old(self)@.disputes);
                Ok(())
            },
        }
    }

    /// Hands the administration over. The administrator has authorized the
    /// call.
    pub fn set_admin(&mut self, new_admin: Address) -> (r: Result<(), DisputeError>)
        requires
            old(self).wf(),
        ensures
            final(self).wf(),
            match r {
                Ok(_) => old(self)@.admin_error() is None && final(self)@ == old(
                    self,
                )@.set_admin_next(new_admin),
                Err(e) => old(self)@.admin_error() == Some(e) && final(self)@ == old(self)@,
            },
    {
        match self.config {
            None => Err(DisputeError::NotConfigured),
            Some(c) => {
                self.config = Some(Arbitration { admin: new_admin, threshold: c.threshold });
                assert(self@.disputes =~= old(self)@.disputes);
                Ok(())
            },
        }
    }

    /// Whether the votes of a resolved dispute went against its initiator
    /// by more than the threshold.
    pub fn is_malicious_dispute(&self, dispute_id: u64) -> (r: Result<bool, DisputeError>)
        ensures
            match r {
                Ok(b) => self@.has_dispute(dispute_id) && b == self@.malicious(dispute_id),
                Err(e) => !self@.has_dispute(dispute_id) && e == DisputeError::DisputeNotFound,
            },
    {
        let i = match self.slot(dispute_id) {
            Some(i) => i,
            None => {
                return Err(DisputeError::DisputeNotFound);
            },
        };
        let status = self.records[i].dispute.status;
        if status != DisputeStatus::ResolvedForClient && status
            != DisputeStatus::ResolvedForFreelancer {
            return Ok(false);
        }
        Ok(self.records[i].dispute.shows_bad_faith(self.malicious_threshold()))
    }

    /// Client or freelancer raises a dispute over a job. Fee and penalty
    /// stake go from the initiator into custody. Returns the number of the
    /// dispute and the deposits.
    pub fn raise_dispute(
        &mut self,
        job_id: u64,
        client: Address,
        freelancer: Address,
        initiator: Address,
        reason: String,
        min_votes: u32,
        dispute_fee: i128,
        token: Address,
        penalty_stake: i128,
        now: u64,
    ) -> (r: Result<(u64, Vec<Transfer>), DisputeError>)
        requires
            old(self).wf(),
            old(self)@.disputes.len() < u64::MAX,
        ensures
            final(self).wf(),
            match r {
                Ok((id, transfers)) => {
                    &&& Registry::raise_error(client, freelancer, initiator) is None
                    &&& id == old(self)@.disputes.len() + 1
                    &&& transfers@ == raise_transfers(token, initiator, dispute_fee, penalty_stake)
                    &&& final(self)@ == (Registry {
                        disputes: old(self)@.disputes.push(
                            old(self)@.raised_entry(
                                job_id,
                                client,
                                freelancer,
                                initiator,
                                reason,
                                min_votes,
                                dispute_fee,
                                token,
                                penalty_stake,
                                now,
                            ),
                        ),
                        ..old(self)@
                    })
                },
                Err(e) => {
                    &&& Registry::raise_error(client, freelancer, initiator) == Some(e)
                    &&& final(self)@ == old(self)@
                },
            },
    {
        if initiator != client && initiator != freelancer {
            return Err(DisputeError::InvalidParty);
        }
        let mut transfers: Vec<Transfer> = Vec::new();
        if dispute_fee > 0 {
            transfers.push(Transfer::deposit(token, initiator, dispute_fee));
        }
        if penalty_stake > 0 {
            transfers.push(Transfer::deposit(token, initiator, penalty_stake));
        }
        assert(transfers@ =~= raise_transfers(token, initiator, dispute_fee, penalty_stake));
        let id = self.records.len() as u64 + 1;
        let dispute = Dispute {
            id,
            job_id,
            client,
            freelancer,
            initiator,
            reason,
            status: DisputeStatus::Open,
            votes_for_client: 0,
            votes_for_freelancer: 0,
            min_votes: if min_votes < MIN_VOTES_FLOOR {
                MIN_VOTES_FLOOR
            } else {
                min_votes
            },
            token,
            initiator_penalty_stake: penalty_stake,
            created_at: now,
            appeal_count: 0,
            max_appeals: MAX_APPEALS,
            appeal_deadline: 0,
            resolution_timestamp: 0,
            dispute_fee,
            malicious: false,
        };
        self.records.push(DisputeRecord { dispute, votes: Vec::new(), rewarded: Vec::new() });
        proof {
            let entry = old(self)@.raised_entry(
                job_id,
                client,
                freelancer,
                initiator,
                reason,
                min_votes,
                dispute_fee,
                token,
                penalty_stake,
                now,
            );
            assert(self.records@.last()@.votes =~= entry.votes);
            assert(self.records@.last()@.rewarded =~= entry.rewarded);
            assert(self@.disputes =~= old(self)@.disputes.push(entry));
        }
        Ok((id, transfers))
    }

    /// A third party votes for the client or for the freelancer, once in a
    /// round. Client and freelancer do not vote.
    pub fn cast_vote(
        &mut self,
        dispute_id: u64,
        voter: Address,
        choice: VoteChoice,
        reason: String,
        now: u64,
    ) -> (r: Result<(), DisputeError>)
        requires
            old(self).wf(),
            old(self)@.vote_error(dispute_id, voter) is None ==> old(self)@.entry(
                dispute_id,
            ).dispute.votes_for(choice) < u32::MAX,
        ensures
            final(self).wf(),
            match r {
                Ok(_) => {
                    &&& old(self)@.vote_error(dispute_id, voter) is None
                    &&& final(self)@ == old(self)@.vote_next(dispute_id, voter, choice, reason, now)
                },
                Err(e) => {
                    &&& old(self)@.vote_error(dispute_id, voter) == Some(e)
                    &&& final(self)@ == old(self)@
                },
            },
    {
        let i = match self.slot(dispute_id) {
            Some(i) => i,
            None => {
                return Err(DisputeError::DisputeNotFound);
            },
        };
        let status = self.records[i].dispute.status;
        if status != DisputeStatus::Open && status != DisputeStatus::Voting && status
            != DisputeStatus::Appealed {
            return Err(DisputeError::VotingClosed);
        }
        if voter == self.records[i].dispute.client || voter == self.records[i].dispute.freelancer {
            return Err(DisputeError::InvalidParty);
        }
        if voter_listed(&self.records[i].votes, voter) {
            return Err(DisputeError::AlreadyVoted);
        }
        let vote = Vote { voter, choice, reason, timestamp: now };
        self.records[i].votes.push(vote);
        match choice {
            VoteChoice::Client => {
                self.records[i].dispute.votes_for_client = self.records[i].dispute.votes_for_client
                    + 1;
            },
            VoteChoice::Freelancer => {
                self.records[i].dispute.votes_for_freelancer =
                    self.records[i].dispute.votes_for_freelancer + 1;
            },
        }
        self.records[i].dispute.status = DisputeStatus::Voting;
        proof {
            let e = old(self)@.entry(dispute_id);
            let next = DisputeEntry {
                dispute: e.dispute.tally(choice),
                votes: e.votes.push(vote),
                ..e
            };
            assert(e.wf());
            lemma_count_push(e.votes, vote, VoteChoice::Client);
            lemma_count_push(e.votes, vote, VoteChoice::Freelancer);
            assert(one_vote_each(next.votes)) by {
                assert forall|a: int, b: int|
                    0 <= a < next.votes.len() && 0 <= b < next.votes.len() && a != b implies (
                #[trigger] next.votes[a]).voter != (#[trigger] next.votes[b]).voter by {
                    if a < e.votes.len() {
                        assert(next.votes[a] == e.votes[a]);
                    }
                    if b < e.votes.len() {
                        assert(next.votes[b] == e.votes[b]);
                    }
                }
            }
            lemma_dispute_replaced(*old(self), *self, dispute_id, next);
        }
        Ok(())
    }

    /// What a resolution of dispute `dispute_id` would ask of the job
    /// ledger now, if it would be taken.
    pub fn pending_settlement(&self, dispute_id: u64) -> (r: Result<Option<Settlement>, DisputeError>)
        requires
            self.wf(),
        ensures
            match r {
                Ok(s) => self@.resolve_error(dispute_id) is None && s == self@.entry(
                    dispute_id,
                ).dispute.settlement(),
                Err(e) => self@.resolve_error(dispute_id) == Some(e),
            },
    {
        let i = match self.slot(dispute_id) {
            Some(i) => i,
            None => {
                return Err(DisputeError::DisputeNotFound);
            },
        };
        if self.records[i].dispute.status == DisputeStatus::FinalResolution {
            return Err(DisputeError::AlreadyResolved);
        }
        proof {
            assert(self@.disputes[i as int].wf());
        }
        if !self.records[i].dispute.has_enough_votes() {
            return Err(DisputeError::NotEnoughVotes);
        }
        if self.records[i].dispute.appeal_count >= self.records[i].dispute.max_appeals {
            let resolution = if self.records[i].dispute.votes_for_client
                >= self.records[i].dispute.votes_for_freelancer {
                DisputeResolution::ClientWins
            } else {
                DisputeResolution::FreelancerWins
            };
            Ok(Some(Settlement { job_id: self.records[i].dispute.job_id, resolution }))
        } else {
            Ok(None)
        }
    }

    /// Decides the current round by its votes, once there are enough. The
    /// last round's decision is final and comes with the settlement of the
    /// job; an earlier one can be appealed. With `malicious` the fee goes
    /// back to the party that the votes favour, and no voter is rewarded.
    /// The penalty stake goes to that party where the votes show bad
    /// faith, and back to the initiator where they do not.
    pub fn resolve_dispute(&mut self, dispute_id: u64, malicious: bool, now: u64, sequence: u32) -> (r:
        Result<Resolution, DisputeError>)
        requires
            old(self).wf(),
        ensures
            final(self).wf(),
            match r {
                Ok(resolution) => {
                    &&& old(self)@.resolve_error(dispute_id) is None
                    &&& resolution.status == old(self)@.entry(dispute_id).dispute.resolved_status()
                    &&& resolution.settlement == old(self)@.entry(dispute_id).dispute.settlement()
                    &&& resolution.transfers@ == old(self)@.entry(
                        dispute_id,
                    ).dispute.resolve_transfers(malicious, old(self)@.threshold())
                    &&& final(self)@ == old(self)@.resolve_next(
                        dispute_id,
                        malicious,
                        now,
                        sequence,
                    )
                },
                Err(e) => {
                    &&& old(self)@.resolve_error(dispute_id) == Some(e)
                    &&& final(self)@ == old(self)@
                },
            },
    {
        let i = match self.slot(dispute_id) {
            Some(i) => i,
            None => {
                return Err(DisputeError::DisputeNotFound);
            },
        };
        if self.records[i].dispute.status == DisputeStatus::FinalResolution {
            return Err(DisputeError::AlreadyResolved);
        }
        proof {
            assert(old(self)@.disputes[i as int].wf());
        }
        if !self.records[i].dispute.has_enough_votes() {
            return Err(DisputeError::NotEnoughVotes);
        }
        let votes_client = self.records[i].dispute.votes_for_client;
        let votes_freelancer = self.records[i].dispute.votes_for_freelancer;
        let appeals = self.records[i].dispute.appeal_count;
        let for_client = votes_client >= votes_freelancer;
        let is_final = appeals >= self.records[i].dispute.max_appeals;
        let status = if is_final {
            DisputeStatus::FinalResolution
        } else if for_client {
            DisputeStatus::ResolvedForClient
        } else {
            DisputeStatus::ResolvedForFreelancer
        };
        let leader = if for_client {
            self.records[i].dispute.client
        } else {
            self.records[i].dispute.freelancer
        };
        let token = self.records[i].dispute.token;
        let fee = self.records[i].dispute.dispute_fee;
        let stake = self.records[i].dispute.initiator_penalty_stake;
        let mut transfers: Vec<Transfer> = Vec::new();
        if malicious && fee > 0 {
            transfers.push(Transfer::release(token, leader, fee));
        }
        if stake > 0 {
            if self.records[i].dispute.shows_bad_faith(self.malicious_threshold()) {
                transfers.push(Transfer::release(token, leader, stake));
            } else {
                transfers.push(Transfer::release(token, self.records[i].dispute.initiator, stake));
            }
        }
        let settlement = if is_final {
            Some(
                Settlement {
                    job_id: self.records[i].dispute.job_id,
                    resolution: if for_client {
                        DisputeResolution::ClientWins
                    } else {
                        DisputeResolution::FreelancerWins
                    },
                },
            )
        } else {
            None
        };
        self.records[i].dispute.status = status;
        self.records[i].dispute.resolution_timestamp = now;
        self.records[i].dispute.appeal_deadline = sequence as u64 + APPEAL_WINDOW;
        self.records[i].dispute.malicious = malicious;
        proof {
            let e = old(self)@.entry(dispute_id);
            let next = DisputeEntry { dispute: e.dispute.resolve(malicious, now, sequence), ..e };
            lemma_dispute_replaced(*old(self), *self, dispute_id, next);
            assert(transfers@ =~= e.dispute.resolve_transfers(malicious, old(self)@.threshold()));
        }
        Ok(Resolution { status, settlement, transfers })
    }

    /// The party that lost the last round asks for another, with twice the
    /// votes. The votes of the last round are dropped: who voted then may
    /// vote again.
    pub fn raise_appeal(&mut self, dispute_id: u64, appellant: Address, sequence: u32) -> (r:
        Result<(), DisputeError>)
        requires
            old(self).wf(),
        ensures
            final(self).wf(),
            match r {
                Ok(_) => {
                    &&& old(self)@.appeal_error(dispute_id, appellant, sequence) is None
                    &&& final(self)@ == old(self)@.appeal_next(dispute_id)
                },
                Err(e) => {
                    &&& old(self)@.appeal_error(dispute_id, appellant, sequence) == Some(e)
                    &&& final(self)@ == old(self)@
                },
            },
    {
        let i = match self.slot(dispute_id) {
            Some(i) => i,
            None => {
                return Err(DisputeError::DisputeNotFound);
            },
        };
        if self.records[i].dispute.appeal_count >= self.records[i].dispute.max_appeals {
            return Err(DisputeError::MaxAppealsReached);
        }
        if !self.records[i].dispute.is_resolved() {
            return Err(DisputeError::CannotAppealBeforeResolution);
        }
        let status = self.records[i].dispute.status;
        if status == DisputeStatus::FinalResolution {
            return Err(DisputeError::MaxAppealsReached);
        }
        if sequence as u64 > self.records[i].dispute.appeal_deadline {
            return Err(DisputeError::AppealWindowExpired);
        }
        let losing = if status == DisputeStatus::ResolvedForClient {
            appellant == self.records[i].dispute.freelancer
        } else {
            appellant == self.records[i].dispute.client
        };
        if !losing {
            return Err(DisputeError::NotLosingParty);
        }
        proof {
            assert(old(self)@.disputes[i as int].wf());
        }
        self.records[i].dispute.appeal_count = self.records[i].dispute.appeal_count + 1;
        self.records[i].dispute.status = DisputeStatus::Appealed;
        self.records[i].dispute.votes_for_client = 0;
        self.records[i].dispute.votes_for_freelancer = 0;
        self.records[i].votes = Vec::new();
        proof {
            let e = old(self)@.entry(dispute_id);
            let next = DisputeEntry { dispute: e.dispute.appeal(), votes: Seq::empty(), ..e };
            assert(self.records@[i as int]@.votes =~= next.votes);
            lemma_dispute_replaced(*old(self), *self, dispute_id, next);
        }
        Ok(())
    }

    /// A voter of the winning side takes a share of the fee, once. Returns
    /// the share and the transfer that pays it.
    pub fn claim_voter_reward(&mut self, dispute_id: u64, voter: Address) -> (r: Result<
        (i128, Vec<Transfer>),
        DisputeError,
    >)
        requires
            old(self).wf(),
        ensures
            final(self).wf(),
            match r {
                Ok((reward, transfers)) => {
                    &&& old(self)@.claim_error(dispute_id, voter) is None
                    &&& reward == old(self)@.entry(dispute_id).dispute.reward_share()
                    &&& reward == (old(self)@.entry(dispute_id).dispute.dispute_fee as int) / old(
                        self,
                    )@.entry(dispute_id).dispute.leading_count()
                    &&& voted_for(
                        old(self)@.entry(dispute_id).votes,
                        voter,
                        old(self)@.entry(dispute_id).dispute.leading_choice(),
                    )
                    &&& reward == old(self)@.claimable(dispute_id, voter)
                    &&& reward > 0
                    &&& transfers@ == seq![
                        crate::account::release_of(
                            old(self)@.entry(dispute_id).dispute.token,
                            voter,
                            reward,
                        ),
                    ]
                    &&& final(self)@ == old(self)@.claim_next(dispute_id, voter)
                },
                Err(e) => {
                    &&& old(self)@.claim_error(dispute_id, voter) == Some(e)
                    &&& final(self)@ == old(self)@
                },
            },
    {
        let i = match self.slot(dispute_id) {
            Some(i) => i,
            None => {
                return Err(DisputeError::DisputeNotFound);
            },
        };
        if !self.records[i].dispute.is_resolved() {
            return Err(DisputeError::DisputeNotResolved);
        }
        if self.records[i].dispute.malicious {
            return Err(DisputeError::NoRewardAvailable);
        }
        let fee = self.records[i].dispute.dispute_fee;
        if fee <= 0 {
            return Err(DisputeError::NoRewardAvailable);
        }
        if address_listed(&self.records[i].rewarded, voter) {
            return Err(DisputeError::AlreadyClaimed);
        }
        let side = self.records[i].dispute.winning_side();
        if !voter_sided(&self.records[i].votes, voter, side) {
            return Err(DisputeError::NotWinningVoter);
        }
        let winners: i128 = match side {
            VoteChoice::Client => self.records[i].dispute.votes_for_client as i128,
            VoteChoice::Freelancer => self.records[i].dispute.votes_for_freelancer as i128,
        };
        if winners == 0 {
            return Err(DisputeError::NoRewardAvailable);
        }
        let reward = fee / winners;
        if reward <= 0 {
            return Err(DisputeError::NoRewardAvailable);
        }
        let mut transfers: Vec<Transfer> = Vec::new();
        transfers.push(Transfer::release(self.records[i].dispute.token, voter, reward));
        self.records[i].rewarded.push(voter);
        proof {
            let e = old(self)@.entry(dispute_id);
            let next = DisputeEntry { rewarded: e.rewarded.push(voter), ..e };
            assert(e.wf());
            lemma_dispute_replaced(*old(self), *self, dispute_id, next);
        }
        Ok((reward, transfers))
    }

    /// What `voter` can claim of dispute `dispute_id` now, and 0 where
    /// nothing.
    pub fn get_claimable_reward(&self, dispute_id: u64, voter: Address) -> (reward: i128)
        ensures
            reward == self@.claimable(dispute_id, voter),
            self.wf() && reward != 0 ==> reward == (self@.entry(
                dispute_id,
            ).dispute.dispute_fee as int) / self@.entry(dispute_id).dispute.leading_count()
                && voted_for(
                self@.entry(dispute_id).votes,
                voter,
                self@.entry(dispute_id).dispute.leading_choice(),
            ),
    {
        let i = match self.slot(dispute_id) {
            Some(i) => i,
            None => {
                return 0;
            },
        };
        let fee = self.records[i].dispute.dispute_fee;
        if !self.records[i].dispute.is_resolved() || self.records[i].dispute.malicious || fee <= 0 {
            return 0;
        }
        if address_listed(&self.records[i].rewarded, voter) {
            return 0;
        }
        let side = self.records[i].dispute.winning_side();
        if !voter_sided(&self.records[i].votes, voter, side) {
            return 0;
        }
        let winners: i128 = match side {
            VoteChoice::Client => self.records[i].dispute.votes_for_client as i128,
            VoteChoice::Freelancer => self.records[i].dispute.votes_for_freelancer as i128,
        };
        if winners == 0 {
            return 0;
        }
        fee / winners
    }

    /// A copy of dispute `dispute_id`.
    pub fn get_dispute(&self, dispute_id: u64) -> (r: Result<Dispute, DisputeError>)
        ensures
            match r {
                Ok(d) => self@.has_dispute(dispute_id) && d == self@.entry(dispute_id).dispute,
                Err(e) => !self@.has_dispute(dispute_id) && e == DisputeError::DisputeNotFound,
            },
    {
        match self.slot(dispute_id) {
            Some(i) => Ok(self.records[i].dispute.clone()),
            None => Err(DisputeError::DisputeNotFound),
        }
    }

    /// The votes of the current round of dispute `dispute_id`, and none
    /// for a dispute that does not exist.
    pub fn get_votes(&self, dispute_id: u64) -> (votes: Vec<Vote>)
        ensures
            votes@ == if self@.has_dispute(dispute_id) {
                self@.entry(dispute_id).votes
            } else {
                Seq::empty()
            },
    {
        match self.slot(dispute_id) {
            Some(i) => clone_votes(&self.records[i].votes),
            None => Vec::new(),
        }
    }

    /// The number of disputes raised so far.
    pub fn get_dispute_count(&self) -> (count: u64)
        ensures
            count == self@.disputes.len(),
    {
        self.records.len() as u64
    }

    /// Whether the registry is well formed: each dispute well formed, and
    /// the disputes numbered from 1 in their order.
    pub fn is_well_formed(&self) -> (r: bool)
        ensures
            r == self.wf(),
    {
        let mut i: usize = 0;
        while i < self.records.len()
            invariant
                i <= self.records.len(),
                forall|k: int|
                    0 <= k < i ==> (#[trigger] self@.disputes[k]).wf()
                        && self@.disputes[k].dispute.id == k + 1,
            decreases self.records.len() - i,
        {
            assert(self@.disputes[i as int] == self.records@[i as int]@);
            if !self.records[i].is_well_formed() {
                return false;
            }
            let position = i as u64;
            if position == u64::MAX || self.records[i].dispute.id != position + 1 {
                return false;
            }
            i += 1;
        }
        true
    }

    /// Whether `cast_vote` can be called with these arguments: the tally
    /// of `choice` can take one more vote, where the vote is not refused.
    pub fn vote_in_range(&self, dispute_id: u64, voter: Address, choice: VoteChoice) -> (r: bool)
        ensures
            r == (self@.vote_error(dispute_id, voter) is None ==> self@.entry(
                dispute_id,
            ).dispute.votes_for(choice) < u32::MAX),
    {
        let i = match self.slot(dispute_id) {
            Some(i) => i,
            None => {
                return true;
            },
        };
        let status = self.records[i].dispute.status;
        if status != DisputeStatus::Open && status != DisputeStatus::Voting && status
            != DisputeStatus::Appealed {
            return true;
        }
        if voter == self.records[i].dispute.client || voter == self.records[i].dispute.freelancer {
            return true;
        }
        if voter_listed(&self.records[i].votes, voter) {
            return true;
        }
        match choice {
            VoteChoice::Client => self.records[i].dispute.votes_for_client < u32::MAX,
            VoteChoice::Freelancer => self.records[i].dispute.votes_for_freelancer < u32::MAX,
        }
    }
}

} // verus!
