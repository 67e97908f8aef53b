//! What holds of the dispute registry whatever is done with it: the votes
//! that a round needs double with each appeal, the rewards of a round stay
//! within the fee, a reward is claimed once, and an appeal starts a round
//! without votes.

use crate::account::Address;
use crate::dispute::model::{
    count_votes, has_voted, voted_for, Dispute, DisputeEntry, DisputeError, DisputeStatus,
    Registry, Vote, VoteChoice,
};
use vstd::arithmetic::power2::{lemma2_to64, lemma_pow2_unfold, pow2};
use vstd::prelude::*;

verus! {

/// How many of the claimants voted for `choice`.
pub open spec fn winners_among(votes: Seq<Vote>, claimants: Seq<Address>, choice: VoteChoice) -> nat
    decreases claimants.len(),
{
    if claimants.len() == 0 {
        0
    } else {
        winners_among(votes, claimants.drop_last(), choice) + if voted_for(
            votes,
            claimants.last(),
            choice,
        ) {
            1nat
        } else {
            0nat
        }
    }
}

/// What the claimants get together, each claiming once.
pub open spec fn rewards_sum(e: DisputeEntry, claimants: Seq<Address>) -> int
    decreases claimants.len(),
{
    if claimants.len() == 0 {
        0
    } else {
        rewards_sum(e, claimants.drop_last()) + e.reward_of(claimants.last())
    }
}

/// Who voted for a side after one more vote: who had, and the new voter
/// where the vote is for that side.
pub proof fn lemma_voted_for_push(votes: Seq<Vote>, v: Vote, who: Address, choice: VoteChoice)
    ensures
        voted_for(votes.push(v), who, choice) == (voted_for(votes, who, choice) || (v.voter == who
            && v.choice == choice)),
{
    let more = votes.push(v);
    if voted_for(votes, who, choice) {
        let i = choose|i: int|
            0 <= i < votes.len() && (#[trigger] votes[i]).voter == who && votes[i].choice
                == choice;
        assert(more[i] == votes[i]);
    }
    if v.voter == who && v.choice == choice {
        assert(more[votes.len() as int] == v);
    }
    if voted_for(more, who, choice) {
        let i = choose|i: int|
            0 <= i < more.len() && (#[trigger] more[i]).voter == who && more[i].choice == choice;
        if i < votes.len() {
            assert(votes[i] == more[i]);
        }
    }
}

/// A vote for the other side, or of somebody who is no claimant, adds no
/// winner.
pub proof fn lemma_vote_adds_none(
    votes: Seq<Vote>,
    v: Vote,
    claimants: Seq<Address>,
    choice: VoteChoice,
)
    requires
        v.choice != choice || !claimants.contains(v.voter),
    ensures
        winners_among(votes.push(v), claimants, choice) == winners_among(votes, claimants, choice),
    decreases claimants.len(),
{
    if claimants.len() > 0 {
        let front = claimants.drop_last();
        assert(claimants.contains(claimants.last())) by {
            assert(claimants[claimants.len() - 1] == claimants.last());
        }
        if front.contains(v.voter) {
            let k = choose|k: int| 0 <= k < front.len() && front[k] == v.voter;
            assert(claimants[k] == v.voter);
        }
        lemma_vote_adds_none(votes, v, front, choice);
        lemma_voted_for_push(votes, v, claimants.last(), choice);
    }
}

/// A vote adds at most one winner among claimants that are all different.
pub proof fn lemma_vote_adds_one(
    votes: Seq<Vote>,
    v: Vote,
    claimants: Seq<Address>,
    choice: VoteChoice,
)
    requires
        claimants.no_duplicates(),
    ensures
        winners_among(votes.push(v), claimants, choice) <= winners_among(votes, claimants, choice)
            + 1,
    decreases claimants.len(),
{
    if claimants.len() > 0 {
        let front = claimants.drop_last();
        let last = claimants.last();
        assert(front.no_duplicates()) by {
            assert forall|i: int, j: int|
                0 <= i < front.len() && 0 <= j < front.len() && i != j implies front[i]
                != front[j] by {
                assert(front[i] == claimants[i] && front[j] == claimants[j]);
            }
        }
        lemma_voted_for_push(votes, v, last, choice);
        if last == v.voter {
            assert(!front.contains(v.voter)) by {
                if front.contains(v.voter) {
                    let k = choose|k: int| 0 <= k < front.len() && front[k] == v.voter;
                    assert(claimants[k] == claimants[claimants.len() - 1]);
                }
            }
            lemma_vote_adds_none(votes, v, front, choice);
        } else {
            lemma_vote_adds_one(votes, v, front, choice);
        }
    }
}

/// Among claimants that are all different, no more voted for a side than
/// the side has votes.
pub proof fn lemma_winners_bounded(votes: Seq<Vote>, claimants: Seq<Address>, choice: VoteChoice)
    requires
        claimants.no_duplicates(),
    ensures
        winners_among(votes, claimants, choice) <= count_votes(votes, choice),
    decreases votes.len(), claimants.len(),
{
    if votes.len() == 0 {
        if claimants.len() > 0 {
            let front = claimants.drop_last();
            assert(front.no_duplicates()) by {
                assert forall|i: int, j: int|
                    0 <= i < front.len() && 0 <= j < front.len() && i != j implies front[i]
                    != front[j] by {
                    assert(front[i] == claimants[i] && front[j] == claimants[j]);
                }
            }
            lemma_winners_bounded(votes, front, choice);
        }
    } else {
        let front = votes.drop_last();
        let v = votes.last();
        assert(votes =~= front.push(v));
        lemma_winners_bounded(front, claimants, choice);
        if v.choice == choice {
            lemma_vote_adds_one(front, v, claimants, choice);
        } else {
            lemma_vote_adds_none(front, v, claimants, choice);
        }
    }
}

/// The claimants get together one share for each of them that voted for
/// the winning side.
pub proof fn lemma_rewards_sum(e: DisputeEntry, claimants: Seq<Address>)
    ensures
        rewards_sum(e, claimants) == if e.dispute.pays_rewards() {
            e.dispute.reward_share() * winners_among(
                e.votes,
                claimants,
                e.dispute.winning_choice(),
            )
        } else {
            0
        },
    decreases claimants.len(),
{
    if claimants.len() > 0 {
        lemma_rewards_sum(e, claimants.drop_last());
        let share = e.dispute.reward_share();
        let before = winners_among(e.votes, claimants.drop_last(), e.dispute.winning_choice());
        assert(share * (before + 1) == share * before + share) by (nonlinear_arith);
    } else {
        assert(e.dispute.reward_share() * 0 == 0) by (nonlinear_arith);
    }
}

impl Dispute {
    /// Appeal doubling: the first round needs the minimum of votes, and
    /// each appeal doubles what the round before it needed, so that round
    /// `k`, counted from 0, needs the minimum times 2 to the `k`.
    pub proof fn law_required_votes_double(self)
        requires
            self.appeal_count < u32::MAX,
        ensures
            self.required_votes() == self.min_votes * pow2(self.appeal_count as nat),
            self.appeal_count == 0 ==> self.required_votes() == self.min_votes,
            self.appeal().required_votes() == 2 * self.required_votes(),
    {
        lemma2_to64();
        lemma_pow2_unfold((self.appeal_count + 1) as nat);
        let p = pow2(self.appeal_count as nat) as int;
        let m = self.min_votes as int;
        assert(m * (2 * p) == 2 * (m * p)) by (nonlinear_arith);
    }
}

impl DisputeEntry {
    /// The winning side is the side that the votes favour, a tie going to
    /// the client: what the resolved status says and what the tallies say
    /// is the same. Each winning voter gets the fee divided by the tally
    /// of that side.
    pub proof fn law_winner_by_votes(self, voter: Address)
        requires
            self.wf(),
        ensures
            self.dispute.winning_choice() == self.dispute.leading_choice(),
            self.dispute.winning_count() == self.dispute.leading_count(),
            self.claim_error(voter) is None ==> self.reward_of(voter) == (
            self.dispute.dispute_fee as int) / self.dispute.leading_count() && voted_for(
                self.votes,
                voter,
                self.dispute.leading_choice(),
            ),
    {
    }

    /// Reward partition: voters that are all different get together at
    /// most one share for each vote of the winning side, which is at most
    /// the fee. Each winning voter gets the fee divided by the number of
    /// winning votes, rounded down, and the remainder of that division is
    /// never paid.
    pub proof fn law_rewards_within_fee(self, claimants: Seq<Address>)
        requires
            self.wf(),
            claimants.no_duplicates(),
            self.dispute.dispute_fee >= 0,
        ensures
            0 <= rewards_sum(self, claimants) <= self.dispute.winning_count()
                * self.dispute.reward_share() <= self.dispute.dispute_fee,
            self.dispute.winning_count() > 0 ==> self.dispute.winning_count()
                * self.dispute.reward_share() == self.dispute.dispute_fee - (
            self.dispute.dispute_fee as int) % self.dispute.winning_count(),
            forall|i: int|
                0 <= i < claimants.len() && self.dispute.pays_rewards() && self.is_winning_voter(
                    #[trigger] claimants[i],
                ) ==> self.reward_of(claimants[i]) == (self.dispute.dispute_fee as int)
                    / self.dispute.winning_count(),
    {
        let d = self.dispute;
        let n = d.winning_count();
        let share = d.reward_share();
        let fee = d.dispute_fee as int;
        let side = d.winning_choice();
        let winners = winners_among(self.votes, claimants, side) as int;
        lemma_rewards_sum(self, claimants);
        lemma_winners_bounded(self.votes, claimants, side);
        assert(n == count_votes(self.votes, side));
        if n > 0 {
            vstd::arithmetic::div_mod::lemma_fundamental_div_mod(fee, n);
            vstd::arithmetic::div_mod::lemma_mod_pos_bound(fee, n);
            vstd::arithmetic::div_mod::lemma_div_pos_is_pos(fee, n);
        }
        assert(0 <= share * winners <= n * share) by (nonlinear_arith)
            requires
                0 <= share,
                0 <= winners <= n,
        ;
        assert forall|i: int|
            0 <= i < claimants.len() && d.pays_rewards() && self.is_winning_voter(
                #[trigger] claimants[i],
            ) implies self.reward_of(claimants[i]) == fee / n by {
            crate::dispute::model::lemma_voted_counts(self.votes, claimants[i], side);
        }
    }
}

impl Registry {
    /// A round that is one vote short of what it needs is not resolved.
    pub proof fn law_one_vote_short(self, dispute_id: u64)
        requires
            self.has_dispute(dispute_id),
            self.entry(dispute_id).dispute.total_votes() == self.entry(
                dispute_id,
            ).dispute.required_votes() - 1,
        ensures
            self.resolve_error(dispute_id) is Some,
            self.entry(dispute_id).dispute.status != DisputeStatus::FinalResolution
                ==> self.resolve_error(dispute_id) == Some(DisputeError::NotEnoughVotes),
    {
    }

    /// A dispute is resolved for good once: after a final resolution the
    /// next is refused, so that no second settlement is asked for.
    pub proof fn law_final_once(self, dispute_id: u64, malicious: bool, now: u64, sequence: u32)
        requires
            self.resolve_error(dispute_id) is None,
            self.entry(dispute_id).dispute.is_final_round(),
        ensures
            self.resolve_next(dispute_id, malicious, now, sequence).resolve_error(dispute_id)
                == Some(DisputeError::AlreadyResolved),
    {
    }

    /// Single claim: after a voter has claimed a reward, the voter's next
    /// claim for the same dispute is refused.
    pub proof fn law_single_claim(self, dispute_id: u64, voter: Address)
        requires
            self.claim_error(dispute_id, voter) is None,
        ensures
            self.claim_next(dispute_id, voter).claim_error(dispute_id, voter) == Some(
                DisputeError::AlreadyClaimed,
            ),
            self.claim_next(dispute_id, voter).claimable(dispute_id, voter) == 0,
    {
        let e = self.entry(dispute_id);
        assert(e.rewarded.push(voter)[e.rewarded.len() as int] == voter);
    }

    /// Vote reset on appeal: an appeal leaves both tallies at 0 and no
    /// vote, and whoever is not a party of the dispute can vote in the new
    /// round, having voted before or not.
    pub proof fn law_appeal_resets_votes(
        self,
        dispute_id: u64,
        appellant: Address,
        sequence: u32,
        voter: Address,
    )
        requires
            self.appeal_error(dispute_id, appellant, sequence) is None,
        ensures
            self.appeal_next(dispute_id).entry(dispute_id).dispute.votes_for_client == 0,
            self.appeal_next(dispute_id).entry(dispute_id).dispute.votes_for_freelancer == 0,
            self.appeal_next(dispute_id).entry(dispute_id).votes.len() == 0,
            !self.entry(dispute_id).dispute.is_party(voter) ==> self.appeal_next(
                dispute_id,
            ).vote_error(dispute_id, voter) is None,
    {
        assert(!has_voted(Seq::<Vote>::empty(), voter));
    }
}

} // verus!
