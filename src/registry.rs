use vstd::prelude::*;

use crate::errors::PolocError;
use crate::instructions::claim_reward::{claim_error, reward_share};
use crate::instructions::finalize::finalize_error;
use crate::instructions::refund_failed_challenge::refund_error;
use crate::instructions::slash::slash_error;
use crate::instructions::stake::stake_error;
use crate::instructions::vote::vote_error;
use crate::state::{Challenge, ChallengeStatus, MAX_PARTICIPANTS, Principal, Stake, Vote};

verus! {

/// The principals behind a sequence of stakes, in order.
pub open spec fn staker_keys(stakes: Seq<Stake>) -> Seq<Seq<u8>> {
    stakes.map_values(|s: Stake| s.challenger@)
}

/// The principals behind a sequence of votes, in order.
pub open spec fn voter_keys(votes: Seq<Vote>) -> Seq<Seq<u8>> {
    votes.map_values(|v: Vote| v.challenger@)
}

/// Sum of the staked amounts.
pub open spec fn total_staked(stakes: Seq<Stake>) -> nat
    decreases stakes.len(),
{
    if stakes.len() == 0 {
        0
    } else {
        total_staked(stakes.drop_last()) + stakes.last().amount as nat
    }
}

/// Number of votes that find the claim valid.
pub open spec fn count_valid(votes: Seq<Vote>) -> nat
    decreases votes.len(),
{
    if votes.len() == 0 {
        0
    } else {
        count_valid(votes.drop_last()) + if votes.last().is_valid {
            1nat
        } else {
            0nat
        }
    }
}

/// Number of votes whose reward has been paid.
pub open spec fn count_processed(votes: Seq<Vote>) -> nat
    decreases votes.len(),
{
    if votes.len() == 0 {
        0
    } else {
        count_processed(votes.drop_last()) + if votes.last().processed {
            1nat
        } else {
            0nat
        }
    }
}

/// One challenge together with its stake registry and vote tally: the
/// records kept for it, at most one stake and one vote per principal.
///
/// `funding` is what the creator put in; `paid_out` and `refunded` total
/// what has left the escrow through claims and through the refund.
pub struct ChallengeRegistry {
    pub challenge: Challenge,
    pub stakes: Vec<Stake>,
    pub votes: Vec<Vote>,
    /// The challenge's record has been closed by the refund.
    pub closed: bool,
    pub funding: u64,
    pub paid_out: Ghost<nat>,
    pub refunded: Ghost<nat>,
}

impl ChallengeRegistry {
    /// The distinct principals that hold a stake.
    pub open spec fn stakers(&self) -> Set<Seq<u8>> {
        staker_keys(self.stakes@).to_set()
    }

    pub open spec fn has_stake(&self, p: Principal) -> bool {
        staker_keys(self.stakes@).contains(p@)
    }

    pub open spec fn has_vote(&self, p: Principal) -> bool {
        voter_keys(self.votes@).contains(p@)
    }

    /// Position of `p`'s stake, when it has one.
    pub open spec fn stake_index(&self, p: Principal) -> int {
        choose|i: int| 0 <= i < self.stakes@.len() && self.stakes@[i].challenger@ == p@
    }

    /// Position of `p`'s vote, when it has one.
    pub open spec fn vote_index(&self, p: Principal) -> int {
        choose|i: int| 0 <= i < self.votes@.len() && self.votes@[i].challenger@ == p@
    }

    /// The records agree with the challenge's counters, every voter holds a
    /// stake, and the escrow is accounted for to the unit: once the verdict
    /// is in, the pool still holds one share for every honest vote not yet
    /// paid.
    pub open spec fn wf(&self) -> bool {
        let c = self.challenge;
        &&& self.stakes@.len() == c.participant_count
        &&& self.votes@.len() == c.vote_count
        &&& count_valid(self.votes@) == c.valid_vote_count
        &&& c.valid_vote_count <= c.vote_count <= c.participant_count <= MAX_PARTICIPANTS
        &&& staker_keys(self.stakes@).no_duplicates()
        &&& voter_keys(self.votes@).no_duplicates()
        &&& forall|i: int|
            0 <= i < self.votes@.len() ==> #[trigger] self.has_stake(self.votes@[i].challenger)
        &&& c.reward_pool + self.paid_out@ + self.refunded@ == self.funding + total_staked(
            self.stakes@,
        )
        &&& c.rewards_distributed ==> c.status == ChallengeStatus::Finalized && c.reward_pool == 0
        &&& self.closed ==> c.reward_pool == 0 && c.status != ChallengeStatus::Active
        &&& forall|i: int|
            0 <= i < self.votes@.len() && #[trigger] self.votes@[i].processed
                ==> self.votes@[i].is_valid
        &&& c.status != ChallengeStatus::Finalized ==> count_processed(self.votes@) == 0
        &&& c.status == ChallengeStatus::Finalized && !self.closed ==> c.reward_pool
            + count_processed(self.votes@) * reward_share(c) == c.pool_at_finalization
    }

    /// Everything but the challenge and its records is as in `other`.
    pub open spec fn same_accounts(&self, other: ChallengeRegistry) -> bool {
        &&& self.closed == other.closed
        &&& self.funding == other.funding
        &&& self.paid_out@ == other.paid_out@
        &&& self.refunded@ == other.refunded@
    }

    /// Holds the same challenge, records and accounts as `other`.
    pub open spec fn same_as(&self, other: ChallengeRegistry) -> bool {
        &&& self.challenge == other.challenge
        &&& self.stakes@ == other.stakes@
        &&& self.votes@ == other.votes@
        &&& self.same_accounts(other)
    }

    /// Why `challenger`'s stake is refused; `None` when it is accepted.
    pub open spec fn stake_error(&self, challenger: Principal, amount: u64, now: i64) -> Option<
        PolocError,
    > {
        if self.closed {
            Some(PolocError::ChallengeNotFound)
        } else if self.has_stake(challenger) {
            Some(PolocError::AlreadyStaked)
        } else {
            stake_error(self.challenge, amount, now)
        }
    }

    /// Why `challenger`'s vote is refused; `None` when it is accepted.
    pub open spec fn vote_error(
        &self,
        challenger: Principal,
        is_valid: bool,
        uncertainty: u32,
        min_rtt: u32,
        now: i64,
    ) -> Option<PolocError> {
        if self.closed {
            Some(PolocError::ChallengeNotFound)
        } else if !self.has_stake(challenger) {
            Some(PolocError::ChallengerNotStaked)
        } else if self.has_vote(challenger) {
            Some(PolocError::AlreadyVoted)
        } else {
            vote_error(
                self.challenge,
                self.stakes@[self.stake_index(challenger)],
                challenger,
                is_valid,
                uncertainty,
                min_rtt,
                now,
            )
        }
    }

    /// Why `authority` may not finalize; `None` when it may.
    pub open spec fn finalize_error(&self, authority: Principal, now: i64) -> Option<PolocError> {
        if self.closed {
            Some(PolocError::ChallengeNotFound)
        } else {
            finalize_error(self.challenge, authority, now)
        }
    }

    /// Why `winner` may not claim; `None` when it may.
    pub open spec fn claim_error(&self, winner: Principal) -> Option<PolocError> {
        if self.closed {
            Some(PolocError::ChallengeNotFound)
        } else if !self.has_vote(winner) {
            if self.challenge.status != ChallengeStatus::Finalized {
                Some(PolocError::ChallengeNotFinalized)
            } else if !self.challenge.passed() {
                Some(PolocError::ChallengeFailed)
            } else {
                Some(PolocError::Unauthorized)
            }
        } else {
            claim_error(self.challenge, self.votes@[self.vote_index(winner)], winner)
        }
    }

    /// Why `authority` may not have the escrow refunded; `None` when it may.
    pub open spec fn refund_error(&self, authority: Principal) -> Option<PolocError> {
        if self.closed {
            Some(PolocError::ChallengeNotFound)
        } else {
            refund_error(self.challenge, authority, authority)
        }
    }

    /// Why `authority` may not slash `challenger`; `None` when it may.
    pub open spec fn slash_error(&self, authority: Principal, challenger: Principal) -> Option<
        PolocError,
    > {
        if self.closed {
            Some(PolocError::ChallengeNotFound)
        } else if !self.has_stake(challenger) {
            Some(PolocError::ChallengerNotStaked)
        } else {
            slash_error(self.challenge, self.stakes@[self.stake_index(challenger)], authority)
        }
    }

    /// Finds `p`'s stake.
    pub fn find_stake(&self, p: &Principal) -> (r: Option<usize>)
        ensures
            match r {
                Some(i) => i < self.stakes@.len() && self.stakes@[i as int].challenger@ == p@
                    && self.has_stake(*p),
                None => !self.has_stake(*p),
            },
    {
        let mut i: usize = 0;
        while i < self.stakes.len()
            invariant
                0 <= i <= self.stakes@.len(),
                forall|j: int| 0 <= j < i ==> self.stakes@[j].challenger@ != p@,
            decreases self.stakes@.len() - i,
        {
            if self.stakes[i].challenger == *p {
                assert(staker_keys(self.stakes@)[i as int] == p@);
                return Some(i);
            }
            i = i + 1;
        }
        proof {
            if self.has_stake(*p) {
                let k = choose|k: int|
                    0 <= k < staker_keys(self.stakes@).len() && staker_keys(self.stakes@)[k] == p@;
                assert(self.stakes@[k].challenger@ == p@);
            }
        }
        None
    }

    /// Finds `p`'s vote.
    pub fn find_vote(&self, p: &Principal) -> (r: Option<usize>)
        ensures
            match r {
                Some(i) => i < self.votes@.len() && self.votes@[i as int].challenger@ == p@
                    && self.has_vote(*p),
                None => !self.has_vote(*p),
            },
    {
        let mut i: usize = 0;
        while i < self.votes.len()
            invariant
                0 <= i <= self.votes@.len(),
                forall|j: int| 0 <= j < i ==> self.votes@[j].challenger@ != p@,
            decreases self.votes@.len() - i,
        {
            if self.votes[i].challenger == *p {
                assert(voter_keys(self.votes@)[i as int] == p@);
                return Some(i);
            }
            i = i + 1;
        }
        proof {
            if self.has_vote(*p) {
                let k = choose|k: int|
                    0 <= k < voter_keys(self.votes@).len() && voter_keys(self.votes@)[k] == p@;
                assert(self.votes@[k].challenger@ == p@);
            }
        }
        None
    }
}

/// Each principal that staked is counted once: the participant count is the
/// number of distinct stakers, and it never exceeds `MAX_PARTICIPANTS`.
pub proof fn lemma_participants_are_distinct_stakers(reg: ChallengeRegistry)
    requires
        reg.wf(),
    ensures
        reg.challenge.participant_count == reg.stakers().len(),
        reg.stakers().len() <= MAX_PARTICIPANTS,
{
    staker_keys(reg.stakes@).unique_seq_to_set();
}

/// The reward pool holds exactly what was put in, the creator's funding and
/// every accepted stake, less what claims and the refund took out; what was
/// taken out never exceeds what was put in.
pub proof fn lemma_reward_pool_accounting(reg: ChallengeRegistry)
    requires
        reg.wf(),
    ensures
        reg.challenge.reward_pool == reg.funding + total_staked(reg.stakes@) - reg.paid_out@
            - reg.refunded@,
        reg.paid_out@ + reg.refunded@ <= reg.funding + total_staked(reg.stakes@),
{
}

/// Well-formedness depends on the views alone.
pub(crate) proof fn lemma_wf_same(a: ChallengeRegistry, b: ChallengeRegistry)
    requires
        a.wf(),
        b.same_as(a),
    ensures
        b.wf(),
{
    assert forall|i: int| 0 <= i < b.votes@.len() implies #[trigger] b.has_stake(
        b.votes@[i].challenger,
    ) by {
        assert(a.has_stake(a.votes@[i].challenger));
    }
}

pub(crate) proof fn lemma_total_staked_push(stakes: Seq<Stake>, s: Stake)
    ensures
        total_staked(stakes.push(s)) == total_staked(stakes) + s.amount,
{
    assert(stakes.push(s).drop_last() =~= stakes);
}

pub(crate) proof fn lemma_total_staked_update(stakes: Seq<Stake>, i: int, s: Stake)
    requires
        0 <= i < stakes.len(),
        s.amount == stakes[i].amount,
    ensures
        total_staked(stakes.update(i, s)) == total_staked(stakes),
    decreases stakes.len(),
{
    if i < stakes.len() - 1 {
        assert(stakes.update(i, s).drop_last() =~= stakes.drop_last().update(i, s));
        lemma_total_staked_update(stakes.drop_last(), i, s);
    } else {
        assert(stakes.update(i, s).drop_last() =~= stakes.drop_last());
    }
}

pub(crate) proof fn lemma_count_valid_push(votes: Seq<Vote>, v: Vote)
    ensures
        count_valid(votes.push(v)) == count_valid(votes) + if v.is_valid {
            1nat
        } else {
            0nat
        },
{
    assert(votes.push(v).drop_last() =~= votes);
}

pub(crate) proof fn lemma_count_valid_update(votes: Seq<Vote>, i: int, v: Vote)
    requires
        0 <= i < votes.len(),
        v.is_valid == votes[i].is_valid,
    ensures
        count_valid(votes.update(i, v)) == count_valid(votes),
    decreases votes.len(),
{
    if i < votes.len() - 1 {
        assert(votes.update(i, v).drop_last() =~= votes.drop_last().update(i, v));
        lemma_count_valid_update(votes.drop_last(), i, v);
    } else {
        assert(votes.update(i, v).drop_last() =~= votes.drop_last());
    }
}

pub(crate) proof fn lemma_count_processed_push(votes: Seq<Vote>, v: Vote)
    ensures
        count_processed(votes.push(v)) == count_processed(votes) + if v.processed {
            1nat
        } else {
            0nat
        },
{
    assert(votes.push(v).drop_last() =~= votes);
}

pub(crate) proof fn lemma_count_processed_update(votes: Seq<Vote>, i: int, v: Vote)
    requires
        0 <= i < votes.len(),
        !votes[i].processed,
        v.processed,
    ensures
        count_processed(votes.update(i, v)) == count_processed(votes) + 1,
    decreases votes.len(),
{
    if i < votes.len() - 1 {
        assert(votes.update(i, v).drop_last() =~= votes.drop_last().update(i, v));
        lemma_count_processed_update(votes.drop_last(), i, v);
    } else {
        assert(votes.update(i, v).drop_last() =~= votes.drop_last());
    }
}

/// Only valid votes are paid, so the paid votes never outnumber the valid
/// ones, and fall short of them while an honest vote is unpaid.
pub(crate) proof fn lemma_processed_within_valid(votes: Seq<Vote>, i: int)
    requires
        forall|j: int| 0 <= j < votes.len() && #[trigger] votes[j].processed ==> votes[j].is_valid,
    ensures
        count_processed(votes) <= count_valid(votes),
        0 <= i < votes.len() && votes[i].is_valid && !votes[i].processed ==> count_processed(votes)
            < count_valid(votes),
    decreases votes.len(),
{
    if votes.len() > 0 {
        let rest = votes.drop_last();
        assert forall|j: int| 0 <= j < rest.len() && #[trigger] rest[j].processed implies rest[j].is_valid by {
            assert(votes[j] == rest[j]);
        }
        lemma_processed_within_valid(rest, i);
        if 0 <= i < votes.len() - 1 {
            assert(votes[i] == rest[i]);
        }
        assert(votes.last() == votes[votes.len() - 1]);
    }
}

/// With `k` of `n` equal shares of `p` paid out of a pool that started at
/// `p`, one more share is still covered as long as `k < n`.
pub(crate) proof fn lemma_share_covered(pool: int, p: int, k: int, n: int, share: int)
    requires
        n > 0,
        p >= 0,
        share == p / n,
        0 <= k < n,
        pool + k * share == p,
    ensures
        pool >= share,
        pool - share + (k + 1) * share == p,
{
    vstd::arithmetic::div_mod::lemma_fundamental_div_mod(p, n);
    vstd::arithmetic::div_mod::lemma_mod_pos_bound(p, n);
    vstd::arithmetic::div_mod::lemma_div_pos_is_pos(p, n);
    vstd::arithmetic::mul::lemma_mul_inequality(k + 1, n, share);
    vstd::arithmetic::mul::lemma_mul_is_distributive_add_other_way(share, k, 1);
    vstd::arithmetic::mul::lemma_mul_is_commutative(n, share);
}

/// A stake-holder without a vote leaves room for one more vote.
pub(crate) proof fn lemma_room_for_vote(reg: ChallengeRegistry, p: Principal)
    requires
        reg.wf(),
        reg.has_stake(p),
        !reg.has_vote(p),
    ensures
        reg.votes@.len() + 1 <= reg.stakes@.len(),
{
    broadcast use vstd::seq_lib::seq_to_set_is_finite;

    let vs = voter_keys(reg.votes@);
    let ss = staker_keys(reg.stakes@);
    vs.unique_seq_to_set();
    ss.unique_seq_to_set();
    let voted = vs.to_set().insert(p@);
    assert(voted.subset_of(ss.to_set())) by {
        assert forall|k: Seq<u8>| voted.contains(k) implies ss.to_set().contains(k) by {
            if k != p@ {
                let i = choose|i: int| 0 <= i < vs.len() && vs[i] == k;
                assert(reg.has_stake(reg.votes@[i].challenger));
            }
        }
    }
    vstd::set_lib::lemma_len_subset(voted, ss.to_set());
}

} // verus!
