//! A staked challenge-response protocol that verifies a claimed geographic
//! location: the lifecycle of a challenge, its stake registry and vote tally,
//! and the settlement of its shared reward pool.
//!
//! `instructions` holds one operation per module on the records an operation
//! is given; the functions here run the same operations on a
//! `ChallengeRegistry`, which keeps all records of one challenge.
use vstd::prelude::*;

pub mod errors;
pub mod instructions;
pub mod registry;
pub mod state;

use crate::errors::PolocError;
use crate::instructions::claim_reward::{challenge_after_claim, reward_share, vote_after_claim};
use crate::instructions::finalize::challenge_after_finalize;
use crate::instructions::initialize_challenge::{create_error, new_challenge};
use crate::instructions::refund_failed_challenge::challenge_after_refund;
use crate::instructions::slash::stake_after_slash;
use crate::instructions::stake::{challenge_after_stake, new_stake};
use crate::instructions::vote::{challenge_after_vote, new_vote};
use crate::registry::{
    ChallengeRegistry,
    count_processed,
    lemma_count_processed_push,
    lemma_count_processed_update,
    lemma_count_valid_push,
    lemma_count_valid_update,
    lemma_processed_within_valid,
    lemma_room_for_vote,
    lemma_share_covered,
    lemma_total_staked_push,
    lemma_total_staked_update,
    lemma_wf_same,
    staker_keys,
    total_staked,
    voter_keys,
};
use crate::state::{ChallengeStatus, MIN_PARTICIPANTS, Principal};

verus! {

/// Creates a challenge and its empty registry; see
/// `instructions::initialize_challenge::handler`.
pub fn initialize_challenge(
    challenge_id: String,
    waldo: Principal,
    claimed_lat: i32,
    claimed_lon: i32,
    duration: u64,
    reward_pool: u64,
    now: i64,
) -> (r: Result<ChallengeRegistry, PolocError>)
    ensures
        match r {
            Ok(reg) => {
                &&& create_error(claimed_lat, claimed_lon, duration, reward_pool, now) is None
                &&& reg.wf()
                &&& reg.challenge == new_challenge(
                    challenge_id,
                    waldo,
                    claimed_lat,
                    claimed_lon,
                    duration,
                    reward_pool,
                    now,
                )
                &&& reg.stakes@.len() == 0
                &&& reg.votes@.len() == 0
                &&& !reg.closed
                &&& reg.funding == reward_pool
                &&& reg.paid_out@ == 0
                &&& reg.refunded@ == 0
            },
            Err(e) => create_error(claimed_lat, claimed_lon, duration, reward_pool, now) == Some(e),
        },
{
    let challenge = instructions::initialize_challenge::handler(
        challenge_id,
        waldo,
        claimed_lat,
        claimed_lon,
        duration,
        reward_pool,
        now,
    )?;
    let reg = ChallengeRegistry {
        challenge,
        stakes: Vec::new(),
        votes: Vec::new(),
        closed: false,
        funding: reward_pool,
        paid_out: Ghost(0),
        refunded: Ghost(0),
    };
    proof {
        assert(staker_keys(reg.stakes@) =~= Seq::<Seq<u8>>::empty());
        assert(voter_keys(reg.votes@) =~= Seq::<Seq<u8>>::empty());
    }
    Ok(reg)
}

/// Records `challenger`'s stake of `amount`, at most one per principal; see
/// `instructions::stake::handler`.
pub fn stake(reg: &mut ChallengeRegistry, challenger: Principal, amount: u64, now: i64) -> (r:
    Result<(), PolocError>)
    requires
        old(reg).wf(),
    ensures
        final(reg).wf(),
        match old(reg).stake_error(challenger, amount, now) {
            Some(e) => r == Err::<(), PolocError>(e) && final(reg).same_as(*old(reg)),
            None => {
                &&& r == Ok::<(), PolocError>(())
                &&& final(reg).challenge == challenge_after_stake(old(reg).challenge, amount)
                &&& final(reg).stakes@ == old(reg).stakes@.push(
                    new_stake(old(reg).challenge, challenger, amount, now),
                )
                &&& final(reg).votes@ == old(reg).votes@
                &&& final(reg).same_accounts(*old(reg))
            },
        },
{
    if reg.closed {
        return Err(PolocError::ChallengeNotFound);
    }
    if reg.find_stake(&challenger).is_some() {
        return Err(PolocError::AlreadyStaked);
    }
    let record = instructions::stake::handler(&mut reg.challenge, challenger, amount, now)?;
    proof {
        lemma_total_staked_push(reg.stakes@, record);
        assert(staker_keys(reg.stakes@.push(record)) =~= staker_keys(reg.stakes@).push(
            challenger@,
        ));
    }
    reg.stakes.push(record);
    proof {
        assert forall|i: int| 0 <= i < reg.votes@.len() implies #[trigger] reg.has_stake(
            reg.votes@[i].challenger,
        ) by {
            assert(old(reg).has_stake(reg.votes@[i].challenger));
            let k = choose|k: int|
                0 <= k < staker_keys(old(reg).stakes@).len() && staker_keys(old(reg).stakes@)[k]
                    == reg.votes@[i].challenger@;
            assert(staker_keys(reg.stakes@)[k] == reg.votes@[i].challenger@);
        }
    }
    Ok(())
}

/// Records `challenger`'s vote, at most one per stake-holder; see
/// `instructions::vote::handler`.
pub fn submit_vote(
    reg: &mut ChallengeRegistry,
    challenger: Principal,
    challenger_id: String,
    is_valid: bool,
    uncertainty: u32,
    min_rtt: u32,
    now: i64,
) -> (r: Result<(), PolocError>)
    requires
        old(reg).wf(),
    ensures
        final(reg).wf(),
        match old(reg).vote_error(challenger, is_valid, uncertainty, min_rtt, now) {
            Some(e) => r == Err::<(), PolocError>(e) && final(reg).same_as(*old(reg)),
            None => {
                &&& r == Ok::<(), PolocError>(())
                &&& final(reg).challenge == challenge_after_vote(old(reg).challenge, is_valid)
                &&& final(reg).votes@ == old(reg).votes@.push(
                    new_vote(
                        old(reg).challenge,
                        challenger,
                        challenger_id,
                        is_valid,
                        uncertainty,
                        min_rtt,
                        now,
                    ),
                )
                &&& final(reg).stakes@ == old(reg).stakes@
                &&& final(reg).same_accounts(*old(reg))
            },
        },
        now <= old(reg).challenge.deadline || now > old(reg).challenge.voting_end() ==> r.is_err(),
{
    if reg.closed {
        return Err(PolocError::ChallengeNotFound);
    }
    let si: usize = match reg.find_stake(&challenger) {
        Some(i) => i,
        None => {
            return Err(PolocError::ChallengerNotStaked);
        },
    };
    if reg.find_vote(&challenger).is_some() {
        return Err(PolocError::AlreadyVoted);
    }
    proof {
        let j = reg.stake_index(challenger);
        assert(reg.stakes@[si as int].challenger@ == challenger@);
        assert(staker_keys(reg.stakes@)[j] == staker_keys(reg.stakes@)[si as int]);
        lemma_room_for_vote(*reg, challenger);
    }
    let record = instructions::vote::handler(
        &mut reg.challenge,
        &reg.stakes[si],
        challenger,
        challenger_id,
        is_valid,
        uncertainty,
        min_rtt,
        now,
    )?;
    proof {
        lemma_count_valid_push(reg.votes@, record);
        lemma_count_processed_push(reg.votes@, record);
        assert(voter_keys(reg.votes@.push(record)) =~= voter_keys(reg.votes@).push(challenger@));
    }
    reg.votes.push(record);
    proof {
        assert forall|i: int| 0 <= i < reg.votes@.len() implies #[trigger] reg.has_stake(
            reg.votes@[i].challenger,
        ) by {
            if i < old(reg).votes@.len() {
                assert(old(reg).has_stake(old(reg).votes@[i].challenger));
            }
        }
        assert forall|i: int| 0 <= i < reg.votes@.len() && #[trigger] reg.votes@[i].processed implies reg.votes@[i].is_valid by {
            if i < old(reg).votes@.len() {
                assert(reg.votes@[i] == old(reg).votes@[i]);
            }
        }
    }
    Ok(())
}

/// Accepts the oracle's verdict once voting is over; see
/// `instructions::finalize::handler`.
pub fn finalize_challenge(
    reg: &mut ChallengeRegistry,
    authority: Principal,
    r_star: u32,
    now: i64,
) -> (r: Result<(), PolocError>)
    requires
        old(reg).wf(),
    ensures
        final(reg).wf(),
        match old(reg).finalize_error(authority, now) {
            Some(e) => r == Err::<(), PolocError>(e) && final(reg).same_as(*old(reg)),
            None => {
                &&& r == Ok::<(), PolocError>(())
                &&& final(reg).challenge == challenge_after_finalize(old(reg).challenge, r_star)
                &&& final(reg).stakes@ == old(reg).stakes@
                &&& final(reg).votes@ == old(reg).votes@
                &&& final(reg).same_accounts(*old(reg))
            },
        },
        r.is_ok() && old(reg).challenge.participant_count < MIN_PARTICIPANTS
            ==> final(reg).challenge.status == ChallengeStatus::InsufficientParticipants,
{
    if reg.closed {
        return Err(PolocError::ChallengeNotFound);
    }
    let r = instructions::finalize::handler(&mut reg.challenge, authority, r_star, now);
    proof {
        assert forall|i: int| 0 <= i < reg.votes@.len() implies #[trigger] reg.has_stake(
            reg.votes@[i].challenger,
        ) by {
            assert(old(reg).has_stake(old(reg).votes@[i].challenger));
        }
    }
    r
}

/// Pays `winner` its share for an honest vote; see
/// `instructions::claim_reward::handler`. Returns the amount paid out.
///
/// The escrow always covers the share: a claim is never refused for want of
/// funds.
pub fn claim_reward(reg: &mut ChallengeRegistry, winner: Principal) -> (r: Result<u64, PolocError>)
    requires
        old(reg).wf(),
    ensures
        final(reg).wf(),
        old(reg).claim_error(winner) != Some(PolocError::ArithmeticOverflow),
        old(reg).challenge.rewards_distributed ==> final(reg).challenge.reward_pool == old(
            reg,
        ).challenge.reward_pool,
        match old(reg).claim_error(winner) {
            Some(e) => r == Err::<u64, PolocError>(e) && final(reg).same_as(*old(reg)),
            None => {
                let i = old(reg).vote_index(winner);
                &&& r == Ok::<u64, PolocError>(reward_share(old(reg).challenge))
                &&& final(reg).challenge == challenge_after_claim(old(reg).challenge)
                &&& final(reg).votes@ == old(reg).votes@.update(
                    i,
                    vote_after_claim(old(reg).votes@[i]),
                )
                &&& final(reg).stakes@ == old(reg).stakes@
                &&& final(reg).paid_out@ == old(reg).paid_out@ + reward_share(old(reg).challenge)
                &&& final(reg).refunded@ == old(reg).refunded@
                &&& final(reg).funding == old(reg).funding
                &&& final(reg).closed == old(reg).closed
            },
        },
{
    if reg.closed {
        return Err(PolocError::ChallengeNotFound);
    }
    let vi: usize = match reg.find_vote(&winner) {
        Some(i) => i,
        None => {
            if reg.challenge.status != ChallengeStatus::Finalized {
                return Err(PolocError::ChallengeNotFinalized);
            }
            if !reg.challenge.is_passed() {
                return Err(PolocError::ChallengeFailed);
            }
            return Err(PolocError::Unauthorized);
        },
    };
    proof {
        let j = reg.vote_index(winner);
        assert(reg.votes@[vi as int].challenger@ == winner@);
        assert(voter_keys(reg.votes@)[j] == voter_keys(reg.votes@)[vi as int]);
        let c = reg.challenge;
        let v = reg.votes@[vi as int];
        if c.status == ChallengeStatus::Finalized && v.is_valid && !v.processed
            && c.valid_vote_count > 0 {
            lemma_processed_within_valid(reg.votes@, vi as int);
            lemma_share_covered(
                c.reward_pool as int,
                c.pool_at_finalization as int,
                count_processed(reg.votes@) as int,
                c.valid_vote_count as int,
                reward_share(c) as int,
            );
        }
    }
    let payout: u64 = match instructions::claim_reward::handler(
        &mut reg.challenge,
        &mut reg.votes[vi],
        &winner,
    ) {
        Ok(p) => p,
        Err(e) => {
            proof {
                assert(reg.votes@ =~= old(reg).votes@);
                lemma_wf_same(*old(reg), *reg);
            }
            return Err(e);
        },
    };
    proof {
        lemma_count_valid_update(old(reg).votes@, vi as int, reg.votes@[vi as int]);
        assert(voter_keys(reg.votes@) =~= voter_keys(old(reg).votes@));
    }
    reg.paid_out = Ghost(reg.paid_out@ + payout as nat);
    proof {
        let c = old(reg).challenge;
        lemma_count_processed_update(old(reg).votes@, vi as int, reg.votes@[vi as int]);
        lemma_share_covered(
            c.reward_pool as int,
            c.pool_at_finalization as int,
            count_processed(old(reg).votes@) as int,
            c.valid_vote_count as int,
            reward_share(c) as int,
        );
        assert forall|i: int| 0 <= i < reg.votes@.len() && #[trigger] reg.votes@[i].processed implies reg.votes@[i].is_valid by {
            if i != vi {
                assert(reg.votes@[i] == old(reg).votes@[i]);
            }
        }
        assert forall|i: int| 0 <= i < reg.votes@.len() implies #[trigger] reg.has_stake(
            reg.votes@[i].challenger,
        ) by {
            assert(old(reg).has_stake(old(reg).votes@[i].challenger));
        }
    }
    Ok(payout)
}

/// Returns the remaining escrow of a failed challenge to its creator and
/// closes the challenge; see `instructions::refund_failed_challenge::handler`.
/// Returns the amount refunded.
pub fn refund_failed_challenge(reg: &mut ChallengeRegistry, authority: Principal) -> (r: Result<
    u64,
    PolocError,
>)
    requires
        old(reg).wf(),
    ensures
        final(reg).wf(),
        match old(reg).refund_error(authority) {
            Some(e) => r == Err::<u64, PolocError>(e) && final(reg).same_as(*old(reg)),
            None => {
                &&& r == Ok::<u64, PolocError>(old(reg).challenge.reward_pool)
                &&& final(reg).challenge == challenge_after_refund(old(reg).challenge)
                &&& final(reg).closed
                &&& final(reg).refunded@ == old(reg).refunded@ + old(reg).challenge.reward_pool
                &&& final(reg).paid_out@ == old(reg).paid_out@
                &&& final(reg).funding == old(reg).funding
                &&& final(reg).stakes@ == old(reg).stakes@
                &&& final(reg).votes@ == old(reg).votes@
            },
        },
{
    if reg.closed {
        return Err(PolocError::ChallengeNotFound);
    }
    let refund = instructions::refund_failed_challenge::handler(&mut reg.challenge, authority, authority)?;
    reg.closed = true;
    reg.refunded = Ghost(reg.refunded@ + refund as nat);
    proof {
        assert forall|i: int| 0 <= i < reg.votes@.len() implies #[trigger] reg.has_stake(
            reg.votes@[i].challenger,
        ) by {
            assert(old(reg).has_stake(old(reg).votes@[i].challenger));
        }
    }
    Ok(refund)
}

/// Marks `challenger`'s stake forfeited; see `instructions::slash::handler`.
pub fn slash(reg: &mut ChallengeRegistry, authority: Principal, challenger: Principal) -> (r: Result<
    (),
    PolocError,
>)
    requires
        old(reg).wf(),
    ensures
        final(reg).wf(),
        match old(reg).slash_error(authority, challenger) {
            Some(e) => r == Err::<(), PolocError>(e) && final(reg).same_as(*old(reg)),
            None => {
                let i = old(reg).stake_index(challenger);
                &&& r == Ok::<(), PolocError>(())
                &&& final(reg).stakes@ == old(reg).stakes@.update(
                    i,
                    stake_after_slash(old(reg).stakes@[i]),
                )
                &&& final(reg).challenge == old(reg).challenge
                &&& final(reg).votes@ == old(reg).votes@
                &&& final(reg).same_accounts(*old(reg))
            },
        },
{
    if reg.closed {
        return Err(PolocError::ChallengeNotFound);
    }
    let si: usize = match reg.find_stake(&challenger) {
        Some(i) => i,
        None => {
            return Err(PolocError::ChallengerNotStaked);
        },
    };
    proof {
        let j = reg.stake_index(challenger);
        assert(reg.stakes@[si as int].challenger@ == challenger@);
        assert(staker_keys(reg.stakes@)[j] == staker_keys(reg.stakes@)[si as int]);
    }
    match instructions::slash::handler(&reg.challenge, &mut reg.stakes[si], authority) {
        Ok(()) => {},
        Err(e) => {
            proof {
                assert(reg.stakes@ =~= old(reg).stakes@);
                lemma_wf_same(*old(reg), *reg);
            }
            return Err(e);
        },
    }
    proof {
        lemma_total_staked_update(old(reg).stakes@, si as int, reg.stakes@[si as int]);
        assert(staker_keys(reg.stakes@) =~= staker_keys(old(reg).stakes@));
        assert forall|i: int| 0 <= i < reg.votes@.len() implies #[trigger] reg.has_stake(
            reg.votes@[i].challenger,
        ) by {
            assert(old(reg).has_stake(old(reg).votes@[i].challenger));
        }
    }
    Ok(())
}

} // verus!
