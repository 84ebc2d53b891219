use vstd::prelude::*;

use crate::errors::PolocError;
use crate::state::{Challenge, ChallengeStatus, Principal, Vote};

verus! {

/// Why `winner` may not claim a reward on `vote`, checked in this order;
/// `None` when the claim is owed.
pub open spec fn claim_error(c: Challenge, vote: Vote, winner: Principal) -> Option<PolocError> {
    if c.status != ChallengeStatus::Finalized {
        Some(PolocError::ChallengeNotFinalized)
    } else if !c.passed() {
        Some(PolocError::ChallengeFailed)
    } else if vote.challenger@ != winner@ {
        Some(PolocError::Unauthorized)
    } else if vote.processed {
        Some(PolocError::AlreadyClaimed)
    } else if !vote.is_valid {
        Some(PolocError::VotedIncorrectly)
    } else if c.valid_vote_count == 0 {
        Some(PolocError::NoValidVotes)
    } else if c.reward_pool < reward_share(c) {
        Some(PolocError::ArithmeticOverflow)
    } else {
        None
    }
}

/// What each honest voter receives: the pool at finalization split evenly
/// among the valid votes, the remainder staying in the pool.
pub open spec fn reward_share(c: Challenge) -> u64
    recommends
        c.valid_vote_count > 0,
{
    (c.pool_at_finalization / (c.valid_vote_count as u64)) as u64
}

/// The challenge once one share has been paid out of it.
pub open spec fn challenge_after_claim(c: Challenge) -> Challenge {
    let pool = (c.reward_pool - reward_share(c)) as u64;
    Challenge { reward_pool: pool, rewards_distributed: c.rewards_distributed || pool == 0, ..c }
}

/// The vote once its reward has been paid.
pub open spec fn vote_after_claim(vote: Vote) -> Vote {
    Vote { processed: true, ..vote }
}

/// A reward is paid once: after a successful claim the same claim is refused
/// with `AlreadyClaimed`, so the pool is debited by a single share.
pub proof fn lemma_claim_pays_once(c: Challenge, vote: Vote, winner: Principal)
    requires
        claim_error(c, vote, winner) is None,
    ensures
        claim_error(challenge_after_claim(c), vote_after_claim(vote), winner) == Some(
            PolocError::AlreadyClaimed,
        ),
        challenge_after_claim(c).reward_pool == c.reward_pool - reward_share(c),
{
}

/// Pays `winner` its share of the pool for an honest vote on a challenge
/// whose verdict passed.
///
/// On success the returned amount is to be moved from the challenge's escrow
/// to `winner`: the pool has been debited by exactly that amount and the vote
/// marked processed, so that it cannot be paid twice.
pub fn handler(challenge: &mut Challenge, vote: &mut Vote, winner: &Principal) -> (r: Result<
    u64,
    PolocError,
>)
    ensures
        match claim_error(*old(challenge), *old(vote), *winner) {
            Some(e) => r == Err::<u64, PolocError>(e) && *final(challenge) == *old(challenge)
                && *final(vote) == *old(vote),
            None => r == Ok::<u64, PolocError>(reward_share(*old(challenge)))
                && *final(challenge) == challenge_after_claim(*old(challenge))
                && *final(vote) == vote_after_claim(*old(vote)),
        },
{
    if challenge.status != ChallengeStatus::Finalized {
        return Err(PolocError::ChallengeNotFinalized);
    }
    if !challenge.is_passed() {
        return Err(PolocError::ChallengeFailed);
    }
    if vote.challenger != *winner {
        return Err(PolocError::Unauthorized);
    }
    if vote.processed {
        return Err(PolocError::AlreadyClaimed);
    }
    if !vote.is_valid {
        return Err(PolocError::VotedIncorrectly);
    }
    if challenge.valid_vote_count == 0 {
        return Err(PolocError::NoValidVotes);
    }
    let share: u64 = challenge.pool_at_finalization / (challenge.valid_vote_count as u64);
    let pool: u64 = match challenge.reward_pool.checked_sub(share) {
        Some(p) => p,
        None => {
            return Err(PolocError::ArithmeticOverflow);
        },
    };
    vote.processed = true;
    challenge.reward_pool = pool;
    if pool == 0 {
        challenge.rewards_distributed = true;
    }
    Ok(share)
}

} // verus!
