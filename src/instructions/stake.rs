use vstd::prelude::*;

use crate::errors::PolocError;
use crate::state::{Challenge, ChallengeStatus, MAX_PARTICIPANTS, MIN_STAKE, Principal, Stake};

verus! {

/// Why a stake of `amount` at time `now` is refused, checked in this order;
/// `None` when it is accepted.
pub open spec fn stake_error(c: Challenge, amount: u64, now: i64) -> Option<PolocError> {
    if c.status != ChallengeStatus::Active {
        Some(PolocError::ChallengeNotActive)
    } else if now > c.deadline {
        Some(PolocError::ChallengeExpired)
    } else if amount < MIN_STAKE {
        Some(PolocError::InsufficientStake)
    } else if c.participant_count >= MAX_PARTICIPANTS {
        Some(PolocError::MaxParticipantsReached)
    } else if c.reward_pool + amount > u64::MAX {
        Some(PolocError::ArithmeticOverflow)
    } else {
        None
    }
}

/// The challenge once a stake of `amount` has been pooled into it.
pub open spec fn challenge_after_stake(c: Challenge, amount: u64) -> Challenge {
    Challenge {
        reward_pool: (c.reward_pool + amount) as u64,
        participant_count: (c.participant_count + 1) as u32,
        ..c
    }
}

/// The record of a stake accepted at time `now`.
pub open spec fn new_stake(c: Challenge, challenger: Principal, amount: u64, now: i64) -> Stake {
    Stake {
        challenger,
        challenge_id: c.challenge_id,
        amount,
        timestamp: now,
        slashed: false,
    }
}

/// Accepts `challenger`'s stake of `amount` while the challenge is open.
///
/// On success `amount` is to be moved from the challenger to the challenge's
/// escrow: it has been added to the reward pool, the challenger counted, and
/// the returned record is to be stored as the challenger's only stake.
pub fn handler(challenge: &mut Challenge, challenger: Principal, amount: u64, now: i64) -> (r:
    Result<Stake, PolocError>)
    ensures
        match stake_error(*old(challenge), amount, now) {
            Some(e) => r == Err::<Stake, PolocError>(e) && *final(challenge) == *old(challenge),
            None => r == Ok::<Stake, PolocError>(new_stake(*old(challenge), challenger, amount, now))
                && *final(challenge) == challenge_after_stake(*old(challenge), amount),
        },
{
    if challenge.status != ChallengeStatus::Active {
        return Err(PolocError::ChallengeNotActive);
    }
    if now > challenge.deadline {
        return Err(PolocError::ChallengeExpired);
    }
    if amount < MIN_STAKE {
        return Err(PolocError::InsufficientStake);
    }
    if challenge.participant_count >= MAX_PARTICIPANTS {
        return Err(PolocError::MaxParticipantsReached);
    }
    let pool: u64 = match challenge.reward_pool.checked_add(amount) {
        Some(p) => p,
        None => {
            return Err(PolocError::ArithmeticOverflow);
        },
    };
    challenge.reward_pool = pool;
    challenge.participant_count = challenge.participant_count + 1;
    Ok(
        Stake {
            challenger,
            challenge_id: challenge.challenge_id.clone(),
            amount,
            timestamp: now,
            slashed: false,
        },
    )
}

} // verus!
