use vstd::prelude::*;

use crate::errors::PolocError;
use crate::state::{Challenge, ChallengeStatus, Principal};

verus! {

/// Why `authority` may not have the escrow refunded to `waldo_account`,
/// checked in this order; `None` when it may.
pub open spec fn refund_error(c: Challenge, waldo_account: Principal, authority: Principal) -> Option<
    PolocError,
> {
    if authority@ != waldo_account@ || waldo_account@ != c.waldo@ {
        Some(PolocError::Unauthorized)
    } else if c.status != ChallengeStatus::Finalized && c.status
        != ChallengeStatus::InsufficientParticipants {
        Some(PolocError::ChallengeNotFinalized)
    } else if c.rewards_distributed {
        Some(PolocError::RewardsAlreadyDistributed)
    } else if c.status == ChallengeStatus::Finalized && c.passed() {
        Some(PolocError::CannotRefundSuccessfulChallenge)
    } else {
        None
    }
}

/// The challenge once its whole escrow has left it.
pub open spec fn challenge_after_refund(c: Challenge) -> Challenge {
    Challenge { reward_pool: 0, ..c }
}

/// Returns the remaining escrow of a failed or under-subscribed challenge to
/// its creator, who must be the caller.
///
/// On success the returned amount, the whole pool including any residue of
/// earlier claims, is to be moved to `waldo_account` and the challenge's record
/// closed; the pool is left empty.
pub fn handler(challenge: &mut Challenge, waldo_account: Principal, authority: Principal) -> (r:
    Result<u64, PolocError>)
    ensures
        match refund_error(*old(challenge), waldo_account, authority) {
            Some(e) => r == Err::<u64, PolocError>(e) && *final(challenge) == *old(challenge),
            None => r == Ok::<u64, PolocError>(old(challenge).reward_pool) && *final(challenge)
                == challenge_after_refund(*old(challenge)),
        },
{
    if authority != waldo_account {
        return Err(PolocError::Unauthorized);
    }
    if waldo_account != challenge.waldo {
        return Err(PolocError::Unauthorized);
    }
    if challenge.status != ChallengeStatus::Finalized && challenge.status
        != ChallengeStatus::InsufficientParticipants {
        return Err(PolocError::ChallengeNotFinalized);
    }
    if challenge.rewards_distributed {
        return Err(PolocError::RewardsAlreadyDistributed);
    }
    if challenge.status == ChallengeStatus::Finalized && challenge.is_passed() {
        return Err(PolocError::CannotRefundSuccessfulChallenge);
    }
    let refund: u64 = challenge.reward_pool;
    challenge.reward_pool = 0;
    Ok(refund)
}

} // verus!
