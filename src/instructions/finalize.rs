use vstd::prelude::*;

use crate::errors::PolocError;
use crate::state::{Challenge, ChallengeStatus, MIN_PARTICIPANTS, Principal, VOTING_WINDOW};

verus! {

/// Why `authority` may not finalize at time `now`, checked in this order;
/// `None` when it may.
pub open spec fn finalize_error(c: Challenge, authority: Principal, now: i64) -> Option<
    PolocError,
> {
    if authority@ != c.waldo@ {
        Some(PolocError::Unauthorized)
    } else if c.status != ChallengeStatus::Active {
        Some(PolocError::ChallengeNotActive)
    } else if now <= c.voting_end() {
        Some(PolocError::ChallengeExpired)
    } else {
        None
    }
}

/// The challenge once finalized with the oracle's `r_star`, the pool to be
/// shared recorded; under-subscribed challenges fail closed without a verdict.
pub open spec fn challenge_after_finalize(c: Challenge, r_star: u32) -> Challenge {
    if c.participant_count < MIN_PARTICIPANTS {
        Challenge { status: ChallengeStatus::InsufficientParticipants, ..c }
    } else {
        Challenge {
            r_star,
            status: ChallengeStatus::Finalized,
            pool_at_finalization: c.reward_pool,
            ..c
        }
    }
}

/// Closes an active challenge once its voting window is over, accepting the
/// uncertainty radius `r_star` computed by the trusted oracle, its creator.
pub fn handler(challenge: &mut Challenge, authority: Principal, r_star: u32, now: i64) -> (r:
    Result<(), PolocError>)
    ensures
        match finalize_error(*old(challenge), authority, now) {
            Some(e) => r == Err::<(), PolocError>(e) && *final(challenge) == *old(challenge),
            None => r == Ok::<(), PolocError>(()) && *final(challenge) == challenge_after_finalize(
                *old(challenge),
                r_star,
            ),
        },
        r.is_ok() && old(challenge).participant_count < MIN_PARTICIPANTS ==> final(challenge).status
            == ChallengeStatus::InsufficientParticipants,
{
    if authority != challenge.waldo {
        return Err(PolocError::Unauthorized);
    }
    if challenge.status != ChallengeStatus::Active {
        return Err(PolocError::ChallengeNotActive);
    }
    if (now as i128) <= (challenge.deadline as i128) + (VOTING_WINDOW as i128) {
        return Err(PolocError::ChallengeExpired);
    }
    if challenge.participant_count < MIN_PARTICIPANTS {
        challenge.status = ChallengeStatus::InsufficientParticipants;
        return Ok(());
    }
    challenge.r_star = r_star;
    challenge.pool_at_finalization = challenge.reward_pool;
    challenge.status = ChallengeStatus::Finalized;
    Ok(())
}

} // verus!
