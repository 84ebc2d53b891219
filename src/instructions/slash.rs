use vstd::prelude::*;

use crate::errors::PolocError;
use crate::state::{Challenge, ChallengeStatus, Principal, Stake};

verus! {

/// Why `authority` may not slash `stake`, checked in this order; `None` when
/// it may.
pub open spec fn slash_error(c: Challenge, stake: Stake, authority: Principal) -> Option<
    PolocError,
> {
    if authority@ != c.waldo@ {
        Some(PolocError::Unauthorized)
    } else if c.status != ChallengeStatus::Finalized {
        Some(PolocError::ChallengeNotFinalized)
    } else if stake.slashed {
        Some(PolocError::AlreadySlashed)
    } else {
        None
    }
}

/// The stake once forfeited.
pub open spec fn stake_after_slash(stake: Stake) -> Stake {
    Stake { slashed: true, ..stake }
}

/// Marks a challenger's stake forfeited on a finalized challenge, at the
/// request of the challenge's creator.
///
/// No value moves: the stake was pooled into the reward pool when it was
/// made, and the mark keeps it from being returned by any other path.
pub fn handler(challenge: &Challenge, stake: &mut Stake, authority: Principal) -> (r: Result<
    (),
    PolocError,
>)
    ensures
        match slash_error(*challenge, *old(stake), authority) {
            Some(e) => r == Err::<(), PolocError>(e) && *final(stake) == *old(stake),
            None => r == Ok::<(), PolocError>(()) && *final(stake) == stake_after_slash(*old(stake)),
        },
{
    if authority != challenge.waldo {
        return Err(PolocError::Unauthorized);
    }
    if challenge.status != ChallengeStatus::Finalized {
        return Err(PolocError::ChallengeNotFinalized);
    }
    if stake.slashed {
        return Err(PolocError::AlreadySlashed);
    }
    stake.slashed = true;
    Ok(())
}

} // verus!
