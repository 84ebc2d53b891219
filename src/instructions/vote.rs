use vstd::prelude::*;

use crate::errors::PolocError;
use crate::state::{
    Challenge,
    ChallengeStatus,
    MAX_MIN_RTT,
    MAX_UNCERTAINTY,
    Principal,
    Stake,
    VOTING_WINDOW,
    Vote,
};

verus! {

/// Why a vote cast at time `now` is refused, checked in this order; `None`
/// when it is accepted.
pub open spec fn vote_error(
    c: Challenge,
    stake: Stake,
    challenger: Principal,
    is_valid: bool,
    uncertainty: u32,
    min_rtt: u32,
    now: i64,
) -> Option<PolocError> {
    if stake.challenger@ != challenger@ {
        Some(PolocError::ChallengerNotStaked)
    } else if c.status != ChallengeStatus::Active {
        Some(PolocError::ChallengeNotActive)
    } else if now <= c.deadline {
        Some(PolocError::VotingNotOpen)
    } else if now > c.voting_end() {
        Some(PolocError::VotingClosed)
    } else if stake.slashed {
        Some(PolocError::StakeSlashed)
    } else if uncertainty > MAX_UNCERTAINTY {
        Some(PolocError::InvalidParameters)
    } else if min_rtt == 0 || min_rtt > MAX_MIN_RTT {
        Some(PolocError::InvalidParameters)
    } else if c.vote_count + 1 > u32::MAX || (is_valid && c.valid_vote_count + 1 > u32::MAX) {
        Some(PolocError::ArithmeticOverflow)
    } else {
        None
    }
}

/// The challenge once a vote has been tallied.
pub open spec fn challenge_after_vote(c: Challenge, is_valid: bool) -> Challenge {
    Challenge {
        vote_count: (c.vote_count + 1) as u32,
        valid_vote_count: if is_valid {
            (c.valid_vote_count + 1) as u32
        } else {
            c.valid_vote_count
        },
        ..c
    }
}

/// The record of a vote accepted at time `now`.
pub open spec fn new_vote(
    c: Challenge,
    challenger: Principal,
    challenger_id: String,
    is_valid: bool,
    uncertainty: u32,
    min_rtt: u32,
    now: i64,
) -> Vote {
    Vote {
        challenger,
        challenge_id: c.challenge_id,
        challenger_id,
        is_valid,
        uncertainty,
        min_rtt,
        timestamp: now,
        processed: false,
    }
}

/// Records `challenger`'s verdict, backed by its `stake`, during the voting
/// window `(deadline, deadline + VOTING_WINDOW]`.
///
/// On success the challenge's tally counts the vote, as valid when
/// `is_valid`, and the returned record is to be stored as the challenger's
/// only vote.
pub fn handler(
    challenge: &mut Challenge,
    stake: &Stake,
    challenger: Principal,
    challenger_id: String,
    is_valid: bool,
    uncertainty: u32,
    min_rtt: u32,
    now: i64,
) -> (r: Result<Vote, PolocError>)
    ensures
        match vote_error(*old(challenge), *stake, challenger, is_valid, uncertainty, min_rtt, now) {
            Some(e) => r == Err::<Vote, PolocError>(e) && *final(challenge) == *old(challenge),
            None => r == Ok::<Vote, PolocError>(
                new_vote(*old(challenge), challenger, challenger_id, is_valid, uncertainty, min_rtt, now),
            ) && *final(challenge) == challenge_after_vote(*old(challenge), is_valid),
        },
        now <= old(challenge).deadline || now > old(challenge).voting_end() ==> r.is_err(),
{
    if stake.challenger != challenger {
        return Err(PolocError::ChallengerNotStaked);
    }
    if challenge.status != ChallengeStatus::Active {
        return Err(PolocError::ChallengeNotActive);
    }
    if now <= challenge.deadline {
        return Err(PolocError::VotingNotOpen);
    }
    if (now as i128) > (challenge.deadline as i128) + (VOTING_WINDOW as i128) {
        return Err(PolocError::VotingClosed);
    }
    if stake.slashed {
        return Err(PolocError::StakeSlashed);
    }
    if uncertainty > MAX_UNCERTAINTY {
        return Err(PolocError::InvalidParameters);
    }
    if min_rtt == 0 || min_rtt > MAX_MIN_RTT {
        return Err(PolocError::InvalidParameters);
    }
    let vote_count: u32 = match challenge.vote_count.checked_add(1) {
        Some(n) => n,
        None => {
            return Err(PolocError::ArithmeticOverflow);
        },
    };
    let valid_vote_count: u32 = if is_valid {
        match challenge.valid_vote_count.checked_add(1) {
            Some(n) => n,
            None => {
                return Err(PolocError::ArithmeticOverflow);
            },
        }
    } else {
        challenge.valid_vote_count
    };
    challenge.vote_count = vote_count;
    challenge.valid_vote_count = valid_vote_count;
    Ok(
        Vote {
            challenger,
            challenge_id: challenge.challenge_id.clone(),
            challenger_id,
            is_valid,
            uncertainty,
            min_rtt,
            timestamp: now,
            processed: false,
        },
    )
}

} // verus!
