use vstd::prelude::*;

use crate::errors::PolocError;
use crate::state::{
    Challenge,
    ChallengeStatus,
    DEFAULT_R_STAR_THRESHOLD,
    MAX_DURATION,
    MAX_LATITUDE,
    MAX_LONGITUDE,
    Principal,
};

verus! {

/// The creation parameters are in range: a staking period of at most a day,
/// a funded pool, and a coordinate on the globe.
pub open spec fn valid_parameters(
    claimed_lat: i32,
    claimed_lon: i32,
    duration: u64,
    reward_pool: u64,
) -> bool {
    &&& 0 < duration <= MAX_DURATION
    &&& reward_pool > 0
    &&& -MAX_LATITUDE <= claimed_lat <= MAX_LATITUDE
    &&& -MAX_LONGITUDE <= claimed_lon <= MAX_LONGITUDE
}

/// Why a challenge may not be created at time `now`; `None` when it may.
pub open spec fn create_error(
    claimed_lat: i32,
    claimed_lon: i32,
    duration: u64,
    reward_pool: u64,
    now: i64,
) -> Option<PolocError> {
    if !valid_parameters(claimed_lat, claimed_lon, duration, reward_pool) {
        Some(PolocError::InvalidParameters)
    } else if now + duration > i64::MAX {
        Some(PolocError::ArithmeticOverflow)
    } else {
        None
    }
}

/// The challenge created at time `now`: active, funded with `reward_pool`,
/// with an empty tally and the default threshold.
pub open spec fn new_challenge(
    challenge_id: String,
    waldo: Principal,
    claimed_lat: i32,
    claimed_lon: i32,
    duration: u64,
    reward_pool: u64,
    now: i64,
) -> Challenge {
    Challenge {
        challenge_id,
        waldo,
        claimed_lat,
        claimed_lon,
        start_time: now,
        deadline: (now + duration) as i64,
        reward_pool,
        pool_at_finalization: 0,
        status: ChallengeStatus::Active,
        participant_count: 0,
        vote_count: 0,
        valid_vote_count: 0,
        r_star: 0,
        r_star_threshold: DEFAULT_R_STAR_THRESHOLD,
        rewards_distributed: false,
    }
}

/// Creates `waldo`'s challenge on the claimed coordinate, open to stakes for
/// `duration` seconds from `now`.
///
/// On success `reward_pool` is to be moved from `waldo` to the new
/// challenge's escrow together with storing the returned record.
pub fn handler(
    challenge_id: String,
    waldo: Principal,
    claimed_lat: i32,
    claimed_lon: i32,
    duration: u64,
    reward_pool: u64,
    now: i64,
) -> (r: Result<Challenge, PolocError>)
    ensures
        match create_error(claimed_lat, claimed_lon, duration, reward_pool, now) {
            Some(e) => r == Err::<Challenge, PolocError>(e),
            None => r == Ok::<Challenge, PolocError>(
                new_challenge(challenge_id, waldo, claimed_lat, claimed_lon, duration, reward_pool, now),
            ),
        },
{
    if duration == 0 || duration > MAX_DURATION {
        return Err(PolocError::InvalidParameters);
    }
    if reward_pool == 0 {
        return Err(PolocError::InvalidParameters);
    }
    if claimed_lat < -MAX_LATITUDE || claimed_lat > MAX_LATITUDE {
        return Err(PolocError::InvalidParameters);
    }
    if claimed_lon < -MAX_LONGITUDE || claimed_lon > MAX_LONGITUDE {
        return Err(PolocError::InvalidParameters);
    }
    let deadline: i64 = match now.checked_add(duration as i64) {
        Some(d) => d,
        None => {
            return Err(PolocError::ArithmeticOverflow);
        },
    };
    Ok(
        Challenge {
            challenge_id,
            waldo,
            claimed_lat,
            claimed_lon,
            start_time: now,
            deadline,
            reward_pool,
            pool_at_finalization: 0,
            status: ChallengeStatus::Active,
            participant_count: 0,
            vote_count: 0,
            valid_vote_count: 0,
            r_star: 0,
            r_star_threshold: DEFAULT_R_STAR_THRESHOLD,
            rewards_distributed: false,
        },
    )
}

} // verus!
