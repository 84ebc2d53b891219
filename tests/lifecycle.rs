use poloc::errors::PolocError;
use poloc::registry::ChallengeRegistry;
use poloc::state::{ChallengeStatus, Principal, MAX_PARTICIPANTS, MIN_STAKE, VOTING_WINDOW};
use poloc::{
    claim_reward, finalize_challenge, initialize_challenge, refund_failed_challenge, slash, stake,
    submit_vote,
};

const START: i64 = 1_000;
const DURATION: u64 = 60;
const DEADLINE: i64 = START + DURATION as i64;

fn key(n: u8) -> Principal {
    Principal { bytes: [n; 32] }
}

fn waldo() -> Principal {
    key(200)
}

fn create(pool: u64) -> ChallengeRegistry {
    initialize_challenge(
        "paris-claim".to_string(),
        waldo(),
        48_856_600,
        2_352_200,
        DURATION,
        pool,
        START,
    )
    .unwrap()
}

/// A challenge funded with 3_000_000 and `n` stakers of 1_000_000 each, all of
/// whom voted `valid`.
fn staked_and_voted(n: u8) -> ChallengeRegistry {
    let mut reg = create(3_000_000);
    for i in 1..=n {
        stake(&mut reg, key(i), 1_000_000, START + 10).unwrap();
    }
    for i in 1..=n {
        submit_vote(&mut reg, key(i), format!("station-{}", i), true, 800, 12_000, DEADLINE + 1)
            .unwrap();
    }
    reg
}

#[test]
fn honest_challenge_pays_each_voter_a_third() {
    let mut reg = staked_and_voted(3);
    assert_eq!(reg.challenge.reward_pool, 6_000_000);
    finalize_challenge(&mut reg, waldo(), 500, DEADLINE + VOTING_WINDOW + 1).unwrap();
    assert_eq!(reg.challenge.status, ChallengeStatus::Finalized);
    assert_eq!(reg.challenge.r_star, 500);
    for i in 1..=3 {
        assert_eq!(claim_reward(&mut reg, key(i)), Ok(2_000_000));
    }
    assert_eq!(reg.challenge.reward_pool, 0);
    assert!(reg.challenge.rewards_distributed);
}

#[test]
fn failed_verdict_refunds_the_whole_pool() {
    let mut reg = staked_and_voted(3);
    finalize_challenge(&mut reg, waldo(), 1500, DEADLINE + VOTING_WINDOW + 1).unwrap();
    assert_eq!(reg.challenge.status, ChallengeStatus::Finalized);
    for i in 1..=3 {
        assert_eq!(claim_reward(&mut reg, key(i)), Err(PolocError::ChallengeFailed));
    }
    assert_eq!(refund_failed_challenge(&mut reg, waldo()), Ok(6_000_000));
    assert!(reg.closed);
    assert_eq!(reg.challenge.reward_pool, 0);
    assert_eq!(refund_failed_challenge(&mut reg, waldo()), Err(PolocError::ChallengeNotFound));
}

#[test]
fn two_stakers_leave_only_the_refund() {
    let mut reg = staked_and_voted(2);
    finalize_challenge(&mut reg, waldo(), 10, DEADLINE + VOTING_WINDOW + 1).unwrap();
    assert_eq!(reg.challenge.status, ChallengeStatus::InsufficientParticipants);
    assert_eq!(reg.challenge.r_star, 0);
    assert_eq!(claim_reward(&mut reg, key(1)), Err(PolocError::ChallengeNotFinalized));
    assert_eq!(slash(&mut reg, waldo(), key(1)), Err(PolocError::ChallengeNotFinalized));
    assert_eq!(
        finalize_challenge(&mut reg, waldo(), 10, DEADLINE + VOTING_WINDOW + 2),
        Err(PolocError::ChallengeNotActive)
    );
    assert_eq!(refund_failed_challenge(&mut reg, waldo()), Ok(5_000_000));
}

#[test]
fn two_stakers_fail_closed_whatever_the_votes() {
    let mut reg = create(3_000_000);
    stake(&mut reg, key(1), 1_000_000, START).unwrap();
    stake(&mut reg, key(2), 1_000_000, START).unwrap();
    submit_vote(&mut reg, key(1), "a".to_string(), false, 0, 1, DEADLINE + 5).unwrap();
    finalize_challenge(&mut reg, waldo(), 1, DEADLINE + VOTING_WINDOW + 1).unwrap();
    assert_eq!(reg.challenge.status, ChallengeStatus::InsufficientParticipants);
}

#[test]
fn second_claim_is_refused_and_pool_debited_once() {
    let mut reg = staked_and_voted(3);
    finalize_challenge(&mut reg, waldo(), 1000, DEADLINE + VOTING_WINDOW + 1).unwrap();
    assert_eq!(claim_reward(&mut reg, key(1)), Ok(2_000_000));
    assert_eq!(reg.challenge.reward_pool, 4_000_000);
    assert_eq!(claim_reward(&mut reg, key(1)), Err(PolocError::AlreadyClaimed));
    assert_eq!(reg.challenge.reward_pool, 4_000_000);
    assert!(reg.votes[0].processed);
}

#[test]
fn valid_voters_split_the_pool_evenly() {
    let mut reg = create(3_000_000);
    for i in 1..=3 {
        stake(&mut reg, key(i), 1_000_000, START).unwrap();
    }
    submit_vote(&mut reg, key(1), "a".to_string(), true, 0, 1, DEADLINE + 1).unwrap();
    submit_vote(&mut reg, key(2), "b".to_string(), true, 0, 1, DEADLINE + 1).unwrap();
    submit_vote(&mut reg, key(3), "c".to_string(), false, 0, 1, DEADLINE + 1).unwrap();
    assert_eq!(reg.challenge.vote_count, 3);
    assert_eq!(reg.challenge.valid_vote_count, 2);
    finalize_challenge(&mut reg, waldo(), 0, DEADLINE + VOTING_WINDOW + 1).unwrap();
    assert_eq!(claim_reward(&mut reg, key(3)), Err(PolocError::VotedIncorrectly));
    assert_eq!(claim_reward(&mut reg, key(9)), Err(PolocError::Unauthorized));
    assert_eq!(claim_reward(&mut reg, key(2)), Ok(3_000_000));
    assert_eq!(reg.challenge.reward_pool, 3_000_000);
    assert!(!reg.challenge.rewards_distributed);
    assert_eq!(claim_reward(&mut reg, key(1)), Ok(3_000_000));
    assert_eq!(reg.challenge.reward_pool, 0);
    assert!(reg.challenge.rewards_distributed);
}

#[test]
fn remainder_stays_in_the_pool() {
    let mut reg = create(1_000_001);
    for i in 1..=3 {
        stake(&mut reg, key(i), 1_000_000, START).unwrap();
    }
    for i in 1..=3 {
        submit_vote(&mut reg, key(i), "s".to_string(), true, 0, 1, DEADLINE + 1).unwrap();
    }
    finalize_challenge(&mut reg, waldo(), 0, DEADLINE + VOTING_WINDOW + 1).unwrap();
    // 4_000_001 / 3 = 1_333_333, remainder 2.
    for i in 1..=3 {
        assert_eq!(claim_reward(&mut reg, key(i)), Ok(1_333_333));
    }
    assert_eq!(reg.challenge.reward_pool, 2);
    assert!(!reg.challenge.rewards_distributed);
}

#[test]
fn participant_count_counts_distinct_stakers() {
    let mut reg = create(3_000_000);
    stake(&mut reg, key(1), 1_000_000, START).unwrap();
    assert_eq!(stake(&mut reg, key(1), 2_000_000, START), Err(PolocError::AlreadyStaked));
    stake(&mut reg, key(2), 5_000_000, START).unwrap();
    assert_eq!(reg.challenge.participant_count, 2);
    assert_eq!(reg.stakes.len(), 2);
    assert_eq!(reg.challenge.reward_pool, 9_000_000);
}

#[test]
fn participant_count_stops_at_the_maximum() {
    let mut reg = create(3_000_000);
    for i in 1..=(MAX_PARTICIPANTS as u8) {
        stake(&mut reg, key(i), MIN_STAKE, START).unwrap();
    }
    assert_eq!(reg.challenge.participant_count, MAX_PARTICIPANTS);
    assert_eq!(
        stake(&mut reg, key(100), MIN_STAKE, START),
        Err(PolocError::MaxParticipantsReached)
    );
    assert_eq!(reg.challenge.participant_count, 20);
    assert_eq!(reg.challenge.reward_pool, 3_000_000 + 20 * MIN_STAKE);
}

#[test]
fn stake_refusals() {
    let mut reg = create(3_000_000);
    assert_eq!(stake(&mut reg, key(1), 999_999, START), Err(PolocError::InsufficientStake));
    assert_eq!(stake(&mut reg, key(1), MIN_STAKE, DEADLINE + 1), Err(PolocError::ChallengeExpired));
    stake(&mut reg, key(1), MIN_STAKE, DEADLINE).unwrap();
    assert_eq!(reg.challenge.participant_count, 1);
    assert_eq!(stake(&mut reg, key(2), u64::MAX, START), Err(PolocError::ArithmeticOverflow));
    assert_eq!(reg.challenge.reward_pool, 4_000_000);
}

#[test]
fn stake_after_finalization_is_refused() {
    let mut reg = staked_and_voted(3);
    finalize_challenge(&mut reg, waldo(), 0, DEADLINE + VOTING_WINDOW + 1).unwrap();
    assert_eq!(stake(&mut reg, key(7), MIN_STAKE, START), Err(PolocError::ChallengeNotActive));
}

#[test]
fn vote_outside_the_window_is_refused() {
    let mut reg = create(3_000_000);
    stake(&mut reg, key(1), MIN_STAKE, START).unwrap();
    for valid in [true, false] {
        for uncertainty in [0, 50_000, 60_000] {
            assert_eq!(
                submit_vote(&mut reg, key(1), "s".to_string(), valid, uncertainty, 10, DEADLINE),
                Err(PolocError::VotingNotOpen)
            );
            assert_eq!(
                submit_vote(&mut reg, key(1), "s".to_string(), valid, uncertainty, 10, START),
                Err(PolocError::VotingNotOpen)
            );
            assert_eq!(
                submit_vote(
                    &mut reg,
                    key(1),
                    "s".to_string(),
                    valid,
                    uncertainty,
                    10,
                    DEADLINE + VOTING_WINDOW + 1
                ),
                Err(PolocError::VotingClosed)
            );
        }
    }
    assert_eq!(reg.challenge.vote_count, 0);
    submit_vote(&mut reg, key(1), "s".to_string(), true, 10, 10, DEADLINE + VOTING_WINDOW).unwrap();
    assert_eq!(reg.challenge.vote_count, 1);
}

#[test]
fn vote_refusals() {
    let mut reg = create(3_000_000);
    stake(&mut reg, key(1), MIN_STAKE, START).unwrap();
    let t = DEADLINE + 1;
    assert_eq!(
        submit_vote(&mut reg, key(2), "s".to_string(), true, 0, 1, t),
        Err(PolocError::ChallengerNotStaked)
    );
    assert_eq!(
        submit_vote(&mut reg, key(1), "s".to_string(), true, 50_001, 1, t),
        Err(PolocError::InvalidParameters)
    );
    assert_eq!(
        submit_vote(&mut reg, key(1), "s".to_string(), true, 0, 0, t),
        Err(PolocError::InvalidParameters)
    );
    assert_eq!(
        submit_vote(&mut reg, key(1), "s".to_string(), true, 0, 1_000_001, t),
        Err(PolocError::InvalidParameters)
    );
    submit_vote(&mut reg, key(1), "s".to_string(), true, 50_000, 1_000_000, t).unwrap();
    assert_eq!(
        submit_vote(&mut reg, key(1), "s".to_string(), true, 0, 1, t),
        Err(PolocError::AlreadyVoted)
    );
    assert_eq!(reg.votes.len(), 1);
    assert_eq!(reg.votes[0].challenger_id, "s");
    assert_eq!(reg.votes[0].timestamp, t);
    assert!(!reg.votes[0].processed);
}

#[test]
fn finalize_refusals() {
    let mut reg = staked_and_voted(3);
    assert_eq!(
        finalize_challenge(&mut reg, key(1), 0, DEADLINE + VOTING_WINDOW + 1),
        Err(PolocError::Unauthorized)
    );
    assert_eq!(
        finalize_challenge(&mut reg, waldo(), 0, DEADLINE + VOTING_WINDOW),
        Err(PolocError::ChallengeExpired)
    );
    assert_eq!(reg.challenge.status, ChallengeStatus::Active);
}

#[test]
fn slash_marks_once_and_blocks_nothing_else() {
    let mut reg = staked_and_voted(3);
    assert_eq!(slash(&mut reg, waldo(), key(1)), Err(PolocError::ChallengeNotFinalized));
    finalize_challenge(&mut reg, waldo(), 2000, DEADLINE + VOTING_WINDOW + 1).unwrap();
    assert_eq!(slash(&mut reg, key(2), key(1)), Err(PolocError::Unauthorized));
    assert_eq!(slash(&mut reg, waldo(), key(9)), Err(PolocError::ChallengerNotStaked));
    assert_eq!(slash(&mut reg, waldo(), key(1)), Ok(()));
    assert!(reg.stakes[0].slashed);
    assert_eq!(reg.challenge.reward_pool, 6_000_000);
    assert_eq!(slash(&mut reg, waldo(), key(1)), Err(PolocError::AlreadySlashed));
}

#[test]
fn refund_refusals() {
    let mut reg = staked_and_voted(3);
    assert_eq!(refund_failed_challenge(&mut reg, waldo()), Err(PolocError::ChallengeNotFinalized));
    finalize_challenge(&mut reg, waldo(), 1000, DEADLINE + VOTING_WINDOW + 1).unwrap();
    assert_eq!(refund_failed_challenge(&mut reg, key(1)), Err(PolocError::Unauthorized));
    assert_eq!(
        refund_failed_challenge(&mut reg, waldo()),
        Err(PolocError::CannotRefundSuccessfulChallenge)
    );
    for i in 1..=3 {
        claim_reward(&mut reg, key(i)).unwrap();
    }
    assert!(reg.challenge.rewards_distributed);
}

#[test]
fn refund_after_full_payout_is_refused() {
    let mut reg = staked_and_voted(3);
    finalize_challenge(&mut reg, waldo(), 0, DEADLINE + VOTING_WINDOW + 1).unwrap();
    for i in 1..=3 {
        claim_reward(&mut reg, key(i)).unwrap();
    }
    assert_eq!(
        refund_failed_challenge(&mut reg, waldo()),
        Err(PolocError::RewardsAlreadyDistributed)
    );
}

#[test]
fn new_challenge_starts_empty() {
    let reg = create(3_000_000);
    assert_eq!(reg.challenge.status, ChallengeStatus::Active);
    assert_eq!(reg.challenge.deadline, DEADLINE);
    assert_eq!(reg.challenge.start_time, START);
    assert_eq!(reg.challenge.reward_pool, 3_000_000);
    assert_eq!(reg.challenge.r_star_threshold, 1000);
    assert_eq!(reg.challenge.participant_count, 0);
    assert_eq!(reg.challenge.challenge_id, "paris-claim");
    assert_eq!(reg.funding, 3_000_000);
    assert!(!reg.closed);
}

#[test]
fn creation_refusals() {
    let make = |lat: i32, lon: i32, duration: u64, pool: u64, now: i64| {
        initialize_challenge("c".to_string(), waldo(), lat, lon, duration, pool, now).err()
    };
    let bad = Some(PolocError::InvalidParameters);
    assert_eq!(make(0, 0, 0, 1, 0), bad);
    assert_eq!(make(0, 0, 86_401, 1, 0), bad);
    assert_eq!(make(0, 0, 86_400, 0, 0), bad);
    assert_eq!(make(90_000_001, 0, 1, 1, 0), bad);
    assert_eq!(make(-90_000_001, 0, 1, 1, 0), bad);
    assert_eq!(make(i32::MIN, 0, 1, 1, 0), bad);
    assert_eq!(make(0, 180_000_001, 1, 1, 0), bad);
    assert_eq!(make(0, -180_000_001, 1, 1, 0), bad);
    assert_eq!(make(90_000_000, -180_000_000, 86_400, 1, 0), None);
    assert_eq!(make(0, 0, 2, 1, i64::MAX - 1), Some(PolocError::ArithmeticOverflow));
    assert_eq!(make(0, 0, 1, 1, i64::MAX - 1), None);
}

#[test]
fn principals_compare_by_every_byte() {
    let mut a = [3u8; 32];
    let b = Principal { bytes: a };
    a[31] = 4;
    assert!(Principal { bytes: a } != b);
    assert!(key(3) == b);
}

#[test]
fn error_messages() {
    assert_eq!(PolocError::AlreadyClaimed.message(), "This reward has already been claimed.");
    assert_eq!(PolocError::Unauthorized.message(), "Unauthorized");
}

#[test]
fn pool_equals_deposits_less_payouts() {
    let mut reg = create(2_500_000);
    let amounts = [1_000_000u64, 1_250_000, 4_000_000, 1_000_001];
    for (i, a) in amounts.iter().enumerate() {
        stake(&mut reg, key(i as u8 + 1), *a, START).unwrap();
    }
    let deposited = 2_500_000 + amounts.iter().sum::<u64>();
    assert_eq!(reg.challenge.reward_pool, deposited);
    for i in 1..=3 {
        submit_vote(&mut reg, key(i), "s".to_string(), true, 0, 1, DEADLINE + 2).unwrap();
    }
    submit_vote(&mut reg, key(4), "s".to_string(), false, 0, 1, DEADLINE + 2).unwrap();
    finalize_challenge(&mut reg, waldo(), 999, DEADLINE + VOTING_WINDOW + 1).unwrap();
    let mut paid = 0;
    for i in [2u8, 3] {
        paid += claim_reward(&mut reg, key(i)).unwrap();
    }
    assert!(claim_reward(&mut reg, key(4)).is_err());
    assert_eq!(paid, 2 * (deposited / 3));
    assert_eq!(reg.challenge.reward_pool, deposited - paid);
    paid += claim_reward(&mut reg, key(1)).unwrap();
    assert_eq!(reg.challenge.reward_pool, deposited - paid);
    assert_eq!(reg.challenge.reward_pool, deposited % 3);
}
