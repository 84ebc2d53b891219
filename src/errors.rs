use vstd::prelude::*;

verus! {

/// Every way in which an operation on a challenge can be refused.
///
/// An operation that returns one of these leaves every record it was given
/// exactly as it found it.
#[derive(Debug, Clone, Copy, PartialEq, Eq, Structural)]
pub enum PolocError {
    ChallengeNotFound,
    ChallengeExpired,
    ChallengeNotActive,
    VotingNotOpen,
    VotingClosed,
    InsufficientStake,
    AlreadyStaked,
    MaxParticipantsReached,
    ChallengerNotStaked,
    AlreadyVoted,
    ChallengeNotFinalized,
    RewardsAlreadyDistributed,
    Unauthorized,
    InvalidParameters,
    ArithmeticOverflow,
    InsufficientParticipants,
    NoValidVotes,
    AlreadyClaimed,
    ChallengeFailed,
    VotedIncorrectly,
    CannotRefundSuccessfulChallenge,
    AlreadySlashed,
    StakeSlashed,
}

impl PolocError {
    /// The human-readable message of each error kind.
    pub fn message(&self) -> (r: &'static str) {
        match self {
            PolocError::ChallengeNotFound => "Challenge not found",
            PolocError::ChallengeExpired => "Challenge has expired",
            PolocError::ChallengeNotActive => "Challenge is not active",
            PolocError::VotingNotOpen => "Voting has not yet started",
            PolocError::VotingClosed => "Voting period has ended",
            PolocError::InsufficientStake => "Insufficient stake amount",
            PolocError::AlreadyStaked => "Already staked for this challenge",
            PolocError::MaxParticipantsReached => "Maximum participants reached",
            PolocError::ChallengerNotStaked => "Challenger not staked",
            PolocError::AlreadyVoted => "Already voted",
            PolocError::ChallengeNotFinalized => "Challenge not finalized",
            PolocError::RewardsAlreadyDistributed => "Rewards already distributed",
            PolocError::Unauthorized => "Unauthorized",
            PolocError::InvalidParameters => "Invalid parameters",
            PolocError::ArithmeticOverflow => "Arithmetic overflow",
            PolocError::InsufficientParticipants => "Insufficient participants for finalization",
            PolocError::NoValidVotes => "No valid votes found for this challenge",
            PolocError::AlreadyClaimed => "This reward has already been claimed.",
            PolocError::ChallengeFailed => "The challenge failed, no rewards are available.",
            PolocError::VotedIncorrectly => "Your vote was incorrect, no reward for you.",
            PolocError::CannotRefundSuccessfulChallenge => "Cannot refund a challenge that was successful.",
            PolocError::AlreadySlashed => "This stake has already been slashed.",
            PolocError::StakeSlashed => "Stake has been slashed; cannot perform this action.",
        }
    }
}

} // verus!
