use vstd::prelude::*;

verus! {

/// Length of the voting window, in seconds, that opens when staking closes.
pub const VOTING_WINDOW: i64 = 300;

/// Longest staking period a challenge may be created with, in seconds.
pub const MAX_DURATION: u64 = 86_400;

/// Largest absolute latitude, in micro-degrees.
pub const MAX_LATITUDE: i32 = 90_000_000;

/// Largest absolute longitude, in micro-degrees.
pub const MAX_LONGITUDE: i32 = 180_000_000;

/// Acceptance bound given to every new challenge.
pub const DEFAULT_R_STAR_THRESHOLD: u32 = 1000;

/// Smallest amount a challenger may stake, in base units.
pub const MIN_STAKE: u64 = 1_000_000;

/// Most challengers that may stake on one challenge.
pub const MAX_PARTICIPANTS: u32 = 20;

/// Fewest challengers for which a verdict is accepted.
pub const MIN_PARTICIPANTS: u32 = 3;

/// Largest uncertainty a vote may report, in meters.
pub const MAX_UNCERTAINTY: u32 = 50_000;

/// Largest minimum round-trip time a vote may report, in microseconds.
pub const MAX_MIN_RTT: u32 = 1_000_000;

/// An authenticated principal: a 32-byte public key.
#[derive(Debug, Clone, Copy)]
pub struct Principal {
    pub bytes: [u8; 32],
}

impl View for Principal {
    type V = Seq<u8>;

    open spec fn view(&self) -> Seq<u8> {
        self.bytes@
    }
}

impl PartialEq for Principal {
    fn eq(&self, other: &Principal) -> (r: bool) {
        let mut i: usize = 0;
        while i < 32
            invariant
                0 <= i <= 32,
                self.bytes@.len() == 32,
                other.bytes@.len() == 32,
                forall|j: int| 0 <= j < i ==> self.bytes@[j] == other.bytes@[j],
            decreases 32 - i,
        {
            if self.bytes[i] != other.bytes[i] {
                return false;
            }
            i = i + 1;
        }
        assert(self.bytes@ =~= other.bytes@);
        true
    }
}

impl vstd::std_specs::cmp::PartialEqSpecImpl for Principal {
    open spec fn obeys_eq_spec() -> bool {
        true
    }

    open spec fn eq_spec(&self, other: &Principal) -> bool {
        self@ == other@
    }
}

impl Eq for Principal {
}

/// Where a challenge stands in its lifecycle.
#[derive(Debug, Clone, Copy, PartialEq, Eq, Structural)]
pub enum ChallengeStatus {
    Active,
    Finalized,
    Expired,
    InsufficientParticipants,
}

impl Default for ChallengeStatus {
    fn default() -> (r: ChallengeStatus)
        ensures
            r == ChallengeStatus::Active,
    {
        ChallengeStatus::Active
    }
}

/// One claimed-location assertion, with its escrow and its tally.
#[derive(Debug, Clone)]
pub struct Challenge {
    pub challenge_id: String,
    pub waldo: Principal,
    /// Latitude in micro-degrees.
    pub claimed_lat: i32,
    /// Longitude in micro-degrees.
    pub claimed_lon: i32,
    pub start_time: i64,
    /// End of staking; voting runs for `VOTING_WINDOW` seconds after it.
    pub deadline: i64,
    /// Value held in escrow for this challenge.
    pub reward_pool: u64,
    /// The reward pool as it stood when the verdict was accepted: each
    /// honest voter receives an equal share of it.
    pub pool_at_finalization: u64,
    pub status: ChallengeStatus,
    pub participant_count: u32,
    pub vote_count: u32,
    pub valid_vote_count: u32,
    /// Final uncertainty radius, in meters, accepted at finalization.
    pub r_star: u32,
    /// The verdict passes when `r_star` is at most this bound.
    pub r_star_threshold: u32,
    pub rewards_distributed: bool,
}

impl Challenge {
    /// The claim holds: the final uncertainty radius is within the threshold.
    pub open spec fn passed(&self) -> bool {
        self.r_star <= self.r_star_threshold
    }

    pub fn is_passed(&self) -> (r: bool)
        ensures
            r == self.passed(),
    {
        self.r_star <= self.r_star_threshold
    }

    /// Last instant, inclusive, at which a vote is accepted.
    pub open spec fn voting_end(&self) -> int {
        self.deadline + VOTING_WINDOW
    }
}

/// Collateral escrowed by one challenger on one challenge.
#[derive(Debug, Clone)]
pub struct Stake {
    pub challenger: Principal,
    pub challenge_id: String,
    pub amount: u64,
    pub timestamp: i64,
    pub slashed: bool,
}

/// One challenger's verdict on one challenge, with its measurements.
#[derive(Debug, Clone)]
pub struct Vote {
    pub challenger: Principal,
    pub challenge_id: String,
    /// Self-reported identity of the measuring station.
    pub challenger_id: String,
    pub is_valid: bool,
    /// Uncertainty in meters.
    pub uncertainty: u32,
    /// Minimum round-trip time in microseconds.
    pub min_rtt: u32,
    pub timestamp: i64,
    pub processed: bool,
}

} // verus!
