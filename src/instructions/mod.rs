pub mod claim_reward;
pub mod finalize;
pub mod initialize_challenge;
pub mod refund_failed_challenge;
pub mod slash;
pub mod stake;
pub mod vote;
