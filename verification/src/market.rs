use vstd::prelude::*;

use crate::graceful_degradation::OracleProvider;

verus! {

/// Identity of an account (admin, voter, bettor or contract) as the
/// contract's account registry numbers it.
pub type AccountId = u64;

/// The prediction-market contract. Its entry points are associated
/// functions defined next to the logic they run (resolution, payouts,
/// market lifecycle); each takes the stored records it reads and returns
/// what is to be stored.
pub struct PredictifyHybrid;

/// Lifecycle state of a market.
#[derive(Clone, Copy, Debug, PartialEq, Eq, Structural)]
pub enum MarketState {
    Active,
    Ended,
    Disputed,
    Resolved,
    Closed,
    Cancelled,
}

/// How a market's outcome is read from an oracle: the feed's price is
/// compared with `threshold` by `comparison` (`"gt"`, `"lt"`, otherwise
/// equality).
pub struct OracleConfig {
    pub provider: OracleProvider,
    pub oracle_address: AccountId,
    pub feed_id: String,
    pub threshold: i128,
    pub comparison: String,
}

/// A vote cast on a market, together with the stake it carries.
pub struct Vote {
    pub user: AccountId,
    pub outcome: String,
    pub stake: i128,
}

/// A recorded claim: the user has been paid (or marked as settled) `payout`.
#[derive(Clone, Copy, Debug, PartialEq, Eq, Structural)]
pub struct Claim {
    pub user: AccountId,
    pub payout: i128,
}

/// The part of a market's stored record that the contract's logic reads.
pub struct Market {
    pub admin: AccountId,
    pub question: String,
    pub outcomes: Vec<String>,
    pub end_time: u64,
    /// Voting closes at this time when it is non-zero (else at `end_time`).
    pub bet_deadline: u64,
    pub oracle_config: OracleConfig,
    pub fallback_oracle_config: Option<OracleConfig>,
    /// Seconds after `end_time` during which an oracle may still resolve.
    pub resolution_timeout: u64,
    pub oracle_result: Option<String>,
    pub votes: Vec<Vote>,
    pub total_staked: i128,
    pub claimed: Vec<Claim>,
    pub winning_outcomes: Option<Vec<String>>,
    pub fee_collected: bool,
    pub state: MarketState,
    pub dispute_window_seconds: u64,
    pub winnings_swept: bool,
    pub category: Option<String>,
    pub tags: Vec<String>,
}

impl Market {
    /// Whether a winning outcome has been set.
    pub open spec fn is_resolved(&self) -> bool {
        self.winning_outcomes is Some
    }
}

} // verus!
