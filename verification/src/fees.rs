use vstd::prelude::*;

use crate::errors::Error;
use crate::market::Market;

verus! {

// ===== FEE CONSTANTS =====

/// Basis-point denominator (10_000 = 100%).
pub const PERCENTAGE_DENOMINATOR: i128 = 10_000;

/// Platform fee percentage (2% = 200 basis points).
pub const PLATFORM_FEE_PERCENTAGE: i128 = 200;

/// Market creation fee (1 XLM = 10,000,000 stroops).
pub const MARKET_CREATION_FEE: i128 = 10_000_000;

/// Minimum fee amount (0.1 XLM).
pub const MIN_FEE_AMOUNT: i128 = 1_000_000;

/// Maximum fee amount (100 XLM).
pub const MAX_FEE_AMOUNT: i128 = 1_000_000_000;

/// Minimum total stake before fees can be collected (10 XLM).
pub const FEE_COLLECTION_THRESHOLD: i128 = 100_000_000;

/// Maximum fee percentage (5%).
pub const MAX_FEE_PERCENTAGE: i128 = 500;

/// Minimum fee percentage (0.1%).
pub const MIN_FEE_PERCENTAGE: i128 = 10;

/// Minimum delay in ledgers before a committed fee config can be revealed.
pub const MIN_DELAY_LEDGERS: u32 = 120;

/// Activity level thresholds (number of votes).
pub const ACTIVITY_LEVEL_LOW: u32 = 10;
pub const ACTIVITY_LEVEL_MEDIUM: u32 = 50;
pub const ACTIVITY_LEVEL_HIGH: u32 = 100;

/// Market size tiers (in stroops).
pub const MARKET_SIZE_SMALL: i128 = 100_000_000;
pub const MARKET_SIZE_MEDIUM: i128 = 1_000_000_000;
pub const MARKET_SIZE_LARGE: i128 = 10_000_000_000;

// ===== MATHEMATICAL MODEL =====

/// A fixed-width result read as a mathematical one.
pub open spec fn lift(r: Result<i128, Error>) -> Result<int, Error> {
    match r {
        Ok(v) => Ok(v as int),
        Err(e) => Err(e),
    }
}

/// `value * multiplier / divisor` rounded down, over non-negative inputs,
/// failing when the product leaves the `i128` range.
pub open spec fn mul_div_floor(value: int, multiplier: int, divisor: int) -> Result<int, Error> {
    if value < 0 || multiplier < 0 || divisor <= 0 {
        Err(Error::InvalidFeeConfig)
    } else if value * multiplier > i128::MAX {
        Err(Error::FeeArithmeticOverflow)
    } else {
        Ok(value * multiplier / divisor)
    }
}

/// `amount` scaled by `bps` basis points, rounded down.
pub open spec fn bps_floor(amount: int, bps: int) -> Result<int, Error> {
    mul_div_floor(amount, bps, PERCENTAGE_DENOMINATOR as int)
}

/// The platform fee on a pool of `total_staked` at `bps` basis points.
pub open spec fn platform_fee_at_rate(total_staked: int, bps: int) -> Result<int, Error> {
    if total_staked <= 0 {
        Err(Error::InvalidFeeConfig)
    } else {
        match bps_floor(total_staked, bps) {
            Err(e) => Err(e),
            Ok(fee) => if fee < MIN_FEE_AMOUNT {
                Err(Error::InsufficientStake)
            } else if fee > total_staked {
                Err(Error::InvalidFeeConfig)
            } else {
                Ok(fee)
            },
        }
    }
}

/// The platform fee at the default platform rate.
pub open spec fn platform_fee(total_staked: int) -> Result<int, Error> {
    platform_fee_at_rate(total_staked, PLATFORM_FEE_PERCENTAGE as int)
}

/// Size multiplier of the dynamic fee (percent).
pub open spec fn dynamic_size_multiplier(total_staked: int) -> int {
    if total_staked > 1_000_000_000 {
        80
    } else if total_staked > 100_000_000 {
        90
    } else {
        100
    }
}

/// The dynamic fee: the platform fee scaled by the size multiplier, never
/// below the minimum fee.
pub open spec fn dynamic_fee(total_staked: int) -> Result<int, Error> {
    match platform_fee(total_staked) {
        Err(e) => Err(e),
        Ok(base) => {
            let adjusted = base * dynamic_size_multiplier(total_staked) / 100;
            Ok(if adjusted < MIN_FEE_AMOUNT { MIN_FEE_AMOUNT as int } else { adjusted })
        },
    }
}

/// A user's payout after the platform fee: the user's stake net of the fee,
/// times the pool, divided by the winning total.
pub open spec fn payout_after_fees(user_stake: int, winning_total: int, total_pool: int) -> Result<int, Error> {
    if winning_total == 0 {
        Err(Error::NothingToClaim)
    } else if user_stake < 0 || winning_total < 0 || total_pool < 0 {
        Err(Error::InvalidFeeConfig)
    } else {
        match bps_floor(user_stake, PERCENTAGE_DENOMINATOR - PLATFORM_FEE_PERCENTAGE) {
            Err(e) => Err(e),
            Ok(share) => mul_div_floor(share, total_pool, winning_total),
        }
    }
}

// ===== FEE TYPES =====

/// Fee configuration for market operations.
#[derive(Clone, Copy, Debug, PartialEq, Eq, Structural)]
pub struct FeeConfig {
    /// Platform fee percentage (basis points)
    pub platform_fee_percentage: i128,
    /// Market creation fee
    pub creation_fee: i128,
    /// Minimum fee amount
    pub min_fee_amount: i128,
    /// Maximum fee amount
    pub max_fee_amount: i128,
    /// Fee collection threshold
    pub collection_threshold: i128,
    /// Whether fees are enabled
    pub fees_enabled: bool,
}

/// Breakdown of the fee charged on a market's pool.
#[derive(Clone, Copy, Debug, PartialEq, Eq, Structural)]
pub struct FeeBreakdown {
    /// Total staked amount
    pub total_staked: i128,
    /// Fee percentage
    pub fee_percentage: i128,
    /// Calculated fee amount
    pub fee_amount: i128,
    /// Platform fee
    pub platform_fee: i128,
    /// User payout amount (after fees)
    pub user_payout_amount: i128,
}

/// Fee management operations.
pub struct FeeManager;

/// Fee calculation utilities.
pub struct FeeCalculator;

/// Fee validation utilities.
pub struct FeeValidator;

/// Fee utility functions.
pub struct FeeUtils;

// ===== FEE CALCULATOR =====

impl FeeCalculator {
    /// Checked addition of fee amounts.
    pub fn checked_fee_add(lhs: i128, rhs: i128) -> (r: Result<i128, Error>)
        ensures
            lift(r) == (if lhs + rhs > i128::MAX || lhs + rhs < i128::MIN {
                Err(Error::FeeArithmeticOverflow)
            } else {
                Ok(lhs + rhs)
            }),
    {
        match lhs.checked_add(rhs) {
            Some(v) => Ok(v),
            None => Err(Error::FeeArithmeticOverflow),
        }
    }

    /// Checked subtraction of fee amounts.
    pub fn checked_fee_sub(lhs: i128, rhs: i128) -> (r: Result<i128, Error>)
        ensures
            lift(r) == (if lhs - rhs > i128::MAX || lhs - rhs < i128::MIN {
                Err(Error::FeeArithmeticOverflow)
            } else {
                Ok(lhs - rhs)
            }),
    {
        match lhs.checked_sub(rhs) {
            Some(v) => Ok(v),
            None => Err(Error::FeeArithmeticOverflow),
        }
    }

    /// `value * multiplier / divisor`, rounded down, for non-negative inputs.
    pub fn checked_mul_div_floor(value: i128, multiplier: i128, divisor: i128) -> (r: Result<
        i128,
        Error,
    >)
        ensures
            lift(r) == mul_div_floor(value as int, multiplier as int, divisor as int),
    {
        if value < 0 || multiplier < 0 || divisor <= 0 {
            return Err(Error::InvalidFeeConfig);
        }
        proof {
            assert(value * multiplier >= 0) by (nonlinear_arith)
                requires
                    value >= 0,
                    multiplier >= 0,
            ;
        }
        match value.checked_mul(multiplier) {
            None => Err(Error::FeeArithmeticOverflow),
            Some(product) => Ok(product / divisor),
        }
    }

    /// `amount` scaled by `bps` basis points, rounded down.
    pub fn checked_bps_floor(amount: i128, bps: i128) -> (r: Result<i128, Error>)
        ensures
            lift(r) == bps_floor(amount as int, bps as int),
    {
        Self::checked_mul_div_floor(amount, bps, PERCENTAGE_DENOMINATOR)
    }

    /// Platform fee on a pool at the given rate (basis points), rounded down.
    pub fn calculate_platform_fee_at_rate(total_staked: i128, fee_percentage: i128) -> (r: Result<
        i128,
        Error,
    >)
        ensures
            lift(r) == platform_fee_at_rate(total_staked as int, fee_percentage as int),
    {
        if total_staked <= 0 {
            return Err(Error::InvalidFeeConfig);
        }
        let fee_amount = match Self::checked_bps_floor(total_staked, fee_percentage) {
            Ok(v) => v,
            Err(e) => return Err(e),
        };
        if fee_amount < MIN_FEE_AMOUNT {
            return Err(Error::InsufficientStake);
        }
        if fee_amount > total_staked {
            return Err(Error::InvalidFeeConfig);
        }
        Ok(fee_amount)
    }

    /// Platform fee for a market, rounded down, so that the fee and the
    /// user payout reconcile to the total staked.
    pub fn calculate_platform_fee(market: &Market) -> (r: Result<i128, Error>)
        ensures
            lift(r) == platform_fee(market.total_staked as int),
    {
        Self::calculate_platform_fee_at_rate(market.total_staked, PLATFORM_FEE_PERCENTAGE)
    }

    /// A winner's payout after the platform fee.
    pub fn calculate_user_payout_after_fees(
        user_stake: i128,
        winning_total: i128,
        total_pool: i128,
    ) -> (r: Result<i128, Error>)
        ensures
            lift(r) == payout_after_fees(user_stake as int, winning_total as int, total_pool as int),
    {
        if winning_total == 0 {
            return Err(Error::NothingToClaim);
        }
        if user_stake < 0 || winning_total < 0 || total_pool < 0 {
            return Err(Error::InvalidFeeConfig);
        }
        let user_share = match Self::checked_bps_floor(
            user_stake,
            PERCENTAGE_DENOMINATOR - PLATFORM_FEE_PERCENTAGE,
        ) {
            Ok(v) => v,
            Err(e) => return Err(e),
        };
        Self::checked_mul_div_floor(user_share, total_pool, winning_total)
    }

    /// Fee breakdown of a pool at the given rate: the fee is rounded down and
    /// the user payout is the exact remainder.
    pub fn calculate_fee_breakdown_at_rate(total_staked: i128, fee_percentage: i128) -> (r: Result<
        FeeBreakdown,
        Error,
    >)
        ensures
            match (r, platform_fee_at_rate(total_staked as int, fee_percentage as int)) {
                (Ok(b), Ok(fee)) => {
                    &&& b.total_staked == total_staked
                    &&& b.fee_percentage == fee_percentage
                    &&& b.fee_amount == fee
                    &&& b.platform_fee == fee
                    &&& b.user_payout_amount == total_staked - fee
                    &&& b.platform_fee + b.user_payout_amount == b.total_staked
                },
                (Err(e1), Err(e2)) => e1 == e2,
                _ => false,
            },
    {
        let fee_amount = match Self::calculate_platform_fee_at_rate(total_staked, fee_percentage) {
            Ok(v) => v,
            Err(e) => return Err(e),
        };
        let user_payout_amount = match Self::checked_fee_sub(total_staked, fee_amount) {
            Ok(v) => v,
            Err(e) => return Err(e),
        };
        Ok(
            FeeBreakdown {
                total_staked,
                fee_percentage,
                fee_amount,
                platform_fee: fee_amount,
                user_payout_amount,
            },
        )
    }

    /// Fee breakdown for a market at the platform rate.
    pub fn calculate_fee_breakdown(market: &Market) -> (r: Result<FeeBreakdown, Error>)
        ensures
            match (r, platform_fee(market.total_staked as int)) {
                (Ok(b), Ok(fee)) => {
                    &&& b.total_staked == market.total_staked
                    &&& b.fee_percentage == PLATFORM_FEE_PERCENTAGE
                    &&& b.fee_amount == fee
                    &&& b.platform_fee == fee
                    &&& b.user_payout_amount == market.total_staked - fee
                    &&& b.platform_fee + b.user_payout_amount == b.total_staked
                },
                (Err(e1), Err(e2)) => e1 == e2,
                _ => false,
            },
    {
        Self::calculate_fee_breakdown_at_rate(market.total_staked, PLATFORM_FEE_PERCENTAGE)
    }

    /// Dynamic fee: the platform fee reduced for larger markets, never below
    /// the minimum fee.
    pub fn calculate_dynamic_fee(market: &Market) -> (r: Result<i128, Error>)
        ensures
            lift(r) == dynamic_fee(market.total_staked as int),
    {
        let base_fee = match Self::calculate_platform_fee(market) {
            Ok(v) => v,
            Err(e) => return Err(e),
        };
        let size_multiplier: i128 = if market.total_staked > 1_000_000_000 {
            80
        } else if market.total_staked > 100_000_000 {
            90
        } else {
            100
        };
        proof {
            assert(base_fee * size_multiplier <= i128::MAX) by (nonlinear_arith)
                requires
                    0 <= base_fee <= market.total_staked,
                    market.total_staked * 200 <= i128::MAX,
                    size_multiplier <= 100,
                    size_multiplier >= 0,
            ;
        }
        let adjusted_fee = match Self::checked_mul_div_floor(base_fee, size_multiplier, 100) {
            Ok(v) => v,
            Err(e) => return Err(e),
        };
        if adjusted_fee < MIN_FEE_AMOUNT {
            Ok(MIN_FEE_AMOUNT)
        } else {
            Ok(adjusted_fee)
        }
    }
}

// ===== DYNAMIC FEE TIERS =====

/// Market size tier.
#[derive(Clone, Copy, Debug, PartialEq, Eq, Structural)]
pub enum MarketSizeTier {
    Micro,
    Small,
    Medium,
    Large,
}

/// Market activity level, by number of votes.
#[derive(Clone, Copy, Debug, PartialEq, Eq, Structural)]
pub enum ActivityLevel {
    VeryLow,
    Low,
    Medium,
    High,
}

/// Fee tier for a range of market sizes.
#[derive(Clone, Copy, Debug, PartialEq, Eq, Structural)]
pub struct FeeTier {
    /// Minimum market size for this tier (in stroops)
    pub min_size: i128,
    /// Maximum market size for this tier (in stroops)
    pub max_size: i128,
    /// Fee percentage for this tier (in basis points)
    pub fee_percentage: i128,
    /// Tier name
    pub tier_name: MarketSizeTier,
}

/// Factors of the dynamic fee calculation for a market.
#[derive(Clone, Copy, Debug, PartialEq, Eq, Structural)]
pub struct FeeCalculationFactors {
    /// Base fee percentage (in basis points)
    pub base_fee_percentage: i128,
    /// Size-based multiplier (100 = no change)
    pub size_multiplier: i128,
    /// Activity-based multiplier (100 = no change)
    pub activity_multiplier: i128,
    /// Complexity factor (100 = no change)
    pub complexity_factor: i128,
    /// Final calculated fee percentage (in basis points)
    pub final_fee_percentage: i128,
    /// Market size tier
    pub market_size_tier: MarketSizeTier,
    /// Activity level
    pub activity_level: ActivityLevel,
}

/// The size tier of a market with `total_staked` staked.
pub open spec fn size_tier(total_staked: int) -> MarketSizeTier {
    if total_staked >= MARKET_SIZE_LARGE {
        MarketSizeTier::Large
    } else if total_staked >= MARKET_SIZE_MEDIUM {
        MarketSizeTier::Medium
    } else if total_staked >= MARKET_SIZE_SMALL {
        MarketSizeTier::Small
    } else {
        MarketSizeTier::Micro
    }
}

/// The fee percentage (basis points) of a size tier.
pub open spec fn tier_fee_percentage(tier: MarketSizeTier) -> int {
    match tier {
        MarketSizeTier::Large => 250,
        MarketSizeTier::Medium => 200,
        MarketSizeTier::Small => 150,
        MarketSizeTier::Micro => 100,
    }
}

/// The smallest market size in a tier.
pub open spec fn tier_min_size(tier: MarketSizeTier) -> int {
    match tier {
        MarketSizeTier::Large => MARKET_SIZE_LARGE as int,
        MarketSizeTier::Medium => MARKET_SIZE_MEDIUM as int,
        MarketSizeTier::Small => MARKET_SIZE_SMALL as int,
        MarketSizeTier::Micro => 0,
    }
}

/// The largest market size in a tier.
pub open spec fn tier_max_size(tier: MarketSizeTier) -> int {
    match tier {
        MarketSizeTier::Large => i128::MAX as int,
        MarketSizeTier::Medium => MARKET_SIZE_LARGE - 1,
        MarketSizeTier::Small => MARKET_SIZE_MEDIUM - 1,
        MarketSizeTier::Micro => MARKET_SIZE_SMALL - 1,
    }
}

/// The activity level of a market with `votes` votes.
pub open spec fn activity_level(votes: int) -> ActivityLevel {
    if votes >= ACTIVITY_LEVEL_HIGH {
        ActivityLevel::High
    } else if votes >= ACTIVITY_LEVEL_MEDIUM {
        ActivityLevel::Medium
    } else if votes >= ACTIVITY_LEVEL_LOW {
        ActivityLevel::Low
    } else {
        ActivityLevel::VeryLow
    }
}

/// Activity multiplier (percent) of an activity level.
pub open spec fn activity_multiplier(level: ActivityLevel) -> int {
    match level {
        ActivityLevel::High => 120,
        ActivityLevel::Medium => 110,
        ActivityLevel::Low => 105,
        ActivityLevel::VeryLow => 100,
    }
}

/// Size multiplier (percent) of a size tier in the fee calculation factors.
pub open spec fn tier_size_multiplier(tier: MarketSizeTier) -> int {
    match tier {
        MarketSizeTier::Large => 110,
        MarketSizeTier::Medium => 100,
        MarketSizeTier::Small => 95,
        MarketSizeTier::Micro => 90,
    }
}

/// `v` clamped into `[lo, hi]`.
pub open spec fn clamp(v: int, lo: int, hi: int) -> int {
    if v < lo {
        lo
    } else if v > hi {
        hi
    } else {
        v
    }
}

/// The fee adjusted for an activity level: the dynamic fee scaled by the
/// activity multiplier and clamped into the fee limits.
pub open spec fn activity_adjusted_fee(total_staked: int, level: int) -> Result<int, Error> {
    match dynamic_fee(total_staked) {
        Err(e) => Err(e),
        Ok(base) => Ok(
            clamp(
                base * activity_multiplier(activity_level(level)) / 100,
                MIN_FEE_AMOUNT as int,
                MAX_FEE_AMOUNT as int,
            ),
        ),
    }
}

/// The dynamic fee raised (or kept) by `pct` percent, clamped into the
/// fee limits.
pub open spec fn dynamic_fee_scaled(total_staked: int, pct: int) -> Result<int, Error> {
    match dynamic_fee(total_staked) {
        Err(e) => Err(e),
        Ok(d) => Ok(clamp(d * pct / 100, 1_000_000, 1_000_000_000)),
    }
}

/// The final fee percentage of the calculation factors.
pub open spec fn final_fee_percentage(total_staked: int, votes: int) -> int {
    let tier = size_tier(total_staked);
    let size_adjusted = tier_fee_percentage(tier) * tier_size_multiplier(tier) / 100;
    let activity_adjusted = size_adjusted * activity_multiplier(activity_level(votes)) / 100;
    clamp(activity_adjusted * 100 / 100, MIN_FEE_PERCENTAGE as int, MAX_FEE_PERCENTAGE as int)
}

impl FeeCalculator {
    /// Fee tier of a market of the given size.
    pub fn get_fee_tier_by_market_size(total_staked: i128) -> (r: Result<FeeTier, Error>)
        ensures
            r matches Ok(t) && t.tier_name == size_tier(total_staked as int) && t.fee_percentage
                == tier_fee_percentage(t.tier_name) && t.min_size == tier_min_size(t.tier_name)
                && t.max_size == tier_max_size(t.tier_name),
    {
        let tier_name = if total_staked >= MARKET_SIZE_LARGE {
            MarketSizeTier::Large
        } else if total_staked >= MARKET_SIZE_MEDIUM {
            MarketSizeTier::Medium
        } else if total_staked >= MARKET_SIZE_SMALL {
            MarketSizeTier::Small
        } else {
            MarketSizeTier::Micro
        };
        let (fee_percentage, min_size, max_size): (i128, i128, i128) = match tier_name {
            MarketSizeTier::Large => (250, MARKET_SIZE_LARGE, i128::MAX),
            MarketSizeTier::Medium => (200, MARKET_SIZE_MEDIUM, MARKET_SIZE_LARGE - 1),
            MarketSizeTier::Small => (150, MARKET_SIZE_SMALL, MARKET_SIZE_MEDIUM - 1),
            MarketSizeTier::Micro => (100, 0, MARKET_SIZE_SMALL - 1),
        };
        Ok(FeeTier { min_size, max_size, fee_percentage, tier_name })
    }

    /// Dynamic fee adjusted by the market's activity level, clamped into
    /// `[MIN_FEE_AMOUNT, MAX_FEE_AMOUNT]`.
    pub fn adjust_fee_by_activity(market: &Market, activity_level: u32) -> (r: Result<i128, Error>)
        ensures
            lift(r) == activity_adjusted_fee(market.total_staked as int, activity_level as int),
            activity_level >= 100 ==> lift(r) == dynamic_fee_scaled(market.total_staked as int, 120),
            50 <= activity_level < 100 ==> lift(r) == dynamic_fee_scaled(
                market.total_staked as int,
                110,
            ),
            10 <= activity_level < 50 ==> lift(r) == dynamic_fee_scaled(market.total_staked as int, 105),
            activity_level < 10 ==> lift(r) == dynamic_fee_scaled(market.total_staked as int, 100),
    {
        let base_fee = match Self::calculate_dynamic_fee(market) {
            Ok(v) => v,
            Err(e) => return Err(e),
        };
        let activity_multiplier: i128 = if activity_level >= ACTIVITY_LEVEL_HIGH {
            120
        } else if activity_level >= ACTIVITY_LEVEL_MEDIUM {
            110
        } else if activity_level >= ACTIVITY_LEVEL_LOW {
            105
        } else {
            100
        };
        proof {
            assert(base_fee * activity_multiplier <= i128::MAX) by (nonlinear_arith)
                requires
                    0 <= base_fee <= market.total_staked || base_fee == MIN_FEE_AMOUNT,
                    market.total_staked * 200 <= i128::MAX,
                    0 <= activity_multiplier <= 120,
            ;
        }
        let adjusted_fee = match Self::checked_mul_div_floor(base_fee, activity_multiplier, 100) {
            Ok(v) => v,
            Err(e) => return Err(e),
        };
        if adjusted_fee < MIN_FEE_AMOUNT {
            Ok(MIN_FEE_AMOUNT)
        } else if adjusted_fee > MAX_FEE_AMOUNT {
            Ok(MAX_FEE_AMOUNT)
        } else {
            Ok(adjusted_fee)
        }
    }

    /// Checks that a fee percentage lies within the global limits and within
    /// 20% of the fee of the market's size tier.
    pub fn validate_fee_percentage(fee: i128, market: &Market) -> (r: Result<bool, Error>)
        ensures
            ({
                let tier_fee = tier_fee_percentage(size_tier(market.total_staked as int));
                let ok = MIN_FEE_PERCENTAGE <= fee <= MAX_FEE_PERCENTAGE && tier_fee * 80 / 100
                    <= fee <= tier_fee * 120 / 100;
                &&& ok ==> r == Ok::<bool, Error>(true)
                &&& !ok ==> r == Err::<bool, Error>(Error::InvalidInput)
            }),
    {
        if fee < MIN_FEE_PERCENTAGE {
            return Err(Error::InvalidInput);
        }
        if fee > MAX_FEE_PERCENTAGE {
            return Err(Error::InvalidInput);
        }
        let tier = match Self::get_fee_tier_by_market_size(market.total_staked) {
            Ok(t) => t,
            Err(e) => return Err(e),
        };
        let min_allowed = match Self::checked_mul_div_floor(tier.fee_percentage, 80, 100) {
            Ok(v) => v,
            Err(e) => return Err(e),
        };
        let max_allowed = match Self::checked_mul_div_floor(tier.fee_percentage, 120, 100) {
            Ok(v) => v,
            Err(e) => return Err(e),
        };
        if fee < min_allowed || fee > max_allowed {
            return Err(Error::InvalidInput);
        }
        Ok(true)
    }

    /// Fee calculation factors for a market: tier fee, size and activity
    /// multipliers and the final fee percentage clamped into the limits.
    pub fn get_fee_calculation_factors(market: &Market) -> (r: Result<FeeCalculationFactors, Error>)
        ensures
            r matches Ok(f) && {
                let tier = size_tier(market.total_staked as int);
                let level = activity_level(market.votes.len() as int);
                &&& f.market_size_tier == tier
                &&& f.activity_level == level
                &&& f.base_fee_percentage == tier_fee_percentage(tier)
                &&& f.size_multiplier == tier_size_multiplier(tier)
                &&& f.activity_multiplier == activity_multiplier(level)
                &&& f.complexity_factor == 100
                &&& f.final_fee_percentage == final_fee_percentage(
                    market.total_staked as int,
                    market.votes.len() as int,
                )
            },
    {
        let tier = match Self::get_fee_tier_by_market_size(market.total_staked) {
            Ok(t) => t,
            Err(e) => return Err(e),
        };
        let vote_count = market.votes.len();
        let activity_level = if vote_count >= ACTIVITY_LEVEL_HIGH as usize {
            ActivityLevel::High
        } else if vote_count >= ACTIVITY_LEVEL_MEDIUM as usize {
            ActivityLevel::Medium
        } else if vote_count >= ACTIVITY_LEVEL_LOW as usize {
            ActivityLevel::Low
        } else {
            ActivityLevel::VeryLow
        };
        let size_multiplier: i128 = match tier.tier_name {
            MarketSizeTier::Large => 110,
            MarketSizeTier::Medium => 100,
            MarketSizeTier::Small => 95,
            MarketSizeTier::Micro => 90,
        };
        let activity_multiplier: i128 = match activity_level {
            ActivityLevel::High => 120,
            ActivityLevel::Medium => 110,
            ActivityLevel::Low => 105,
            ActivityLevel::VeryLow => 100,
        };
        let complexity_factor: i128 = 100;
        let size_adjusted = match Self::checked_mul_div_floor(
            tier.fee_percentage,
            size_multiplier,
            100,
        ) {
            Ok(v) => v,
            Err(e) => return Err(e),
        };
        let activity_adjusted = match Self::checked_mul_div_floor(
            size_adjusted,
            activity_multiplier,
            100,
        ) {
            Ok(v) => v,
            Err(e) => return Err(e),
        };
        let final_fee = match Self::checked_mul_div_floor(activity_adjusted, complexity_factor, 100) {
            Ok(v) => v,
            Err(e) => return Err(e),
        };
        let final_fee_percentage = if final_fee < MIN_FEE_PERCENTAGE {
            MIN_FEE_PERCENTAGE
        } else if final_fee > MAX_FEE_PERCENTAGE {
            MAX_FEE_PERCENTAGE
        } else {
            final_fee
        };
        Ok(
            FeeCalculationFactors {
                base_fee_percentage: tier.fee_percentage,
                size_multiplier,
                activity_multiplier,
                complexity_factor,
                final_fee_percentage,
                market_size_tier: tier.tier_name,
                activity_level,
            },
        )
    }
}

// ===== FEE VALIDATOR =====

/// Outcome of validating a market's fees.
pub struct FeeValidationResult {
    /// Whether the fee is valid
    pub is_valid: bool,
    /// Validation errors
    pub errors: Vec<String>,
    /// Suggested fee amount
    pub suggested_amount: i128,
    /// Fee breakdown
    pub breakdown: FeeBreakdown,
}

/// Whether a fee configuration is acceptable.
pub open spec fn fee_config_valid(config: FeeConfig) -> bool {
    &&& 0 <= config.platform_fee_percentage <= MAX_FEE_PERCENTAGE
    &&& config.creation_fee >= 0
    &&& config.min_fee_amount >= 0
    &&& config.max_fee_amount >= config.min_fee_amount
    &&& config.collection_threshold >= 0
}

/// Whether fees may be collected from a market.
pub open spec fn fees_collectible(market: &Market) -> bool {
    market.is_resolved() && !market.fee_collected && market.total_staked
        >= FEE_COLLECTION_THRESHOLD
}

impl FeeValidator {
    /// Checks that `admin` is the stored admin.
    pub fn validate_admin_permissions(stored_admin: Option<u64>, admin: u64) -> (r: Result<
        (),
        Error,
    >)
        ensures
            r == (if stored_admin == Some(admin) {
                Ok::<(), Error>(())
            } else {
                Err(Error::Unauthorized)
            }),
    {
        match stored_admin {
            Some(stored) => {
                if admin != stored {
                    return Err(Error::Unauthorized);
                }
                Ok(())
            },
            None => Err(Error::Unauthorized),
        }
    }

    /// Checks that fees can be collected from a market: it is resolved, its
    /// fees are not yet collected, and its pool reaches the threshold.
    pub fn validate_market_for_fee_collection(market: &Market) -> (r: Result<(), Error>)
        ensures
            r == (if !market.is_resolved() {
                Err(Error::MarketNotResolved)
            } else if market.fee_collected {
                Err(Error::FeeAlreadyCollected)
            } else if market.total_staked < FEE_COLLECTION_THRESHOLD {
                Err(Error::InsufficientStake)
            } else {
                Ok(())
            }),
            r is Ok <==> fees_collectible(market),
    {
        if market.winning_outcomes.is_none() {
            return Err(Error::MarketNotResolved);
        }
        if market.fee_collected {
            return Err(Error::FeeAlreadyCollected);
        }
        if market.total_staked < FEE_COLLECTION_THRESHOLD {
            return Err(Error::InsufficientStake);
        }
        Ok(())
    }

    /// Checks that a collected fee lies within `[MIN_FEE_AMOUNT, MAX_FEE_AMOUNT]`.
    pub fn validate_fee_amount(fee_amount: i128) -> (r: Result<(), Error>)
        ensures
            r == (if fee_amount < MIN_FEE_AMOUNT {
                Err(Error::InsufficientStake)
            } else if fee_amount > MAX_FEE_AMOUNT {
                Err(Error::InvalidInput)
            } else {
                Ok(())
            }),
    {
        if fee_amount < MIN_FEE_AMOUNT {
            return Err(Error::InsufficientStake);
        }
        if fee_amount > MAX_FEE_AMOUNT {
            return Err(Error::InvalidInput);
        }
        Ok(())
    }

    /// Checks that a creation fee lies within `[MIN_FEE_AMOUNT, MAX_FEE_AMOUNT]`.
    pub fn validate_creation_fee(fee_amount: i128) -> (r: Result<(), Error>)
        ensures
            r == (if MIN_FEE_AMOUNT <= fee_amount <= MAX_FEE_AMOUNT {
                Ok::<(), Error>(())
            } else {
                Err(Error::InvalidInput)
            }),
    {
        if fee_amount < MIN_FEE_AMOUNT || fee_amount > MAX_FEE_AMOUNT {
            return Err(Error::InvalidInput);
        }
        Ok(())
    }

    /// Checks a fee configuration's bounds.
    pub fn validate_fee_config(config: &FeeConfig) -> (r: Result<(), Error>)
        ensures
            r == (if fee_config_valid(*config) {
                Ok::<(), Error>(())
            } else {
                Err(Error::InvalidInput)
            }),
    {
        if config.platform_fee_percentage < 0 || config.platform_fee_percentage
            > MAX_FEE_PERCENTAGE {
            return Err(Error::InvalidInput);
        }
        if config.creation_fee < 0 {
            return Err(Error::InvalidInput);
        }
        if config.min_fee_amount < 0 {
            return Err(Error::InvalidInput);
        }
        if config.max_fee_amount < config.min_fee_amount {
            return Err(Error::InvalidInput);
        }
        if config.collection_threshold < 0 {
            return Err(Error::InvalidInput);
        }
        Ok(())
    }

    /// Validates a market's fees at the fee rate that applies to it: lists
    /// the problems found and suggests the fee of the breakdown.
    pub fn validate_market_fees(market: &Market, fee_percentage: i128) -> (r: Result<
        FeeValidationResult,
        Error,
    >)
        ensures
            match (r, platform_fee_at_rate(market.total_staked as int, fee_percentage as int)) {
                (Ok(v), Ok(fee)) => {
                    let low = market.total_staked < FEE_COLLECTION_THRESHOLD;
                    let done = market.fee_collected;
                    &&& v.is_valid == (!low && !done)
                    &&& v.errors@.len() == (if low { 1int } else { 0 }) + (if done { 1int } else { 0 })
                    &&& low ==> v.errors@[0]@ == "Insufficient stakes for fee collection"@
                    &&& done ==> v.errors@[v.errors@.len() - 1]@ == "Fees already collected"@
                    &&& v.suggested_amount == fee
                    &&& v.breakdown.fee_amount == fee
                    &&& v.breakdown.total_staked == market.total_staked
                    &&& v.breakdown.fee_percentage == fee_percentage
                    &&& v.breakdown.user_payout_amount == market.total_staked - fee
                },
                (Err(e1), Err(e2)) => e1 == e2,
                _ => false,
            },
    {
        let mut errors: Vec<String> = Vec::new();
        let mut is_valid = true;
        if market.total_staked < FEE_COLLECTION_THRESHOLD {
            errors.push("Insufficient stakes for fee collection".to_owned());
            is_valid = false;
        }
        if market.fee_collected {
            errors.push("Fees already collected".to_owned());
            is_valid = false;
        }
        let breakdown = match FeeCalculator::calculate_fee_breakdown_at_rate(
            market.total_staked,
            fee_percentage,
        ) {
            Ok(b) => b,
            Err(e) => return Err(e),
        };
        let suggested_amount = breakdown.fee_amount;
        Ok(FeeValidationResult { is_valid, errors, suggested_amount, breakdown })
    }
}

// ===== FEE UTILS =====

impl FeeUtils {
    /// Fee statistics (breakdown) of a market.
    pub fn get_market_fee_stats(market: &Market) -> (r: Result<FeeBreakdown, Error>)
        ensures
            match (r, platform_fee(market.total_staked as int)) {
                (Ok(b), Ok(fee)) => {
                    &&& b.total_staked == market.total_staked
                    &&& b.fee_percentage == PLATFORM_FEE_PERCENTAGE
                    &&& b.fee_amount == fee
                    &&& b.platform_fee == fee
                    &&& b.user_payout_amount == market.total_staked - fee
                },
                (Err(e1), Err(e2)) => e1 == e2,
                _ => false,
            },
    {
        FeeCalculator::calculate_fee_breakdown(market)
    }

    /// Whether fees can be collected from a market.
    pub fn can_collect_fees(market: &Market) -> (r: bool)
        ensures
            r == fees_collectible(market),
    {
        market.winning_outcomes.is_some() && !market.fee_collected && market.total_staked
            >= FEE_COLLECTION_THRESHOLD
    }

    /// Fee collection eligibility of a market, with the reason.
    pub fn get_fee_eligibility(market: &Market) -> (r: (bool, String))
        ensures
            r.0 == fees_collectible(market),
            r.1@ == (if !market.is_resolved() {
                "Market not resolved"@
            } else if market.fee_collected {
                "Fees already collected"@
            } else if market.total_staked < FEE_COLLECTION_THRESHOLD {
                "Insufficient stakes"@
            } else {
                "Eligible for fee collection"@
            }),
    {
        if market.winning_outcomes.is_none() {
            return (false, "Market not resolved".to_owned());
        }
        if market.fee_collected {
            return (false, "Fees already collected".to_owned());
        }
        if market.total_staked < FEE_COLLECTION_THRESHOLD {
            return (false, "Insufficient stakes".to_owned());
        }
        (true, "Eligible for fee collection".to_owned())
    }
}

// ===== LAWS =====

/// The platform fee, when charged, lies between the minimum fee and the
/// pool, and is the pool's share at the rate rounded down.
pub proof fn lemma_platform_fee_bounded(total_staked: int, bps: int)
    requires
        0 <= bps <= PERCENTAGE_DENOMINATOR,
    ensures
        platform_fee_at_rate(total_staked, bps) matches Ok(fee) ==> {
            &&& MIN_FEE_AMOUNT <= fee <= total_staked
            &&& fee * PERCENTAGE_DENOMINATOR <= total_staked * bps
            &&& total_staked * bps < (fee + 1) * PERCENTAGE_DENOMINATOR
        },
{
    if platform_fee_at_rate(total_staked, bps) is Ok {
        let fee = total_staked * bps / 10000;
        assert(fee * 10000 <= total_staked * bps < (fee + 1) * 10000) by (nonlinear_arith)
            requires
                fee == total_staked * bps / 10000,
                total_staked > 0,
                bps >= 0,
        ;
    }
}

/// The platform fee is charged exactly on pools of at least 50,000,000
/// stroops (where 2% reaches the minimum fee) whose scaled value fits.
pub proof fn lemma_platform_fee_charged_iff(total_staked: int)
    ensures
        platform_fee(total_staked) is Ok <==> (50_000_000 <= total_staked && total_staked * 200
            <= i128::MAX),
{
    if total_staked > 0 && total_staked * 200 <= i128::MAX {
        assert(total_staked * 200 / 10000 >= 1_000_000 <==> total_staked >= 50_000_000)
            by (nonlinear_arith)
            requires
                total_staked > 0,
        ;
        assert(total_staked * 200 / 10000 <= total_staked) by (nonlinear_arith)
            requires
                total_staked > 0,
        ;
    }
}

/// A larger pool never pays a smaller platform fee.
pub proof fn lemma_platform_fee_monotone(t1: int, t2: int)
    requires
        t1 <= t2,
    ensures
        match (platform_fee(t1), platform_fee(t2)) {
            (Ok(f1), Ok(f2)) => f1 <= f2,
            _ => true,
        },
{
    if platform_fee(t1) is Ok && platform_fee(t2) is Ok {
        assert(t1 * 200 / 10000 <= t2 * 200 / 10000) by (nonlinear_arith)
            requires
                0 < t1 <= t2,
        ;
    }
}

/// The dynamic fee never exceeds the platform fee and never falls below
/// the minimum fee; it succeeds exactly when the platform fee does.
pub proof fn lemma_dynamic_fee_bounded(total_staked: int)
    ensures
        dynamic_fee(total_staked) is Ok <==> platform_fee(total_staked) is Ok,
        match (dynamic_fee(total_staked), platform_fee(total_staked)) {
            (Ok(d), Ok(base)) => MIN_FEE_AMOUNT <= d <= base,
            _ => true,
        },
{
    if platform_fee(total_staked) is Ok {
        let base = total_staked * 200 / 10000;
        let m = dynamic_size_multiplier(total_staked);
        assert(base * m / 100 <= base) by (nonlinear_arith)
            requires
                base >= 0,
                0 <= m <= 100,
        ;
    }
}

/// The dynamic fee by market size: 2% of the pool, kept whole up to
/// 100,000,000, cut to 90% up to 1,000,000,000 and to 80% above, and never
/// below the minimum fee.
pub proof fn lemma_dynamic_fee_bands(total_staked: int)
    ensures
        platform_fee(total_staked) matches Ok(base) ==> {
            let pct = if total_staked > 1_000_000_000 {
                80int
            } else if total_staked > 100_000_000 {
                90int
            } else {
                100int
            };
            let v = base * pct / 100;
            dynamic_fee(total_staked) == Ok::<int, Error>(if v < 1_000_000 { 1_000_000 } else { v })
        },
        platform_fee(total_staked) is Err ==> dynamic_fee(total_staked) == platform_fee(
            total_staked,
        ),
{
}

/// The activity-adjusted fee by activity band: the dynamic fee raised 20%
/// from 100 votes, 10% from 50, 5% from 10 and kept below 10, then clamped
/// into `[1_000_000, 1_000_000_000]`; it fails exactly when the dynamic
/// fee does.
pub proof fn lemma_activity_bands(total_staked: int, level: int)
    ensures
        level >= 100 ==> activity_adjusted_fee(total_staked, level) == dynamic_fee_scaled(
            total_staked,
            120,
        ),
        50 <= level < 100 ==> activity_adjusted_fee(total_staked, level) == dynamic_fee_scaled(
            total_staked,
            110,
        ),
        10 <= level < 50 ==> activity_adjusted_fee(total_staked, level) == dynamic_fee_scaled(
            total_staked,
            105,
        ),
        level < 10 ==> activity_adjusted_fee(total_staked, level) == dynamic_fee_scaled(
            total_staked,
            100,
        ),
        dynamic_fee(total_staked) is Ok ==> (activity_adjusted_fee(total_staked, level) matches Ok(f)
            && 1_000_000 <= f <= 1_000_000_000),
{
}

/// More activity never lowers the activity-adjusted fee; in particular a
/// market with 100 or more votes pays at least 120% of its dynamic fee,
/// up to the maximum fee.
pub proof fn lemma_activity_never_lowers_fee(total_staked: int, l1: int, l2: int)
    requires
        l1 <= l2,
    ensures
        match (activity_adjusted_fee(total_staked, l1), activity_adjusted_fee(total_staked, l2)) {
            (Ok(f1), Ok(f2)) => f1 <= f2,
            _ => true,
        },
        l2 >= 100 ==> match (dynamic_fee(total_staked), activity_adjusted_fee(total_staked, l2)) {
            (Ok(d), Ok(f)) => f == 1_000_000_000 || f * 100 >= d * 120 - 99,
            _ => true,
        },
{
    if dynamic_fee(total_staked) is Ok {
        let d = dynamic_fee(total_staked)->Ok_0;
        lemma_dynamic_fee_bounded(total_staked);
        let m1 = activity_multiplier(activity_level(l1));
        let m2 = activity_multiplier(activity_level(l2));
        assert(m1 <= m2);
        assert(d * m1 / 100 <= d * m2 / 100) by (nonlinear_arith)
            requires
                d >= 0,
                m1 <= m2,
        ;
        let x = d * m2 / 100;
        assert(x * 100 <= d * m2 < (x + 1) * 100) by (nonlinear_arith)
            requires
                x == d * m2 / 100,
        ;
    }
}

/// The fee calculation factors by size and activity band: markets from
/// 10,000,000,000 stroops take 250 bps at 110%, from 1,000,000,000 200 bps at
/// 100%, from 100,000,000 150 bps at 95% and smaller ones 100 bps at 90%;
/// 100 or more votes raise the fee 20%, 50 or more 10%, 10 or more 5%; the
/// final percentage lies within `[10, 500]` bps.
pub proof fn lemma_fee_factor_bands(total_staked: int, votes: int)
    ensures
        total_staked >= 10_000_000_000 ==> tier_fee_percentage(size_tier(total_staked)) == 250
            && tier_size_multiplier(size_tier(total_staked)) == 110,
        1_000_000_000 <= total_staked < 10_000_000_000 ==> tier_fee_percentage(
            size_tier(total_staked),
        ) == 200 && tier_size_multiplier(size_tier(total_staked)) == 100,
        100_000_000 <= total_staked < 1_000_000_000 ==> tier_fee_percentage(size_tier(total_staked))
            == 150 && tier_size_multiplier(size_tier(total_staked)) == 95,
        total_staked < 100_000_000 ==> tier_fee_percentage(size_tier(total_staked)) == 100
            && tier_size_multiplier(size_tier(total_staked)) == 90,
        votes >= 100 ==> activity_multiplier(activity_level(votes)) == 120,
        50 <= votes < 100 ==> activity_multiplier(activity_level(votes)) == 110,
        10 <= votes < 50 ==> activity_multiplier(activity_level(votes)) == 105,
        votes < 10 ==> activity_multiplier(activity_level(votes)) == 100,
        10 <= final_fee_percentage(total_staked, votes) <= 500,
        final_fee_percentage(total_staked, votes) == clamp(
            tier_fee_percentage(size_tier(total_staked)) * tier_size_multiplier(size_tier(total_staked))
                / 100 * activity_multiplier(activity_level(votes)) / 100,
            10,
            500,
        ),
{
    let tier = size_tier(total_staked);
    let x = tier_fee_percentage(tier) * tier_size_multiplier(tier) / 100 * activity_multiplier(
        activity_level(votes),
    ) / 100;
    assert(x * 100 / 100 == x);
}

/// A winner whose stake is part of the winning total is never paid more
/// than the whole pool.
pub proof fn lemma_payout_within_pool(user_stake: int, winning_total: int, total_pool: int)
    requires
        0 <= user_stake <= winning_total,
    ensures
        payout_after_fees(user_stake, winning_total, total_pool) matches Ok(p) ==> 0 <= p
            <= total_pool,
{
    if payout_after_fees(user_stake, winning_total, total_pool) is Ok {
        let share = user_stake * 9800 / 10000;
        assert(0 <= share <= user_stake) by (nonlinear_arith)
            requires
                share == user_stake * 9800 / 10000,
                user_stake >= 0,
        ;
        assert(0 <= share * total_pool / winning_total <= total_pool) by (nonlinear_arith)
            requires
                0 <= share <= winning_total,
                winning_total > 0,
                total_pool >= 0,
        ;
    }
}

// ===== FEE COLLECTION =====

impl FeeCalculator {
    /// The earliest of `now` and the bets' timestamps: the time whose fee
    /// configuration governs the market.
    pub fn earliest_bet_timestamp(now: u64, bet_timestamps: &Vec<u64>) -> (r: u64)
        ensures
            r == earliest_timestamp(now, bet_timestamps@),
            r <= now,
            forall|i: int| 0 <= i < bet_timestamps@.len() ==> r <= bet_timestamps@[i],
            r == now || exists|i: int| 0 <= i < bet_timestamps@.len() && r == bet_timestamps@[i],
    {
        let mut earliest = now;
        let mut i: usize = 0;
        while i < bet_timestamps.len()
            invariant
                0 <= i <= bet_timestamps@.len(),
                earliest == earliest_timestamp(now, bet_timestamps@.take(i as int)),
                earliest <= now,
                forall|j: int| 0 <= j < i ==> earliest <= bet_timestamps@[j],
                earliest == now || exists|j: int| 0 <= j < i && earliest == bet_timestamps@[j],
            decreases bet_timestamps@.len() - i,
        {
            assert(bet_timestamps@.take(i + 1).drop_last() =~= bet_timestamps@.take(i as int));
            if bet_timestamps[i] < earliest {
                earliest = bet_timestamps[i];
            }
            i = i + 1;
        }
        assert(bet_timestamps@.take(i as int) =~= bet_timestamps@);
        earliest
    }
}

/// The earliest of `now` and the timestamps.
pub open spec fn earliest_timestamp(now: u64, ts: Seq<u64>) -> u64
    decreases ts.len(),
{
    if ts.len() == 0 {
        now
    } else {
        let e = earliest_timestamp(now, ts.drop_last());
        if ts.last() < e {
            ts.last()
        } else {
            e
        }
    }
}

} // verus!
