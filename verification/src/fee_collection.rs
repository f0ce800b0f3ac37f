use vstd::prelude::*;

use crate::errors::Error;
use crate::fee_config::{config_at, config_in_force, config_rate, FeeConfigStore};
use crate::fee_vault::{FeeCollection, FeeTracker, FeeVault};
use crate::fees::{
    earliest_timestamp, fees_collectible, lift, platform_fee_at_rate, FeeBreakdown, FeeCalculator, FeeConfig,
    FeeManager, FeeValidator, FeeValidationResult, MAX_FEE_AMOUNT, MAX_FEE_PERCENTAGE,
    MIN_FEE_AMOUNT, MIN_FEE_PERCENTAGE, PLATFORM_FEE_PERCENTAGE,
};
use crate::market::{AccountId, Market};

verus! {

/// The fee rate (bps) that governs a market: the rate of the configuration
/// in force at the market's earliest bet (or `now`, if earlier).
pub open spec fn governing_rate(store: FeeConfigStore, earliest: u64) -> i128 {
    config_rate(config_at(store@.history, config_in_force(store@), earliest))
}

/// Fee analytics over the fee vault.
pub struct FeeAnalytics {
    /// Total fees collected across all markets
    pub total_fees_collected: i128,
    /// Number of markets with fees collected
    pub markets_with_fees: u32,
    /// Average fee per market
    pub average_fee_per_market: i128,
    /// Fee collection history
    pub collection_history: Vec<FeeCollection>,
}

impl FeeCollection {
    /// An identical copy of the record.
    pub fn duplicate(&self) -> (r: FeeCollection)
        ensures
            r == *self,
    {
        FeeCollection {
            market_id: self.market_id.clone(),
            amount: self.amount,
            collected_by: self.collected_by,
            timestamp: self.timestamp,
            fee_percentage: self.fee_percentage,
        }
    }
}

impl FeeCalculator {
    /// Platform fee for a market at the rate of the configuration that was
    /// in force when its earliest bet was placed.
    pub fn calculate_platform_fee_with_env(
        store: &FeeConfigStore,
        market: &Market,
        bet_timestamps: &Vec<u64>,
        now: u64,
    ) -> (r: Result<i128, Error>)
        ensures
            lift(r) == platform_fee_at_rate(
                market.total_staked as int,
                governing_rate(*store, earliest_timestamp(now, bet_timestamps@)) as int,
            ),
    {
        let earliest = Self::earliest_bet_timestamp(now, bet_timestamps);
        let fee_percentage = FeeManager::get_fee_percentage_for_timestamp(store, earliest);
        Self::calculate_platform_fee_at_rate(market.total_staked, fee_percentage)
    }

    /// Fee breakdown of a market at the rate of the configuration that was
    /// in force when its earliest bet was placed.
    pub fn calculate_fee_breakdown_with_env(
        store: &FeeConfigStore,
        market: &Market,
        bet_timestamps: &Vec<u64>,
        now: u64,
    ) -> (r: Result<FeeBreakdown, Error>)
        ensures
            ({
                let rate = governing_rate(*store, earliest_timestamp(now, bet_timestamps@));
                match (r, platform_fee_at_rate(market.total_staked as int, rate as int)) {
                    (Ok(b), Ok(fee)) => {
                        &&& b.total_staked == market.total_staked
                        &&& b.fee_percentage == rate
                        &&& b.fee_amount == fee
                        &&& b.platform_fee == fee
                        &&& b.user_payout_amount == market.total_staked - fee
                    },
                    (Err(e1), Err(e2)) => e1 == e2,
                    _ => false,
                }
            }),
    {
        let earliest = Self::earliest_bet_timestamp(now, bet_timestamps);
        let fee_percentage = FeeManager::get_fee_percentage_for_timestamp(store, earliest);
        Self::calculate_fee_breakdown_at_rate(market.total_staked, fee_percentage)
    }
}

/// Whether every tier's fee lies within `[MIN_FEE_PERCENTAGE, MAX_FEE_PERCENTAGE]`.
pub open spec fn fee_tiers_valid(tiers: Seq<(u32, i128)>) -> bool {
    forall|i: int|
        0 <= i < tiers.len() ==> MIN_FEE_PERCENTAGE <= #[trigger] tiers[i].1 <= MAX_FEE_PERCENTAGE
}

impl FeeManager {
    /// Collects the platform fee of a resolved market into the fee vault
    /// (admin only), at the rate (bps) that governs the market. A market whose
    /// fees were already collected yields 0 without change; on any error
    /// neither the vault nor the market changes.
    pub fn collect_fees(
        vault: &mut FeeVault,
        market: &mut Market,
        stored_admin: Option<AccountId>,
        admin: AccountId,
        market_id: String,
        fee_percentage: i128,
        now: u64,
    ) -> (r: Result<i128, Error>)
        ensures
            stored_admin != Some(admin) ==> r == Err::<i128, Error>(Error::Unauthorized),
            stored_admin == Some(admin) && old(market).fee_collected ==> r == Ok::<i128, Error>(0),
            stored_admin == Some(admin) && !old(market).fee_collected && !fees_collectible(
                &*old(market),
            ) ==> r == Err::<i128, Error>(
                if !old(market).is_resolved() {
                    Error::MarketNotResolved
                } else {
                    Error::InsufficientStake
                },
            ),
            stored_admin == Some(admin) && fees_collectible(&*old(market)) ==> {
                let fee = platform_fee_at_rate(old(market).total_staked as int, fee_percentage as int);
                match fee {
                    Err(e) => r == Err::<i128, Error>(e),
                    Ok(f) => if f > MAX_FEE_AMOUNT {
                        r == Err::<i128, Error>(Error::InvalidInput)
                    } else if old(vault).total_fees + f > i128::MAX {
                        r == Err::<i128, Error>(Error::FeeArithmeticOverflow)
                    } else {
                        &&& r == Ok::<i128, Error>(f as i128)
                        &&& final(market).fee_collected
                        &&& final(vault).total_fees == old(vault).total_fees + f
                        &&& final(vault).collection_history@ == old(vault).collection_history@.push(
                            (FeeCollection {
                                market_id,
                                amount: f as i128,
                                collected_by: admin,
                                timestamp: now,
                                fee_percentage: PLATFORM_FEE_PERCENTAGE,
                            }),
                        )
                    },
                }
            },
            r is Err || (r is Ok && r->Ok_0 == 0) ==> *final(vault) == *old(vault),
            r is Err || (r is Ok && r->Ok_0 == 0) ==> *final(market) == *old(market),
            *final(market) == (Market { fee_collected: final(market).fee_collected, ..*old(market) }),
    {
        match FeeValidator::validate_admin_permissions(stored_admin, admin) {
            Ok(()) => {},
            Err(e) => return Err(e),
        }
        if market.fee_collected {
            return Ok(0);
        }
        match FeeValidator::validate_market_for_fee_collection(market) {
            Ok(()) => {},
            Err(e) => return Err(e),
        }
        let fee_amount = match FeeCalculator::calculate_platform_fee_at_rate(
            market.total_staked,
            fee_percentage,
        ) {
            Ok(v) => v,
            Err(e) => return Err(e),
        };
        match FeeValidator::validate_fee_amount(fee_amount) {
            Ok(()) => {},
            Err(e) => return Err(e),
        }
        match FeeTracker::record_fee_collection(
            vault,
            market_id,
            fee_amount,
            admin,
            now,
            PLATFORM_FEE_PERCENTAGE,
        ) {
            Ok(()) => {},
            Err(e) => return Err(e),
        }
        market.fee_collected = true;
        Ok(fee_amount)
    }

    /// Charges the market creation fee of the configuration: 0 when fees are
    /// disabled; otherwise the fee must lie within the fee limits and is
    /// recorded in the vault.
    pub fn process_creation_fee(vault: &mut FeeVault, fee_config: &FeeConfig) -> (r: Result<
        i128,
        Error,
    >)
        ensures
            !fee_config.fees_enabled ==> r == Ok::<i128, Error>(0) && *final(vault) == *old(vault),
            fee_config.fees_enabled ==> {
                let fee = fee_config.creation_fee;
                if fee < MIN_FEE_AMOUNT || fee > MAX_FEE_AMOUNT {
                    r == Err::<i128, Error>(Error::InvalidInput) && *final(vault) == *old(vault)
                } else if old(vault).creation_fees + fee > i128::MAX {
                    r == Err::<i128, Error>(Error::FeeArithmeticOverflow) && *final(vault) == *old(
                        vault,
                    )
                } else {
                    &&& r == Ok::<i128, Error>(fee)
                    &&& final(vault).creation_fees == old(vault).creation_fees + fee
                    &&& final(vault).total_fees == old(vault).total_fees
                    &&& final(vault).collection_history@ == old(vault).collection_history@
                }
            },
    {
        if !fee_config.fees_enabled {
            return Ok(0);
        }
        let creation_fee = fee_config.creation_fee;
        match FeeValidator::validate_creation_fee(creation_fee) {
            Ok(()) => {},
            Err(e) => return Err(e),
        }
        match FeeTracker::record_creation_fee(vault, creation_fee) {
            Ok(()) => {},
            Err(e) => return Err(e),
        }
        Ok(creation_fee)
    }

    /// Checks a new fee structure, tier by tier (admin only): every tier's
    /// fee must lie within `[MIN_FEE_PERCENTAGE, MAX_FEE_PERCENTAGE]`, else
    /// `InvalidInput`.
    pub fn update_fee_structure(
        stored_admin: Option<AccountId>,
        admin: AccountId,
        new_fee_tiers: &Vec<(u32, i128)>,
    ) -> (r: Result<(), Error>)
        ensures
            r == (if stored_admin != Some(admin) {
                Err(Error::Unauthorized)
            } else if !fee_tiers_valid(new_fee_tiers@) {
                Err(Error::InvalidInput)
            } else {
                Ok(())
            }),
    {
        if let Err(e) = FeeValidator::validate_admin_permissions(stored_admin, admin) {
            return Err(e);
        }
        let mut i: usize = 0;
        while i < new_fee_tiers.len()
            invariant
                0 <= i <= new_fee_tiers@.len(),
                stored_admin == Some(admin),
                forall|j: int|
                    0 <= j < i ==> MIN_FEE_PERCENTAGE <= #[trigger] new_fee_tiers@[j].1
                        <= MAX_FEE_PERCENTAGE,
            decreases new_fee_tiers@.len() - i,
        {
            let fee = new_fee_tiers[i].1;
            if fee < MIN_FEE_PERCENTAGE || fee > MAX_FEE_PERCENTAGE {
                return Err(Error::InvalidInput);
            }
            i = i + 1;
        }
        Ok(())
    }

    /// Validates a market's fees at the rate that governs it.
    pub fn validate_market_fees(
        store: &FeeConfigStore,
        market: &Market,
        bet_timestamps: &Vec<u64>,
        now: u64,
    ) -> (r: Result<FeeValidationResult, Error>)
        ensures
            ({
                    let earliest = earliest_timestamp(now, bet_timestamps@);
                    match (
                        r,
                        platform_fee_at_rate(
                            market.total_staked as int,
                            governing_rate(*store, earliest) as int,
                        ),
                    ) {
                        (Ok(v), Ok(fee)) => {
                            &&& v.is_valid == fees_collectible_apart_from_resolution(market)
                            &&& v.suggested_amount == fee
                            &&& v.breakdown.fee_amount == fee
                            &&& v.breakdown.fee_percentage == governing_rate(*store, earliest)
                            &&& v.breakdown.user_payout_amount == market.total_staked - fee
                        },
                        (Err(e1), Err(e2)) => e1 == e2,
                        _ => false,
                    }
                }),
    {
        let earliest = FeeCalculator::earliest_bet_timestamp(now, bet_timestamps);
        let fee_percentage = Self::get_fee_percentage_for_timestamp(store, earliest);
        FeeValidator::validate_market_fees(market, fee_percentage)
    }
}

/// Whether a market passes the fee checks that do not depend on resolution:
/// enough stake and fees not yet collected.
pub open spec fn fees_collectible_apart_from_resolution(market: &Market) -> bool {
    market.total_staked >= crate::fees::FEE_COLLECTION_THRESHOLD && !market.fee_collected
}

impl FeeAnalytics {
    /// Analytics of the fee vault: total, number of collections, average
    /// fee per collection (rounded toward zero), and the history.
    pub fn calculate_analytics(vault: &FeeVault) -> (r: FeeAnalytics)
        ensures
            r.total_fees_collected == vault.total_fees,
            r.markets_with_fees == vault.collection_history@.len() as u32,
            r.markets_with_fees == 0 ==> r.average_fee_per_market == 0,
            r.markets_with_fees > 0 && vault.total_fees >= 0 ==> r.average_fee_per_market
                == (vault.total_fees as int) / (r.markets_with_fees as int),
            r.markets_with_fees > 0 && vault.total_fees < 0 ==> r.average_fee_per_market == -(
            (-(vault.total_fees as int)) / (r.markets_with_fees as int)),
            r.collection_history@ == vault.collection_history@,
    {
        let total_fees = FeeTracker::get_total_fees_collected(vault);
        let markets_with_fees = vault.collection_history.len() as u32;
        let average_fee = if markets_with_fees > 0 {
            total_fees / (markets_with_fees as i128)
        } else {
            0
        };
        let mut history: Vec<FeeCollection> = Vec::new();
        let mut i: usize = 0;
        while i < vault.collection_history.len()
            invariant
                0 <= i <= vault.collection_history@.len(),
                history@ == vault.collection_history@.take(i as int),
            decreases vault.collection_history@.len() - i,
        {
            history.push(vault.collection_history[i].duplicate());
            i = i + 1;
            assert(history@ =~= vault.collection_history@.take(i as int));
        }
        assert(vault.collection_history@.take(i as int) =~= vault.collection_history@);
        FeeAnalytics {
            total_fees_collected: total_fees,
            markets_with_fees,
            average_fee_per_market: average_fee,
            collection_history: history,
        }
    }
}

} // verus!
