use predictify_hybrid::errors::Error;
use predictify_hybrid::fee_collection::FeeAnalytics;
use predictify_hybrid::fee_config::FeeConfigManager;
use predictify_hybrid::fee_vault::{FeeTracker, FeeVault};
use predictify_hybrid::fees::{
    FeeCalculator, FeeConfig, FeeManager, FeeUtils, FeeValidator, MarketSizeTier,
    FEE_COLLECTION_THRESHOLD, MARKET_CREATION_FEE, MAX_FEE_AMOUNT, MIN_FEE_AMOUNT,
    PLATFORM_FEE_PERCENTAGE,
};
use predictify_hybrid::graceful_degradation::OracleProvider;
use predictify_hybrid::market::{Market, MarketState, OracleConfig};

fn oracle_config() -> OracleConfig {
    OracleConfig {
        provider: OracleProvider::Reflector,
        oracle_address: 500,
        feed_id: "BTC/USD".to_string(),
        threshold: 2_500_000,
        comparison: "gt".to_string(),
    }
}

fn market_with(total_staked: i128, resolved: bool) -> Market {
    Market {
        admin: 1,
        question: "Test Market".to_string(),
        outcomes: vec!["yes".to_string(), "no".to_string()],
        end_time: 86_400,
        bet_deadline: 0,
        oracle_config: oracle_config(),
        fallback_oracle_config: None,
        resolution_timeout: 86_400,
        oracle_result: None,
        votes: Vec::new(),
        total_staked,
        claimed: Vec::new(),
        winning_outcomes: if resolved { Some(vec!["yes".to_string()]) } else { None },
        fee_collected: false,
        state: if resolved { MarketState::Resolved } else { MarketState::Active },
        dispute_window_seconds: 86_400,
        winnings_swept: false,
        category: None,
        tags: Vec::new(),
    }
}

fn empty_vault() -> FeeVault {
    FeeVault {
        collection_history: Vec::new(),
        total_fees: 0,
        creation_fees: 0,
        last_withdrawal_ts: 0,
        schedule: None,
    }
}

fn default_config() -> FeeConfig {
    FeeConfig {
        platform_fee_percentage: PLATFORM_FEE_PERCENTAGE,
        creation_fee: MARKET_CREATION_FEE,
        min_fee_amount: MIN_FEE_AMOUNT,
        max_fee_amount: MAX_FEE_AMOUNT,
        collection_threshold: FEE_COLLECTION_THRESHOLD,
        fees_enabled: true,
    }
}

#[test]
fn test_calculate_platform_fee_rejects_zero_pool() {
    let market = market_with(0, true);
    let result = FeeCalculator::calculate_platform_fee(&market);
    assert_eq!(result, Err(Error::InvalidFeeConfig));
}

#[test]
fn test_checked_bps_floor_rounds_down_for_one_basis_point() {
    let result = FeeCalculator::checked_bps_floor(10_001, 1).unwrap();
    assert_eq!(result, 1);
}

#[test]
fn test_calculate_platform_fee_errors_on_overflow_adjacent_pool() {
    let market = market_with(i128::MAX, true);
    let result = FeeCalculator::calculate_platform_fee(&market);
    assert_eq!(result, Err(Error::FeeArithmeticOverflow));
}

#[test]
fn test_fee_breakdown_reconciles_after_floor_rounding() {
    let market = market_with(50_000_001, true);
    let breakdown = FeeCalculator::calculate_fee_breakdown(&market).unwrap();
    assert_eq!(breakdown.fee_amount, 1_000_000);
    assert_eq!(
        breakdown.platform_fee + breakdown.user_payout_amount,
        breakdown.total_staked
    );
}

#[test]
fn test_collect_fees_returns_overflow_error_without_mutation() {
    let mut vault = empty_vault();
    let mut market = market_with(i128::MAX, true);
    let result = FeeManager::collect_fees(
        &mut vault,
        &mut market,
        Some(7),
        7,
        "fee_overflow".to_string(),
        PLATFORM_FEE_PERCENTAGE,
        0,
    );
    assert_eq!(result, Err(Error::FeeArithmeticOverflow));
    assert_eq!(vault.total_fees, 0);
    assert!(!market.fee_collected);
}

#[test]
fn test_record_fee_collection_errors_on_total_overflow() {
    let mut vault = empty_vault();
    vault.total_fees = i128::MAX;
    let result = FeeTracker::record_fee_collection(
        &mut vault,
        "fee_sum".to_string(),
        1,
        7,
        0,
        PLATFORM_FEE_PERCENTAGE,
    );
    assert_eq!(result, Err(Error::FeeArithmeticOverflow));
}

#[test]
fn test_fee_calculator_platform_fee() {
    let market = market_with(1_000_000_000, false);
    let fee = FeeCalculator::calculate_platform_fee(&market).unwrap();
    assert_eq!(fee, 20_000_000);
}

#[test]
fn test_fee_validator_admin_permissions() {
    let admin = 42;
    assert!(FeeValidator::validate_admin_permissions(Some(admin), admin).is_ok());
    let invalid_admin = 43;
    assert!(FeeValidator::validate_admin_permissions(Some(admin), invalid_admin).is_err());
}

#[test]
fn test_fee_validator_fee_amount() {
    assert!(FeeValidator::validate_fee_amount(MIN_FEE_AMOUNT).is_ok());
    assert!(FeeValidator::validate_fee_amount(MIN_FEE_AMOUNT - 1).is_err());
    assert!(FeeValidator::validate_fee_amount(MAX_FEE_AMOUNT + 1).is_err());
}

#[test]
fn test_fee_utils_can_collect_fees() {
    let mut market = market_with(0, false);
    assert!(!FeeUtils::can_collect_fees(&market));

    market.winning_outcomes = Some(vec!["yes".to_string()]);

    market.total_staked = FEE_COLLECTION_THRESHOLD - 1;
    assert!(!FeeUtils::can_collect_fees(&market));

    market.total_staked = FEE_COLLECTION_THRESHOLD;
    assert!(FeeUtils::can_collect_fees(&market));

    market.fee_collected = true;
    assert!(!FeeUtils::can_collect_fees(&market));
}

#[test]
fn test_fee_config_manager() {
    let mut store = FeeConfigManager::new_store();
    let config = default_config();
    FeeConfigManager::store_fee_config(&mut store, &config).unwrap();
    let retrieved_config = FeeConfigManager::get_fee_config(&store).unwrap();
    assert_eq!(config, retrieved_config);
}

#[test]
fn test_fee_analytics_calculation() {
    let vault = empty_vault();
    let analytics = FeeAnalytics::calculate_analytics(&vault);
    assert_eq!(analytics.total_fees_collected, 0);
    assert_eq!(analytics.markets_with_fees, 0);
    assert_eq!(analytics.average_fee_per_market, 0);
}

#[test]
fn test_dynamic_fee_tier_calculation() {
    let small_tier = FeeCalculator::get_fee_tier_by_market_size(50_000_000).unwrap();
    assert_eq!(small_tier.fee_percentage, 100);
    assert_eq!(small_tier.tier_name, MarketSizeTier::Micro);

    let medium_tier = FeeCalculator::get_fee_tier_by_market_size(500_000_000).unwrap();
    assert_eq!(medium_tier.fee_percentage, 150);
    assert_eq!(medium_tier.tier_name, MarketSizeTier::Small);

    let large_tier = FeeCalculator::get_fee_tier_by_market_size(5_000_000_000).unwrap();
    assert_eq!(large_tier.fee_percentage, 200);
    assert_eq!(large_tier.tier_name, MarketSizeTier::Medium);
}

#[test]
fn test_fee_basis_points_calculation() {
    let market = market_with(1_000_000_000, false);
    let fee = FeeCalculator::calculate_platform_fee(&market).unwrap();
    assert_eq!(fee, 20_000_000);
    let expected = (market.total_staked * 200) / 10000;
    assert_eq!(fee, expected);
}

#[test]
fn fee_structure_tiers_must_lie_in_bounds() {
    assert_eq!(FeeManager::update_fee_structure(Some(1), 1, &vec![(0, 10), (1, 500)]), Ok(()));
    assert_eq!(FeeManager::update_fee_structure(Some(1), 1, &vec![(0, 9)]), Err(Error::InvalidInput));
    assert_eq!(FeeManager::update_fee_structure(Some(1), 1, &vec![(0, 100), (2, 501)]), Err(Error::InvalidInput));
    assert_eq!(FeeManager::update_fee_structure(Some(1), 2, &vec![]), Err(Error::Unauthorized));
}

#[test]
fn platform_fee_errors_and_values() {
    assert_eq!(FeeCalculator::calculate_platform_fee(&market_with(1_000_000, true)), Err(Error::InsufficientStake));
    assert_eq!(FeeCalculator::calculate_platform_fee(&market_with(-5, true)), Err(Error::InvalidFeeConfig));
    assert_eq!(FeeCalculator::checked_fee_add(i128::MAX, 1), Err(Error::FeeArithmeticOverflow));
    assert_eq!(FeeCalculator::checked_fee_add(2, 3), Ok(5));
    assert_eq!(FeeCalculator::checked_fee_sub(i128::MIN, 1), Err(Error::FeeArithmeticOverflow));
    assert_eq!(FeeCalculator::checked_mul_div_floor(7, 3, 2), Ok(10));
    assert_eq!(FeeCalculator::checked_mul_div_floor(7, 3, 0), Err(Error::InvalidFeeConfig));
    assert_eq!(FeeCalculator::checked_mul_div_floor(-7, 3, 2), Err(Error::InvalidFeeConfig));
}

#[test]
fn collect_fees_records_collection_once() {
    let mut vault = empty_vault();
    let mut market = market_with(1_000_000_000, true);
    let fee = FeeManager::collect_fees(&mut vault, &mut market, Some(7), 7, "m".to_string(), 200, 9).unwrap();
    assert_eq!(fee, 20_000_000);
    assert!(market.fee_collected);
    assert_eq!(vault.total_fees, 20_000_000);
    assert_eq!(vault.collection_history.len(), 1);
    let again = FeeManager::collect_fees(&mut vault, &mut market, Some(7), 7, "m".to_string(), 200, 10);
    assert_eq!(again, Ok(0));
    assert_eq!(vault.total_fees, 20_000_000);
    let mut open = market_with(1_000_000_000, false);
    assert_eq!(
        FeeManager::collect_fees(&mut vault, &mut open, Some(7), 7, "o".to_string(), 200, 10),
        Err(Error::MarketNotResolved)
    );
    let mut small = market_with(10, true);
    assert_eq!(
        FeeManager::collect_fees(&mut vault, &mut small, Some(7), 7, "s".to_string(), 200, 10),
        Err(Error::InsufficientStake)
    );
    assert_eq!(
        FeeManager::collect_fees(&mut vault, &mut small, Some(7), 8, "s".to_string(), 200, 10),
        Err(Error::Unauthorized)
    );
}

#[test]
fn breakdown_uses_rate_in_force_at_earliest_bet() {
    let store = FeeConfigManager::new_store();
    let market = market_with(1_000_000_000, true);
    let b = FeeCalculator::calculate_fee_breakdown_with_env(&store, &market, &vec![50, 20], 100).unwrap();
    assert_eq!(b.fee_percentage, 200);
    assert_eq!(b.fee_amount, 20_000_000);
    assert_eq!(b.user_payout_amount, 980_000_000);
    assert_eq!(
        FeeCalculator::calculate_platform_fee_with_env(&store, &market, &vec![], 100),
        Ok(20_000_000)
    );
    assert_eq!(FeeCalculator::earliest_bet_timestamp(100, &vec![50, 20, 70]), 20);
    assert_eq!(FeeCalculator::earliest_bet_timestamp(10, &vec![50]), 10);
}

#[test]
fn dynamic_fee_and_payout_after_fees() {
    assert_eq!(FeeCalculator::calculate_dynamic_fee(&market_with(2_000_000_000, true)), Ok(32_000_000));
    assert_eq!(FeeCalculator::calculate_dynamic_fee(&market_with(200_000_000, true)), Ok(3_600_000));
    assert_eq!(FeeCalculator::calculate_user_payout_after_fees(100, 100, 200), Ok(196));
    assert_eq!(FeeCalculator::calculate_user_payout_after_fees(100, 0, 200), Err(Error::NothingToClaim));
}

#[test]
fn creation_fee_and_config_validation() {
    assert!(FeeValidator::validate_creation_fee(MARKET_CREATION_FEE).is_ok());
    assert!(FeeValidator::validate_creation_fee(MIN_FEE_AMOUNT - 1).is_err());
    assert!(FeeValidator::validate_fee_config(&default_config()).is_ok());
    let mut bad = default_config();
    bad.min_fee_amount = bad.max_fee_amount + 1;
    assert!(FeeValidator::validate_fee_config(&bad).is_err());
    let mut vault = empty_vault();
    assert_eq!(FeeManager::process_creation_fee(&mut vault, &default_config()), Ok(MARKET_CREATION_FEE));
    assert_eq!(vault.creation_fees, MARKET_CREATION_FEE);
    let mut off = default_config();
    off.fees_enabled = false;
    assert_eq!(FeeManager::process_creation_fee(&mut vault, &off), Ok(0));
}
