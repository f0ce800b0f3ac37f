use predictify_hybrid::errors::Error;
use predictify_hybrid::fee_config::{FeeConfigManager, FeeConfigStore};
use soroban_sdk::Env;
use predictify_hybrid::fees::{
    FeeConfig, FeeManager, FEE_COLLECTION_THRESHOLD, MARKET_CREATION_FEE, MAX_FEE_AMOUNT,
    MIN_FEE_AMOUNT, PLATFORM_FEE_PERCENTAGE,
};

const ADMIN: u64 = 1;

fn test_fee_config() -> FeeConfig {
    FeeConfig {
        platform_fee_percentage: PLATFORM_FEE_PERCENTAGE,
        creation_fee: MARKET_CREATION_FEE,
        min_fee_amount: MIN_FEE_AMOUNT,
        max_fee_amount: MAX_FEE_AMOUNT,
        collection_threshold: FEE_COLLECTION_THRESHOLD,
        fees_enabled: true,
    }
}

fn raised_config() -> FeeConfig {
    FeeConfig {
        platform_fee_percentage: 250,
        creation_fee: 5_000_000,
        min_fee_amount: 500_000,
        max_fee_amount: 2_000_000_000,
        collection_threshold: 200_000_000,
        fees_enabled: true,
    }
}

fn setup() -> FeeConfigStore {
    let mut store = FeeConfigManager::new_store();
    FeeConfigManager::reset_to_defaults(&mut store).unwrap();
    store
}

#[test]
fn test_queue_update_stores_pending_config() {
    let mut store = setup();
    let now = 0;
    let eta = now + 86_400;
    let result =
        FeeConfigManager::queue_update(&mut store, Some(ADMIN), ADMIN, &raised_config(), eta, now);
    assert!(result.is_ok());
}

#[test]
fn test_apply_update_before_eta_fails() {
    let mut store = setup();
    let now = 0;
    let eta = now + 86_400;
    FeeConfigManager::queue_update(&mut store, Some(ADMIN), ADMIN, &test_fee_config(), eta, now)
        .unwrap();
    let result = FeeConfigManager::apply_update(&mut store, now);
    assert!(result.is_err());
    assert_eq!(result.unwrap_err(), Error::InvalidInput);
}

#[test]
fn test_apply_update_at_eta_succeeds() {
    let mut store = setup();
    let now = 0;
    let eta = now + 1;
    FeeConfigManager::queue_update(&mut store, Some(ADMIN), ADMIN, &raised_config(), eta, now)
        .unwrap();

    let result = FeeConfigManager::apply_update(&mut store, eta);
    assert!(result.is_ok());

    let active = FeeConfigManager::get_fee_config(&store).unwrap();
    assert_eq!(active.platform_fee_percentage, 250);
    assert_eq!(active.creation_fee, 5_000_000);

    let stale = FeeConfigManager::get_queued_fee_config(&store);
    assert!(stale.is_none());
}

#[test]
fn test_cancel_queued_update_removes_pending() {
    let mut store = setup();
    let now = 0;
    let eta = now + 86_400;
    FeeConfigManager::queue_update(&mut store, Some(ADMIN), ADMIN, &test_fee_config(), eta, now)
        .unwrap();
    let before = FeeConfigManager::get_queued_fee_config(&store);
    assert!(before.is_some());

    FeeConfigManager::cancel_queued_update(&mut store, Some(ADMIN), ADMIN).unwrap();

    let after = FeeConfigManager::get_queued_fee_config(&store);
    assert!(after.is_none());
}

#[test]
fn test_queue_update_with_past_eta_fails() {
    let mut store = setup();
    let now: u64 = 0;
    let past_eta = now.saturating_sub(1);
    let result = FeeConfigManager::queue_update(
        &mut store,
        Some(ADMIN),
        ADMIN,
        &test_fee_config(),
        past_eta,
        now,
    );
    assert!(result.is_err());
    assert_eq!(result.unwrap_err(), Error::InvalidInput);
}

#[test]
fn queue_update_by_stranger_is_unauthorized_and_leaves_store() {
    let mut store = setup();
    let result = FeeConfigManager::queue_update(&mut store, Some(ADMIN), 99, &raised_config(), 10, 0);
    assert_eq!(result, Err(Error::Unauthorized));
    assert!(FeeConfigManager::get_queued_fee_config(&store).is_none());
}

#[test]
fn apply_update_without_queue_is_config_not_found() {
    let mut store = setup();
    assert_eq!(FeeConfigManager::apply_update(&mut store, 100), Err(Error::ConfigNotFound));
}

#[test]
fn cancel_then_apply_fails() {
    let mut store = setup();
    FeeConfigManager::queue_update(&mut store, Some(ADMIN), ADMIN, &raised_config(), 10, 0).unwrap();
    FeeConfigManager::cancel_queued_update(&mut store, Some(ADMIN), ADMIN).unwrap();
    assert_eq!(FeeConfigManager::apply_update(&mut store, 10), Err(Error::ConfigNotFound));
    assert_eq!(
        FeeConfigManager::get_fee_config(&store).unwrap().platform_fee_percentage,
        PLATFORM_FEE_PERCENTAGE
    );
}

#[test]
fn empty_store_reports_default_config() {
    let store = FeeConfigManager::new_store();
    let cfg = FeeConfigManager::get_fee_config(&store).unwrap();
    assert_eq!(cfg, FeeConfigManager::default_config());
    assert_eq!(cfg.platform_fee_percentage, 200);
    assert_eq!(FeeManager::get_fee_percentage_for_timestamp(&store, 12345), 200);
}

const ABC_SHA256: [u8; 32] = [
    0xba, 0x78, 0x16, 0xbf, 0x8f, 0x01, 0xcf, 0xea, 0x41, 0x41, 0x40, 0xde, 0x5d, 0xae, 0x22, 0x23,
    0xb0, 0x03, 0x61, 0xa3, 0x96, 0x17, 0x7a, 0x9c, 0xb4, 0x10, 0xff, 0x61, 0xf2, 0x00, 0x15, 0xad,
];

#[test]
fn reveal_accepts_the_committed_preimage_only() {
    let env = Env::default();
    let mut store = setup();
    FeeManager::commit_fee_config(&mut store, Some(ADMIN), ADMIN, ABC_SHA256, 10).unwrap();

    let early = FeeManager::update_fee_config(&mut store, Some(ADMIN), ADMIN, &env, raised_config(), &b"abc".to_vec(), 129, 5);
    assert_eq!(early, Err(Error::FeeRevealTooEarly));

    let wrong = FeeManager::update_fee_config(&mut store, Some(ADMIN), ADMIN, &env, raised_config(), &b"abd".to_vec(), 130, 5);
    assert_eq!(wrong, Err(Error::FeePreimageMismatch));

    let ok = FeeManager::update_fee_config(&mut store, Some(ADMIN), ADMIN, &env, raised_config(), &b"abc".to_vec(), 130, 5);
    assert_eq!(ok, Ok(raised_config()));
    assert_eq!(FeeConfigManager::get_fee_config(&store).unwrap().platform_fee_percentage, 250);

    let replay = FeeManager::update_fee_config(&mut store, Some(ADMIN), ADMIN, &env, raised_config(), &b"abc".to_vec(), 131, 6);
    assert_eq!(replay, Err(Error::NoPendingFeeCommit));
}

#[test]
fn revealed_config_keeps_old_rate_for_past_bets() {
    let env = Env::default();
    let mut store = setup();
    FeeManager::commit_fee_config(&mut store, Some(ADMIN), ADMIN, ABC_SHA256, 0).unwrap();
    FeeManager::update_fee_config(&mut store, Some(ADMIN), ADMIN, &env, raised_config(), &b"abc".to_vec(), 200, 1_000).unwrap();
    assert_eq!(FeeManager::get_fee_percentage_for_timestamp(&store, 999), 200);
    assert_eq!(FeeManager::get_fee_percentage_for_timestamp(&store, 1_000), 250);
    assert_eq!(FeeManager::get_fee_config_for_timestamp(&store, 10), test_fee_config());
}

#[test]
fn commit_by_stranger_is_unauthorized() {
    let mut store = setup();
    assert_eq!(
        FeeManager::commit_fee_config(&mut store, Some(ADMIN), 5, ABC_SHA256, 0),
        Err(Error::Unauthorized)
    );
}

#[test]
fn reveal_by_stranger_is_unauthorized() {
    let env = Env::default();
    let mut store = setup();
    FeeManager::commit_fee_config(&mut store, Some(ADMIN), ADMIN, ABC_SHA256, 0).unwrap();
    let r = FeeManager::update_fee_config(&mut store, Some(ADMIN), 9, &env, raised_config(), &b"abc".to_vec(), 500, 1);
    assert_eq!(r, Err(Error::Unauthorized));
    assert_eq!(FeeConfigManager::get_fee_config(&store).unwrap().platform_fee_percentage, 200);
    let ok = FeeManager::update_fee_config(&mut store, Some(ADMIN), ADMIN, &env, raised_config(), &b"abc".to_vec(), 500, 1);
    assert_eq!(ok, Ok(raised_config()));
}
