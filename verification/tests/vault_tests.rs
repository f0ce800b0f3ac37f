use predictify_hybrid::errors::Error;
use predictify_hybrid::fee_vault::{
    FeeTracker, FeeVault, FeeWithdrawalManager, FeeWithdrawalSchedule, FeeWithdrawalStatus,
    DEFAULT_FEE_WITHDRAWAL_TIMELOCK_SECONDS,
};

const ADMIN: u64 = 1;

fn vault_with(total: i128) -> FeeVault {
    FeeVault {
        collection_history: Vec::new(),
        total_fees: total,
        creation_fees: 0,
        last_withdrawal_ts: 0,
        schedule: None,
    }
}

#[test]
fn first_withdrawal_takes_everything_by_default() {
    let mut vault = vault_with(1_000);
    let a = FeeWithdrawalManager::withdraw_fees(&mut vault, 0, 50).unwrap();
    assert_eq!(a.withdrawal_amount, 1_000);
    assert_eq!(a.status, FeeWithdrawalStatus::Executed);
    assert_eq!(a.next_allowed_ts, 50 + DEFAULT_FEE_WITHDRAWAL_TIMELOCK_SECONDS);
    assert_eq!(vault.total_fees, 0);
    assert_eq!(FeeWithdrawalManager::get_last_withdrawal_ts(&vault), 50);
}

#[test]
fn timelock_blocks_until_next_allowed() {
    let mut vault = vault_with(1_000);
    FeeWithdrawalManager::withdraw_fees(&mut vault, 100, 10).unwrap();
    let early = FeeWithdrawalManager::withdraw_fees(&mut vault, 100, 10 + DEFAULT_FEE_WITHDRAWAL_TIMELOCK_SECONDS - 1)
        .unwrap();
    assert_eq!(early.status, FeeWithdrawalStatus::Timelocked);
    assert_eq!(early.withdrawal_amount, 0);
    assert_eq!(vault.total_fees, 900);
    let later = FeeWithdrawalManager::withdraw_fees(&mut vault, 100, 10 + DEFAULT_FEE_WITHDRAWAL_TIMELOCK_SECONDS)
        .unwrap();
    assert_eq!(later.withdrawal_amount, 100);
    assert_eq!(vault.total_fees, 800);
}

#[test]
fn cap_limits_each_withdrawal() {
    let mut vault = vault_with(1_000);
    let schedule = FeeWithdrawalSchedule {
        timelock_seconds: DEFAULT_FEE_WITHDRAWAL_TIMELOCK_SECONDS,
        max_withdrawal_bps: 2_500,
    };
    FeeWithdrawalManager::set_schedule(&mut vault, Some(ADMIN), ADMIN, schedule).unwrap();
    let a = FeeWithdrawalManager::withdraw_fees(&mut vault, 0, 1).unwrap();
    assert_eq!(a.status, FeeWithdrawalStatus::Capped);
    assert_eq!(a.withdrawal_amount, 250);
    assert_eq!(vault.total_fees, 750);
}

#[test]
fn empty_vault_and_negative_request() {
    let mut vault = vault_with(0);
    let a = FeeWithdrawalManager::withdraw_fees(&mut vault, 5, 1).unwrap();
    assert_eq!(a.status, FeeWithdrawalStatus::NoFeesAvailable);
    assert_eq!(a.withdrawal_amount, 0);
    assert!(matches!(FeeWithdrawalManager::withdraw_fees(&mut vault, -1, 1), Err(Error::InvalidInput)));
}

#[test]
fn schedule_can_only_tighten() {
    let mut vault = vault_with(0);
    let strict = FeeWithdrawalSchedule {
        timelock_seconds: DEFAULT_FEE_WITHDRAWAL_TIMELOCK_SECONDS * 2,
        max_withdrawal_bps: 1_000,
    };
    assert_eq!(FeeWithdrawalManager::set_schedule(&mut vault, Some(ADMIN), ADMIN, strict), Ok(()));
    let looser = FeeWithdrawalSchedule {
        timelock_seconds: DEFAULT_FEE_WITHDRAWAL_TIMELOCK_SECONDS * 2,
        max_withdrawal_bps: 2_000,
    };
    assert_eq!(
        FeeWithdrawalManager::set_schedule(&mut vault, Some(ADMIN), ADMIN, looser),
        Err(Error::InvalidInput)
    );
    let short = FeeWithdrawalSchedule { timelock_seconds: 1, max_withdrawal_bps: 500 };
    assert_eq!(
        FeeWithdrawalManager::set_schedule(&mut vault, Some(ADMIN), ADMIN, short),
        Err(Error::InvalidInput)
    );
    assert_eq!(
        FeeWithdrawalManager::set_schedule(&mut vault, Some(ADMIN), 9, strict),
        Err(Error::Unauthorized)
    );
    assert_eq!(FeeWithdrawalManager::get_schedule(&vault), strict);
}

#[test]
fn tracker_records_collections_and_creation_fees() {
    let mut vault = vault_with(0);
    FeeTracker::record_fee_collection(&mut vault, "m1".to_string(), 40, ADMIN, 7, 200).unwrap();
    FeeTracker::record_creation_fee(&mut vault, 10).unwrap();
    assert_eq!(FeeTracker::get_total_fees_collected(&vault), 40);
    assert_eq!(FeeTracker::get_fee_history(&vault).len(), 1);
    assert_eq!(FeeTracker::get_fee_history(&vault)[0].market_id, "m1");
    assert_eq!(vault.creation_fees, 10);
}
