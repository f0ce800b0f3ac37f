use predictify_hybrid::errors::Error;
use predictify_hybrid::gas::{BudgetGuard, GasLimits, GasTracker, GasUsage, GAS_TRACKING_WINDOW_SIZE};

fn fresh_usage() -> GasUsage {
    GasUsage { cpu: 0, mem: 0, cpu_history: Vec::new(), history_index: 0, history_count: 0 }
}

#[test]
fn test_budget_guard_aborts_at_low_threshold() {
    let guard = BudgetGuard::new(0, 0);
    assert!(guard.threshold() == 0);
    assert_eq!(guard.check(0), Err(Error::OperationWouldExceedBudget));
}

#[test]
fn test_budget_guard_consumed_is_non_negative() {
    let start = GasTracker::start_tracking();
    let guard = BudgetGuard::new(start, 100_000);
    assert!(guard.consumed(start) == 0);
}

#[test]
fn budget_guard_counts_from_start() {
    let guard = BudgetGuard::new(1_000, 500);
    assert_eq!(guard.consumed(1_400), 400);
    assert_eq!(guard.consumed(10), 0);
    assert_eq!(guard.check(1_499), Ok(()));
    assert_eq!(guard.check(1_500), Err(Error::OperationWouldExceedBudget));
}

#[test]
fn end_tracking_enforces_limits() {
    let none = GasLimits { max_cpu: None, max_mem: None };
    assert_eq!(GasTracker::end_tracking(u64::MAX, u64::MAX, &none), Ok(()));
    let limits = GasLimits { max_cpu: Some(100), max_mem: Some(50) };
    assert_eq!(GasTracker::end_tracking(100, 50, &limits), Ok(()));
    assert_eq!(GasTracker::end_tracking(101, 0, &limits), Err(Error::GasBudgetExceeded));
    assert_eq!(GasTracker::end_tracking(0, 51, &limits), Err(Error::GasBudgetExceeded));
}

#[test]
fn alert_fires_once_per_crossing() {
    assert_eq!(GasTracker::record_with_alert(90, Some(100), false), (false, false));
    assert_eq!(GasTracker::record_with_alert(91, Some(100), false), (true, true));
    assert_eq!(GasTracker::record_with_alert(95, Some(100), true), (false, true));
    assert_eq!(GasTracker::record_with_alert(50, Some(100), true), (false, false));
    assert_eq!(GasTracker::record_with_alert(99, Some(100), false), (true, true));
    assert_eq!(GasTracker::record_with_alert(0, Some(100), false), (false, false));
    assert_eq!(GasTracker::record_with_alert(1_000, None, false), (false, false));
    assert_eq!(GasTracker::record_with_alert(1_000, Some(0), false), (false, false));
}

#[test]
fn moving_average_over_window() {
    let mut usage = fresh_usage();
    assert_eq!(usage.calculate_moving_average(), 0);
    assert_eq!(usage.add_to_history(10), 10);
    assert_eq!(usage.add_to_history(20), 15);
    assert_eq!(usage.add_to_history(31), 20);
    assert_eq!(usage.cpu_history.len(), GAS_TRACKING_WINDOW_SIZE as usize);
    for _ in 0..GAS_TRACKING_WINDOW_SIZE {
        usage.add_to_history(7);
    }
    assert_eq!(usage.history_count, GAS_TRACKING_WINDOW_SIZE);
    assert_eq!(usage.calculate_moving_average(), 7);
}
