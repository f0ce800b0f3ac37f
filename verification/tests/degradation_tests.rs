use predictify_hybrid::errors::Error;
use predictify_hybrid::graceful_degradation::{
    degradation_key, fallback_oracle_call, get_degradation_status, handle_oracle_timeout,
    monitor_oracle_health, partial_resolution_mechanism, record_oracle_health,
    validate_degradation_strategy, DegradationStorageKey, DegradationStrategy, OracleBackup,
    OracleDegradationState, OracleHealth, OracleProvider, PartialData,
};

/// Records a sample and keeps the stored state, as the contract's storage does.
fn record_sample(state: &mut Option<OracleDegradationState>, working: bool) -> bool {
    let sample = if working { OracleHealth::Working } else { OracleHealth::Degraded };
    let reason = if working { "ok" } else { "fail" }.to_string();
    let (next, transition) = record_oracle_health(state, sample, reason, 0);
    *state = Some(next);
    transition.is_some()
}

fn stored_health(state: &Option<OracleDegradationState>) -> OracleHealth {
    state.as_ref().map(|s| s.health).unwrap_or(OracleHealth::Working)
}

#[test]
fn can_create_backup() {
    let backup = OracleBackup::new(OracleProvider::reflector(), OracleProvider::pyth());
    assert_eq!(backup.primary, OracleProvider::reflector());
    assert_eq!(backup.backup, OracleProvider::pyth());
}

#[test]
fn can_check_health() {
    let (health, _, _) = monitor_oracle_health(OracleProvider::reflector(), &None, 0);
    assert!(matches!(health, OracleHealth::Working | OracleHealth::Broken));
}

#[test]
fn strategy_works() {
    let result = validate_degradation_strategy(DegradationStrategy::UseBackup);
    assert!(result.is_ok());
}

#[test]
fn partial_data_works() {
    let data = PartialData { price: Some(100), confidence: 80, timestamp: 0 };
    let result = partial_resolution_mechanism(&data);
    assert!(result.is_ok());
}

#[test]
fn test_is_working_propagates_error_and_emits_event() {
    let backup = OracleBackup::new(OracleProvider::pyth(), OracleProvider::dia());
    let result = backup.is_working();
    assert!(result.is_err());
}

#[test]
fn test_oracle_fallback_both_oracles_down_returns_typed_error() {
    let backup = OracleBackup::new(OracleProvider::reflector(), OracleProvider::pyth());
    let lookup = backup.get_price();
    assert_eq!(lookup.result, Err(Error::FallbackOracleUnavailable));
    assert!(!lookup.primary_ok);
    assert!(lookup.backup_failed);
}

#[test]
fn hysteresis_single_bad_sample_does_not_transition() {
    let mut state = None;
    assert_eq!(stored_health(&state), OracleHealth::Working);
    record_sample(&mut state, false);
    assert_eq!(stored_health(&state), OracleHealth::Working);
    record_sample(&mut state, false);
    assert_eq!(stored_health(&state), OracleHealth::Working);
}

#[test]
fn hysteresis_three_consecutive_bad_triggers_degraded() {
    let mut state = None;
    record_sample(&mut state, false);
    record_sample(&mut state, false);
    record_sample(&mut state, false);
    assert_eq!(stored_health(&state), OracleHealth::Degraded);
    assert_eq!(state.as_ref().unwrap().consecutive_failures, 3);
}

#[test]
fn hysteresis_good_sample_resets_bad_counter() {
    let mut state = None;
    record_sample(&mut state, false);
    record_sample(&mut state, false);
    record_sample(&mut state, true);
    assert_eq!(stored_health(&state), OracleHealth::Working);
    let s = state.as_ref().unwrap();
    assert_eq!(s.consecutive_failures, 0);
    assert_eq!(s.consecutive_good, 1);
}

#[test]
fn hysteresis_recovery_requires_three_consecutive_good() {
    let mut state = None;
    record_sample(&mut state, false);
    record_sample(&mut state, false);
    record_sample(&mut state, false);
    assert_eq!(stored_health(&state), OracleHealth::Degraded);

    record_sample(&mut state, true);
    assert_eq!(stored_health(&state), OracleHealth::Degraded);
    record_sample(&mut state, true);
    assert_eq!(stored_health(&state), OracleHealth::Degraded);
    record_sample(&mut state, true);
    assert_eq!(stored_health(&state), OracleHealth::Working);
}

#[test]
fn hysteresis_event_emitted_only_on_state_transition() {
    let mut state = None;
    assert!(!record_sample(&mut state, false));
    assert!(!record_sample(&mut state, false));
    assert_eq!(stored_health(&state), OracleHealth::Working);
    assert!(record_sample(&mut state, false));
    assert_eq!(stored_health(&state), OracleHealth::Degraded);
}

#[test]
fn hysteresis_no_event_on_noop_transition() {
    let mut state = None;
    record_sample(&mut state, false);
    record_sample(&mut state, false);
    record_sample(&mut state, false);
    assert_eq!(stored_health(&state), OracleHealth::Degraded);

    assert!(!record_sample(&mut state, false));
    assert_eq!(stored_health(&state), OracleHealth::Degraded);
    assert_eq!(state.as_ref().unwrap().consecutive_failures, 4);
}

#[test]
fn hysteresis_get_degradation_status_uses_hysteresis() {
    let oracle = OracleProvider::reflector();
    let mut state: Option<OracleDegradationState> = None;

    let (health, next, _) = get_degradation_status(oracle, &state, 1);
    state = Some(next);
    assert_eq!(health, OracleHealth::Working);

    let (health, next, _) = get_degradation_status(oracle, &state, 2);
    state = Some(next);
    assert_eq!(health, OracleHealth::Working);

    let (health, _, _) = get_degradation_status(oracle, &state, 3);
    assert_eq!(health, OracleHealth::Degraded);
}

#[test]
fn timeout_above_threshold_records_bad_sample() {
    let short = handle_oracle_timeout(&None, 60, 5);
    assert!(short.is_none());
    let (state, transition) = handle_oracle_timeout(&None, 61, 5).unwrap();
    assert_eq!(state.consecutive_timeouts, 1);
    assert_eq!(state.consecutive_failures, 0);
    assert_eq!(state.health, OracleHealth::Working);
    assert_eq!(state.last_reason, "Oracle timeout");
    assert_eq!(state.updated_at, 5);
    assert!(transition.is_none());
}

#[test]
fn transition_reports_previous_and_new_health() {
    let mut state = None;
    record_sample(&mut state, false);
    record_sample(&mut state, false);
    let (_, transition) =
        record_oracle_health(&state, OracleHealth::Broken, "down".to_string(), 9);
    let t = transition.unwrap();
    assert!(t.was_working);
    assert!(!t.is_working);
    assert_eq!(t.consecutive_failures, 3);
}

#[test]
fn partial_data_below_confidence_needs_manual_resolution() {
    let low = PartialData { price: Some(100), confidence: 69, timestamp: 0 };
    assert_eq!(partial_resolution_mechanism(&low), Err(Error::OracleUnavailable));
    let no_price = PartialData { price: None, confidence: 99, timestamp: 0 };
    assert_eq!(partial_resolution_mechanism(&no_price), Err(Error::OracleUnavailable));
    let ok = PartialData { price: Some(1), confidence: 70, timestamp: 0 };
    assert_eq!(partial_resolution_mechanism(&ok).unwrap(), "resolved");
}

#[test]
fn fallback_call_and_key_and_provider_names() {
    let lookup = fallback_oracle_call(OracleProvider::dia(), OracleProvider::band_protocol());
    assert_eq!(lookup.result, Err(Error::FallbackOracleUnavailable));
    assert_eq!(
        degradation_key(&OracleProvider::pyth()),
        DegradationStorageKey::OracleHealth(OracleProvider::pyth())
    );
    assert_eq!(OracleProvider::reflector().as_str(), "reflector");
    assert_eq!(OracleProvider::band_protocol().as_str(), "band_protocol");
}

#[test]
fn hysteresis_timeout_requires_three_calls_to_degrade() {
    let oracle = OracleProvider::reflector();
    let mut state: Option<OracleDegradationState> = None;

    let (next, _) = handle_oracle_timeout(&state, 61, 1).unwrap();
    state = Some(next);
    let (health, next, _) = get_degradation_status(oracle, &state, 1);
    state = Some(next);
    assert_eq!(health, OracleHealth::Working);

    let (next, _) = handle_oracle_timeout(&state, 61, 2).unwrap();
    state = Some(next);
    let (health, next, _) = get_degradation_status(oracle, &state, 2);
    state = Some(next);
    assert_eq!(health, OracleHealth::Working);

    let (next, _) = handle_oracle_timeout(&state, 61, 3).unwrap();
    state = Some(next);
    let (health, _, _) = get_degradation_status(oracle, &state, 3);
    assert_eq!(health, OracleHealth::Degraded);
}

#[test]
fn good_sample_ends_timeout_streak() {
    let mut state: Option<OracleDegradationState> = None;
    let (next, _) = handle_oracle_timeout(&state, 61, 1).unwrap();
    state = Some(next);
    let (next, _) = handle_oracle_timeout(&state, 61, 2).unwrap();
    state = Some(next);
    record_sample(&mut state, true);
    assert_eq!(state.as_ref().unwrap().consecutive_timeouts, 0);
    let (next, transition) = handle_oracle_timeout(&state, 61, 3).unwrap();
    assert_eq!(next.health, OracleHealth::Working);
    assert_eq!(next.consecutive_timeouts, 1);
    assert!(transition.is_none());
}
