use predictify_hybrid::errors::Error;
use predictify_hybrid::fee_vault::FeeVault;
use predictify_hybrid::graceful_degradation::OracleProvider;
use predictify_hybrid::market::{Market, MarketState, OracleConfig, PredictifyHybrid};
use predictify_hybrid::resolution::{automatic_oracle_result_unavailable, fetch_oracle_precheck};

const ADMIN: u64 = 1;
const DAY: u64 = 86_400;

fn oracle_config(provider: OracleProvider, comparison: &str) -> OracleConfig {
    OracleConfig {
        provider,
        oracle_address: 500,
        feed_id: "BTC".to_string(),
        threshold: 10_000_000,
        comparison: comparison.to_string(),
    }
}

fn new_market(now: u64) -> Market {
    PredictifyHybrid::create_market(
        Some(ADMIN),
        ADMIN,
        "Will BTC exceed $100k?".to_string(),
        vec!["yes".to_string(), "no".to_string()],
        30,
        oracle_config(OracleProvider::Reflector, "gt"),
        None,
        3_600,
        None,
        None,
        now,
    )
    .unwrap()
}

#[test]
fn create_market_schedules_end_deadline_and_dispute_window() {
    let m = PredictifyHybrid::create_market(
        Some(ADMIN),
        ADMIN,
        "q".to_string(),
        vec!["yes".to_string(), "no".to_string()],
        2,
        oracle_config(OracleProvider::Reflector, "gt"),
        Some(oracle_config(OracleProvider::Pyth, "lt")),
        600,
        Some(30),
        None,
        1_000,
    )
    .unwrap();
    assert_eq!(m.end_time, 1_000 + 2 * DAY);
    assert_eq!(m.bet_deadline, 1_000 + 2 * DAY - 30 * 60);
    assert_eq!(m.dispute_window_seconds, 86_400);
    assert_eq!(m.state, MarketState::Active);
    assert_eq!(m.total_staked, 0);
    assert!(m.votes.is_empty());
    assert!(m.fallback_oracle_config.is_some());

    let far = PredictifyHybrid::create_market(
        Some(ADMIN),
        ADMIN,
        "q".to_string(),
        vec!["yes".to_string(), "no".to_string()],
        1,
        oracle_config(OracleProvider::Reflector, "gt"),
        None,
        600,
        Some(10_000_000),
        Some(7),
        5,
    )
    .unwrap();
    assert_eq!(far.bet_deadline, 0);
    assert_eq!(far.dispute_window_seconds, 7);
}

#[test]
fn create_market_rejects_stranger_and_zero_duration() {
    let stranger = PredictifyHybrid::create_market(
        Some(ADMIN),
        2,
        "q".to_string(),
        vec!["yes".to_string(), "no".to_string()],
        1,
        oracle_config(OracleProvider::Reflector, "gt"),
        None,
        0,
        None,
        None,
        0,
    );
    assert!(matches!(stranger, Err(Error::Unauthorized)));
    let zero = PredictifyHybrid::create_market(
        Some(ADMIN),
        ADMIN,
        "q".to_string(),
        vec!["yes".to_string(), "no".to_string()],
        0,
        oracle_config(OracleProvider::Reflector, "gt"),
        None,
        0,
        None,
        None,
        0,
    );
    assert!(matches!(zero, Err(Error::InvalidDuration)));
}

#[test]
fn vote_records_stake_once() {
    let m = new_market(0);
    let m = PredictifyHybrid::vote(Some(m), 7, "yes".to_string(), 250, 10).unwrap();
    assert_eq!(m.total_staked, 250);
    assert_eq!(m.votes.len(), 1);
    assert_eq!(m.votes[0].user, 7);
    let again = PredictifyHybrid::vote(Some(m), 7, "no".to_string(), 1, 11);
    assert!(matches!(again, Err(Error::AlreadyVoted)));
}

#[test]
fn vote_errors_in_order() {
    assert!(matches!(
        PredictifyHybrid::vote(None, 7, "yes".to_string(), 1, 0),
        Err(Error::MarketNotFound)
    ));
    let mut closed = new_market(0);
    closed.state = MarketState::Ended;
    assert!(matches!(
        PredictifyHybrid::vote(Some(closed), 7, "yes".to_string(), 1, 0),
        Err(Error::InvalidState)
    ));
    assert!(matches!(
        PredictifyHybrid::vote(Some(new_market(0)), 7, "yes".to_string(), 1, 30 * DAY),
        Err(Error::MarketClosed)
    ));
    let mut early = new_market(0);
    early.bet_deadline = 100;
    assert!(matches!(
        PredictifyHybrid::vote(Some(early), 7, "yes".to_string(), 1, 100),
        Err(Error::MarketClosed)
    ));
    assert!(matches!(
        PredictifyHybrid::vote(Some(new_market(0)), 7, "maybe".to_string(), 1, 5),
        Err(Error::InvalidOutcome)
    ));
}

#[test]
fn edits_require_unused_active_market() {
    let m = PredictifyHybrid::update_event_description(
        Some(new_market(0)),
        Some(ADMIN),
        ADMIN,
        "New question".to_string(),
        0,
    )
    .unwrap();
    assert_eq!(m.question, "New question");
    assert!(matches!(
        PredictifyHybrid::update_event_description(Some(new_market(0)), Some(ADMIN), ADMIN, String::new(), 0),
        Err(Error::InvalidQuestion)
    ));
    assert!(matches!(
        PredictifyHybrid::update_event_description(Some(new_market(0)), Some(ADMIN), ADMIN, "x".to_string(), 1),
        Err(Error::BetsAlreadyPlaced)
    ));
    let voted = PredictifyHybrid::vote(Some(new_market(0)), 3, "no".to_string(), 5, 1).unwrap();
    assert!(matches!(
        PredictifyHybrid::update_event_outcomes(
            Some(voted),
            Some(ADMIN),
            ADMIN,
            vec!["a".to_string(), "b".to_string()],
            0
        ),
        Err(Error::AlreadyVoted)
    ));
    assert!(matches!(
        PredictifyHybrid::update_event_outcomes(Some(new_market(0)), Some(ADMIN), ADMIN, vec!["a".to_string()], 0),
        Err(Error::InvalidOutcomes)
    ));
    assert!(matches!(
        PredictifyHybrid::update_event_outcomes(
            Some(new_market(0)),
            Some(ADMIN),
            ADMIN,
            vec!["a".to_string(), String::new()],
            0
        ),
        Err(Error::InvalidOutcome)
    ));
    let mut resolved = new_market(0);
    resolved.state = MarketState::Resolved;
    assert!(matches!(
        PredictifyHybrid::update_event_outcomes(
            Some(resolved),
            Some(ADMIN),
            ADMIN,
            vec!["a".to_string(), "b".to_string()],
            0
        ),
        Err(Error::MarketResolved)
    ));
    let m = PredictifyHybrid::update_event_outcomes(
        Some(new_market(0)),
        Some(ADMIN),
        ADMIN,
        vec!["up".to_string(), "down".to_string(), "flat".to_string()],
        0,
    )
    .unwrap();
    assert_eq!(m.outcomes.len(), 3);
}

#[test]
fn cancel_event_refunds_pool() {
    let m = PredictifyHybrid::vote(Some(new_market(0)), 3, "no".to_string(), 40, 1).unwrap();
    let (m, refunded) = PredictifyHybrid::cancel_event(Some(m), Some(ADMIN), ADMIN).unwrap();
    assert_eq!(refunded, 40);
    assert_eq!(m.state, MarketState::Cancelled);
    let (_, again) = PredictifyHybrid::cancel_event(Some(m), Some(ADMIN), ADMIN).unwrap();
    assert_eq!(again, 0);
    let mut resolved = new_market(0);
    resolved.state = MarketState::Resolved;
    assert!(matches!(
        PredictifyHybrid::cancel_event(Some(resolved), Some(ADMIN), ADMIN),
        Err(Error::MarketResolved)
    ));
    let mut disputed = new_market(0);
    disputed.state = MarketState::Disputed;
    assert!(matches!(
        PredictifyHybrid::cancel_event(Some(disputed), Some(ADMIN), ADMIN),
        Err(Error::InvalidState)
    ));
}

#[test]
fn refund_on_oracle_failure_needs_admin_or_timeout() {
    let m = PredictifyHybrid::vote(Some(new_market(0)), 3, "no".to_string(), 40, 1).unwrap();
    let end = m.end_time;
    assert!(matches!(
        PredictifyHybrid::refund_on_oracle_failure(Some(new_market(0)), Some(ADMIN), ADMIN, end - 1),
        Err(Error::MarketClosed)
    ));
    assert!(matches!(
        PredictifyHybrid::refund_on_oracle_failure(Some(new_market(0)), Some(ADMIN), 9, end),
        Err(Error::Unauthorized)
    ));
    let (m2, refunded) =
        PredictifyHybrid::refund_on_oracle_failure(Some(m), Some(ADMIN), 9, end + 3_600).unwrap();
    assert_eq!(refunded, 40);
    assert_eq!(m2.state, MarketState::Cancelled);
    let (_, admin_refund) =
        PredictifyHybrid::refund_on_oracle_failure(Some(new_market(0)), Some(ADMIN), ADMIN, end).unwrap();
    assert_eq!(admin_refund, 0);
}

#[test]
fn create_event_validates_inputs() {
    let e = PredictifyHybrid::create_event(
        Some(ADMIN),
        ADMIN,
        "Event".to_string(),
        vec!["a".to_string(), "b".to_string()],
        500,
        oracle_config(OracleProvider::Reflector, "gt"),
        None,
        60,
        "public",
        42,
    )
    .unwrap();
    assert_eq!(e.created_at, 42);
    assert_eq!(e.visibility, "public");
    assert!(e.allowlist.is_empty());
    assert_eq!(e.status, MarketState::Active);
    assert!(matches!(
        PredictifyHybrid::create_event(
            Some(ADMIN),
            ADMIN,
            "Event".to_string(),
            vec!["a".to_string()],
            500,
            oracle_config(OracleProvider::Reflector, "gt"),
            None,
            60,
            "public",
            42
        ),
        Err(Error::InvalidOutcomes)
    ));
    assert!(matches!(
        PredictifyHybrid::create_event(
            Some(ADMIN),
            ADMIN,
            String::new(),
            vec!["a".to_string(), "b".to_string()],
            500,
            oracle_config(OracleProvider::Reflector, "gt"),
            None,
            60,
            "public",
            42
        ),
        Err(Error::InvalidQuestion)
    ));
}

#[test]
fn platform_fee_bounds() {
    assert_eq!(PredictifyHybrid::set_platform_fee(Some(ADMIN), ADMIN, 1_000), Ok(1_000));
    assert_eq!(PredictifyHybrid::set_platform_fee(Some(ADMIN), ADMIN, 1_001), Err(Error::InvalidFeeConfig));
    assert_eq!(PredictifyHybrid::set_platform_fee(Some(ADMIN), ADMIN, -1), Err(Error::InvalidFeeConfig));
    assert_eq!(PredictifyHybrid::set_platform_fee(None, ADMIN, 5), Err(Error::Unauthorized));
}

#[test]
fn withdraw_collected_fees_caps_at_balance() {
    let mut vault = FeeVault {
        collection_history: Vec::new(),
        total_fees: 0,
        creation_fees: 0,
        last_withdrawal_ts: 0,
        schedule: None,
    };
    assert_eq!(
        PredictifyHybrid::withdraw_collected_fees(&mut vault, Some(ADMIN), ADMIN, 5),
        Err(Error::NoFeesToCollect)
    );
    vault.total_fees = 100;
    assert_eq!(PredictifyHybrid::withdraw_collected_fees(&mut vault, Some(ADMIN), ADMIN, 30), Ok(30));
    assert_eq!(vault.total_fees, 70);
    assert_eq!(PredictifyHybrid::withdraw_collected_fees(&mut vault, Some(ADMIN), ADMIN, 0), Ok(70));
    assert_eq!(vault.total_fees, 0);
    vault.total_fees = 10;
    assert_eq!(
        PredictifyHybrid::withdraw_collected_fees(&mut vault, Some(ADMIN), ADMIN, -i128::MAX),
        Err(Error::InvalidInput)
    );
    assert_eq!(vault.total_fees, 10);
}

#[test]
fn oracle_outcome_compares_with_threshold() {
    let gt = oracle_config(OracleProvider::Reflector, "gt");
    assert_eq!(automatic_oracle_result_unavailable(&gt, Ok(10_000_001)).unwrap(), "yes");
    assert_eq!(automatic_oracle_result_unavailable(&gt, Ok(10_000_000)).unwrap(), "no");
    let lt = oracle_config(OracleProvider::Reflector, "lt");
    assert_eq!(automatic_oracle_result_unavailable(&lt, Ok(9)).unwrap(), "yes");
    let eq = oracle_config(OracleProvider::Reflector, "eq");
    assert_eq!(automatic_oracle_result_unavailable(&eq, Ok(10_000_000)).unwrap(), "yes");
    let pyth = oracle_config(OracleProvider::Pyth, "gt");
    assert_eq!(automatic_oracle_result_unavailable(&pyth, Ok(1)), Err(Error::OracleUnavailable));
    assert_eq!(automatic_oracle_result_unavailable(&gt, Err(Error::InvalidInput)), Err(Error::InvalidInput));
}

#[test]
fn fetch_oracle_result_uses_fallback() {
    let m = new_market(0);
    let end = m.end_time;
    assert_eq!(fetch_oracle_precheck(&Some(new_market(0)), end - 1), Err(Error::MarketClosed));
    assert_eq!(fetch_oracle_precheck(&Some(new_market(0)), end + 3_600), Err(Error::ResolutionTimeoutReached));
    assert_eq!(fetch_oracle_precheck(&None, end), Err(Error::MarketNotFound));

    let (m1, o1) = PredictifyHybrid::fetch_oracle_result(Some(m), end, Ok(20_000_000), None).unwrap();
    assert_eq!(o1, "yes");
    assert_eq!(m1.oracle_result, Some("yes".to_string()));
    assert!(matches!(
        PredictifyHybrid::fetch_oracle_result(Some(m1), end, Ok(1), None),
        Err(Error::MarketResolved)
    ));

    let mut with_fb = new_market(0);
    with_fb.fallback_oracle_config = Some(oracle_config(OracleProvider::Reflector, "lt"));
    let (_, o2) = PredictifyHybrid::fetch_oracle_result(
        Some(with_fb),
        end,
        Err(Error::OracleUnavailable),
        Some(Ok(1)),
    )
    .unwrap();
    assert_eq!(o2, "yes");

    let mut both_down = new_market(0);
    both_down.fallback_oracle_config = Some(oracle_config(OracleProvider::Pyth, "lt"));
    assert!(matches!(
        PredictifyHybrid::fetch_oracle_result(Some(both_down), end, Err(Error::OracleUnavailable), Some(Ok(1))),
        Err(Error::FallbackOracleUnavailable)
    ));
    assert!(matches!(
        PredictifyHybrid::fetch_oracle_result(Some(new_market(0)), end, Err(Error::InvalidInput), None),
        Err(Error::InvalidInput)
    ));
}

#[test]
fn category_and_tags_follow_edit_rules() {
    let m = PredictifyHybrid::update_event_category(
        Some(new_market(0)),
        Some(ADMIN),
        ADMIN,
        Some("crypto".to_string()),
        0,
    )
    .unwrap();
    assert_eq!(m.category, Some("crypto".to_string()));
    let m = PredictifyHybrid::update_event_tags(
        Some(m),
        Some(ADMIN),
        ADMIN,
        vec!["btc".to_string(), "price".to_string()],
        0,
    )
    .unwrap();
    assert_eq!(m.tags.len(), 2);
    assert!(matches!(
        PredictifyHybrid::update_event_tags(Some(m), Some(ADMIN), 4, Vec::new(), 0),
        Err(Error::Unauthorized)
    ));
    assert!(matches!(
        PredictifyHybrid::update_event_category(None, Some(ADMIN), ADMIN, None, 0),
        Err(Error::MarketNotFound)
    ));
}

#[test]
fn admin_override_needs_reason_and_fresh_nonce() {
    let (m, nonce) = PredictifyHybrid::admin_override_verification(
        Some(new_market(0)),
        Some(ADMIN),
        ADMIN,
        "no".to_string(),
        &"oracle outage".to_string(),
        5,
        4,
    )
    .unwrap();
    assert_eq!(nonce, 5);
    assert_eq!(m.state, MarketState::Resolved);
    assert_eq!(m.oracle_result, Some("no".to_string()));
    assert!(matches!(
        PredictifyHybrid::admin_override_verification(
            Some(new_market(0)),
            Some(ADMIN),
            ADMIN,
            "no".to_string(),
            &"again".to_string(),
            5,
            5
        ),
        Err(Error::ReplayedOverride)
    ));
    assert!(matches!(
        PredictifyHybrid::admin_override_verification(
            Some(new_market(0)),
            Some(ADMIN),
            ADMIN,
            "no".to_string(),
            &String::new(),
            9,
            0
        ),
        Err(Error::InvalidInput)
    ));
}

#[test]
fn admin_settings_check_value_then_admin() {
    assert_eq!(PredictifyHybrid::set_governance_min_bet_bps(None, ADMIN, 10_001), Err(Error::InvalidInput));
    assert_eq!(PredictifyHybrid::set_governance_min_bet_bps(None, ADMIN, 500), Err(Error::AdminNotSet));
    assert_eq!(PredictifyHybrid::set_governance_min_bet_bps(Some(ADMIN), 2, 500), Err(Error::Unauthorized));
    assert_eq!(PredictifyHybrid::set_governance_min_bet_bps(Some(ADMIN), ADMIN, 500), Ok(500));
    assert_eq!(PredictifyHybrid::set_global_claim_period(Some(ADMIN), ADMIN, 0), Err(Error::InvalidInput));
    assert_eq!(PredictifyHybrid::set_global_claim_period(Some(ADMIN), ADMIN, 60), Ok(60));
    assert_eq!(
        PredictifyHybrid::set_market_claim_period(Some(ADMIN), ADMIN, false, 60),
        Err(Error::MarketNotFound)
    );
    assert_eq!(PredictifyHybrid::set_market_claim_period(Some(ADMIN), ADMIN, true, 60), Ok(60));
    assert_eq!(PredictifyHybrid::set_treasury(Some(ADMIN), ADMIN, 77), Ok(77));
    assert_eq!(PredictifyHybrid::set_treasury(None, ADMIN, 77), Err(Error::AdminNotSet));
    assert_eq!(PredictifyHybrid::set_oracle_confidence_threshold(10_000), Ok(10_000));
    assert_eq!(PredictifyHybrid::set_oracle_confidence_threshold(10_001), Err(Error::InvalidInput));
}

#[test]
fn dispute_fees_accumulate_without_overflow() {
    assert_eq!(PredictifyHybrid::accumulate_dispute_fee(10, 5), Ok(15));
    assert_eq!(PredictifyHybrid::accumulate_dispute_fee(10, -1), Err(Error::InvalidInput));
    assert_eq!(PredictifyHybrid::accumulate_dispute_fee(i128::MAX, 1), Err(Error::Overflow));
}

#[test]
fn backup_lookup_fails_when_no_provider_answers() {
    let m = new_market(0);
    let end = m.end_time;
    let some = Some(m);
    assert_eq!(
        PredictifyHybrid::get_oracle_with_backup(&some, end - 1, OracleProvider::Reflector, OracleProvider::Pyth),
        Err(Error::MarketClosed)
    );
    assert_eq!(
        PredictifyHybrid::get_oracle_with_backup(&some, end, OracleProvider::Reflector, OracleProvider::Pyth),
        Err(Error::FallbackOracleUnavailable)
    );
    assert_eq!(
        PredictifyHybrid::get_oracle_with_backup(&None, end, OracleProvider::Reflector, OracleProvider::Pyth),
        Err(Error::MarketNotFound)
    );
}

#[test]
fn oracle_status_words() {
    let (word, state, _) = PredictifyHybrid::check_oracle_status(OracleProvider::DIA, &None, 3);
    assert_eq!(word, "working");
    let (_, state, _) = PredictifyHybrid::check_oracle_status(OracleProvider::DIA, &Some(state), 4);
    let (word, _, transition) = PredictifyHybrid::check_oracle_status(OracleProvider::DIA, &Some(state), 5);
    assert_eq!(word, "degraded");
    assert!(transition.is_some());
}
