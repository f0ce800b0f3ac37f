use predictify_hybrid::errors::Error;
use predictify_hybrid::graceful_degradation::OracleProvider;
use predictify_hybrid::market::{Market, MarketState, OracleConfig, PredictifyHybrid};
use predictify_hybrid::resolution::{all_outcomes_known, ForceResolveLog};

const ADMIN: u64 = 1;

fn oracle_config() -> OracleConfig {
    OracleConfig {
        provider: OracleProvider::Reflector,
        oracle_address: 500,
        feed_id: "BTC/USD".to_string(),
        threshold: 2_500_000,
        comparison: "gt".to_string(),
    }
}

fn create_market(end_time: u64) -> Market {
    Market {
        admin: ADMIN,
        question: "Will BTC exceed $100k?".to_string(),
        outcomes: vec!["yes".to_string(), "no".to_string()],
        end_time,
        bet_deadline: 0,
        oracle_config: oracle_config(),
        fallback_oracle_config: None,
        resolution_timeout: 3_600,
        oracle_result: None,
        votes: Vec::new(),
        total_staked: 0,
        claimed: Vec::new(),
        winning_outcomes: None,
        fee_collected: false,
        state: MarketState::Active,
        dispute_window_seconds: 86_400,
        winnings_swept: false,
        category: None,
        tags: Vec::new(),
    }
}

fn outcomes(vals: &[&str]) -> Vec<String> {
    vals.iter().map(|s| s.to_string()).collect()
}

fn force(
    log: &mut ForceResolveLog,
    market: Option<Market>,
    admin: u64,
    market_id: &str,
    winners: &[&str],
    reason: &str,
    key: &str,
) -> Result<Market, Error> {
    PredictifyHybrid::force_resolve_market(
        log,
        market,
        Some(ADMIN),
        admin,
        market_id.to_string(),
        outcomes(winners),
        &reason.to_string(),
        key.to_string(),
    )
}

#[test]
fn test_force_resolve_active_market() {
    let mut log = ForceResolveLog::new();
    let result = force(&mut log, Some(create_market(30 * 86_400)), ADMIN, "m1", &["yes"], "Emergency", "key-001");
    assert!(result.is_ok());
    let market = result.unwrap();
    assert_eq!(market.state, MarketState::Resolved);
    assert_eq!(market.winning_outcomes, Some(outcomes(&["yes"])));
}

#[test]
fn test_force_resolve_before_end_time_succeeds() {
    let mut log = ForceResolveLog::new();
    let result = force(
        &mut log,
        Some(create_market(30 * 86_400)),
        ADMIN,
        "m1",
        &["yes"],
        "Force resolve before end time",
        "key-early",
    );
    assert_eq!(result.unwrap().state, MarketState::Resolved);
}

#[test]
fn test_force_resolve_ended_market() {
    let mut log = ForceResolveLog::new();
    let result = force(&mut log, Some(create_market(0)), ADMIN, "m1", &["no"], "Ended market resolve", "ended-key");
    assert_eq!(result.unwrap().state, MarketState::Resolved);
}

#[test]
fn test_force_resolve_invalid_outcome() {
    let mut log = ForceResolveLog::new();
    let result = force(&mut log, Some(create_market(100)), ADMIN, "m1", &["maybe"], "Invalid", "key-io");
    assert!(matches!(result, Err(Error::InvalidOutcome)));
}

#[test]
fn test_force_resolve_empty_outcomes() {
    let mut log = ForceResolveLog::new();
    let result = force(&mut log, Some(create_market(100)), ADMIN, "m1", &[], "Empty outcomes", "key-empty");
    assert!(matches!(result, Err(Error::InvalidInput)));
}

#[test]
fn test_force_resolve_empty_reason() {
    let mut log = ForceResolveLog::new();
    let result = force(&mut log, Some(create_market(100)), ADMIN, "m1", &["yes"], "", "key-reason");
    assert!(matches!(result, Err(Error::ForceResolveReasonEmpty)));
}

#[test]
fn test_force_resolve_market_not_found() {
    let mut log = ForceResolveLog::new();
    let result = force(&mut log, None, ADMIN, "nonexistent", &["yes"], "Not found", "key-nf");
    assert!(matches!(result, Err(Error::MarketNotFound)));
}

#[test]
fn test_force_resolve_idempotency_key_replay() {
    let mut log = ForceResolveLog::new();
    let first = force(&mut log, Some(create_market(100)), ADMIN, "m1", &["yes"], "First", "idem-key").unwrap();

    let result = force(&mut log, Some(first), ADMIN, "m1", &["no"], "Replay", "idem-key");
    assert!(matches!(result, Err(Error::ForceResolveReplayed)));
    assert!(log.is_already_resolved(&"m1".to_string(), &"idem-key".to_string()));
}

#[test]
fn test_force_resolve_different_keys_same_market() {
    let mut log = ForceResolveLog::new();
    let first = force(&mut log, Some(create_market(100)), ADMIN, "m1", &["yes"], "First", "key-a").unwrap();
    let second = force(&mut log, Some(first), ADMIN, "m1", &["no"], "Second", "key-b").unwrap();
    assert_eq!(second.winning_outcomes, Some(outcomes(&["no"])));
}

#[test]
fn test_force_resolve_same_key_different_market() {
    let mut log = ForceResolveLog::new();
    let a = force(&mut log, Some(create_market(100)), ADMIN, "market_a", &["yes"], "Market A", "shared-key").unwrap();
    let b = force(&mut log, Some(create_market(100)), ADMIN, "market_b", &["no"], "Market B", "shared-key").unwrap();
    assert_eq!(a.state, MarketState::Resolved);
    assert_eq!(b.state, MarketState::Resolved);
}

#[test]
fn test_force_resolve_multiple_winning_outcomes() {
    let mut log = ForceResolveLog::new();
    let market = force(&mut log, Some(create_market(100)), ADMIN, "m1", &["yes", "no"], "Tie", "multi-key").unwrap();
    assert_eq!(market.state, MarketState::Resolved);
    assert_eq!(market.winning_outcomes, Some(outcomes(&["yes", "no"])));
}

#[test]
fn test_force_resolve_unauthorized() {
    let mut log = ForceResolveLog::new();
    let result = force(&mut log, Some(create_market(100)), 77, "m1", &["yes"], "Hack attempt", "key-unauth");
    assert!(matches!(result, Err(Error::Unauthorized)));
    assert!(!log.is_already_resolved(&"m1".to_string(), &"key-unauth".to_string()));
}

#[test]
fn resolve_with_ties_checks_in_order() {
    let market = create_market(100);
    assert!(matches!(
        PredictifyHybrid::resolve_market_with_ties(Some(create_market(100)), Some(ADMIN), 2, outcomes(&["yes"]), 200),
        Err(Error::Unauthorized)
    ));
    assert!(matches!(
        PredictifyHybrid::resolve_market_with_ties(Some(create_market(100)), Some(ADMIN), ADMIN, Vec::new(), 200),
        Err(Error::InvalidInput)
    ));
    assert!(matches!(
        PredictifyHybrid::resolve_market_with_ties(None, Some(ADMIN), ADMIN, outcomes(&["yes"]), 200),
        Err(Error::MarketNotFound)
    ));
    assert!(matches!(
        PredictifyHybrid::resolve_market_with_ties(Some(create_market(100)), Some(ADMIN), ADMIN, outcomes(&["yes"]), 99),
        Err(Error::MarketClosed)
    ));
    assert!(matches!(
        PredictifyHybrid::resolve_market_with_ties(Some(create_market(100)), Some(ADMIN), ADMIN, outcomes(&["yes", "x"]), 100),
        Err(Error::InvalidOutcome)
    ));
    let resolved =
        PredictifyHybrid::resolve_market_with_ties(Some(market), Some(ADMIN), ADMIN, outcomes(&["no", "yes"]), 100).unwrap();
    assert_eq!(resolved.state, MarketState::Resolved);
    assert_eq!(resolved.winning_outcomes, Some(outcomes(&["no", "yes"])));
    assert_eq!(resolved.end_time, 100);
}

#[test]
fn manual_resolution_sets_single_winner() {
    let resolved =
        PredictifyHybrid::resolve_market_manual(Some(create_market(5)), Some(ADMIN), ADMIN, "no".to_string(), 5).unwrap();
    assert_eq!(resolved.winning_outcomes, Some(outcomes(&["no"])));
    assert!(matches!(
        PredictifyHybrid::resolve_market_manual(Some(create_market(5)), None, ADMIN, "no".to_string(), 5),
        Err(Error::Unauthorized)
    ));
    assert!(all_outcomes_known(&outcomes(&["yes", "no"]), &outcomes(&["no"])));
    assert!(!all_outcomes_known(&outcomes(&["yes"]), &outcomes(&["no"])));
}
