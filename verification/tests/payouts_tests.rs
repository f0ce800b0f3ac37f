use predictify_hybrid::errors::Error;
use predictify_hybrid::graceful_degradation::OracleProvider;
use predictify_hybrid::market::{Claim, Market, MarketState, OracleConfig, PredictifyHybrid, Vote};
use predictify_hybrid::payouts::{
    calculate_payout, contains_outcome, find_vote, is_claimed, Bet, BetStatus, ResolutionSummary,
};

const WINNER: u64 = 10;
const LOSER: u64 = 11;
const ADMIN: u64 = 1;

fn vote(user: u64, outcome: &str, stake: i128) -> Vote {
    Vote { user, outcome: outcome.to_string(), stake }
}

fn oracle_config() -> OracleConfig {
    OracleConfig {
        provider: OracleProvider::Reflector,
        oracle_address: 500,
        feed_id: "BTC/USD".to_string(),
        threshold: 2_500_000,
        comparison: "gt".to_string(),
    }
}

fn resolved_market() -> Market {
    Market {
        admin: ADMIN,
        question: "Will BTC hit $100k?".to_string(),
        outcomes: vec!["yes".to_string(), "no".to_string()],
        end_time: 0,
        bet_deadline: 0,
        oracle_config: oracle_config(),
        fallback_oracle_config: None,
        resolution_timeout: 3_600,
        oracle_result: None,
        votes: vec![vote(WINNER, "yes", 100_000_000), vote(LOSER, "no", 100_000_000)],
        total_staked: 200_000_000,
        claimed: Vec::new(),
        winning_outcomes: Some(vec!["yes".to_string()]),
        fee_collected: false,
        state: MarketState::Resolved,
        dispute_window_seconds: 86_400,
        winnings_swept: false,
        category: None,
        tags: Vec::new(),
    }
}

fn summary() -> ResolutionSummary {
    ResolutionSummary { winning_total: 100_000_000, total_pool: 200_000_000 }
}

#[test]
fn test_distribute_payouts_single_winner() {
    let mut market = resolved_market();
    let bets: Vec<Bet> = Vec::new();
    let result = PredictifyHybrid::distribute_payouts(&mut market, &bets, 200, summary());
    assert!(result.is_ok());
    let d = result.unwrap();
    assert!(d.total_distributed > 0);
    assert_eq!(d.total_distributed, 196_000_000);
    assert_eq!(d.credits, vec![Claim { user: WINNER, payout: 196_000_000 }]);
    assert!(is_claimed(&market.claimed, WINNER));
    assert!(!is_claimed(&market.claimed, LOSER));
}

#[test]
fn test_distribute_payouts_no_unclaimed_winners_returns_zero() {
    let mut market = resolved_market();
    market.votes = vec![vote(WINNER, "yes", 0)];
    market.outcomes = vec!["yes".to_string()];
    market.total_staked = 0;
    market.claimed = vec![Claim { user: WINNER, payout: 1_000_000 }];
    let bets: Vec<Bet> = Vec::new();
    let result = PredictifyHybrid::distribute_payouts(&mut market, &bets, 200, summary());
    assert_eq!(result.map(|d| d.total_distributed), Ok(0));
    assert_eq!(market.claimed.len(), 1);
}

#[test]
fn test_distribute_payouts_market_not_resolved_returns_error() {
    let mut market = resolved_market();
    market.votes = Vec::new();
    market.winning_outcomes = None;
    market.state = MarketState::Active;
    market.end_time = 9_999_999_999;
    market.total_staked = 0;
    let bets: Vec<Bet> = Vec::new();
    let result = PredictifyHybrid::distribute_payouts(&mut market, &bets, 200, summary());
    assert!(matches!(result, Err(Error::MarketNotResolved)));
}

#[test]
fn distribute_pays_bettors_and_marks_losers() {
    let mut market = resolved_market();
    market.votes = Vec::new();
    let bets = vec![
        Bet { user: 20, outcome: "yes".to_string(), amount: 50_000_000, status: BetStatus::Active },
        Bet { user: 21, outcome: "no".to_string(), amount: 50_000_000, status: BetStatus::Active },
    ];
    let d = PredictifyHybrid::distribute_payouts(&mut market, &bets, 200, summary()).unwrap();
    assert_eq!(d.total_distributed, 98_000_000);
    assert_eq!(d.bet_statuses, vec![BetStatus::Won, BetStatus::Lost]);
    assert_eq!(market.claimed, vec![Claim { user: 20, payout: 98_000_000 }]);
}

#[test]
fn distribute_twice_pays_nothing_more() {
    let mut market = resolved_market();
    let bets: Vec<Bet> = Vec::new();
    PredictifyHybrid::distribute_payouts(&mut market, &bets, 200, summary()).unwrap();
    let again = PredictifyHybrid::distribute_payouts(&mut market, &bets, 200, summary()).unwrap();
    assert_eq!(again.total_distributed, 0);
    assert_eq!(market.claimed.len(), 1);
}

#[test]
fn payout_formula_exact_value() {
    assert_eq!(calculate_payout(100_000_000, 200, 200_000_000, 100_000_000), Ok(196_000_000));
    assert_eq!(calculate_payout(3, 200, 7, 2), Ok(7));
    assert_eq!(calculate_payout(i128::MAX, 200, 1, 1), Err(Error::InvalidInput));
}

#[test]
fn claim_after_dispute_window_pays_once() {
    let mut market = resolved_market();
    let early = PredictifyHybrid::check_claim(&market, WINNER, 86_399, 200, summary());
    assert_eq!(early, Err(Error::InvalidState));
    assert!(PredictifyHybrid::check_claim(&market, WINNER, 86_400, 200, summary()).is_ok());
    let paid = PredictifyHybrid::claim_winnings(&mut market, WINNER, 86_400, 200, summary());
    assert_eq!(paid.payout, 196_000_000);
    assert_eq!(paid.fee_amount, 4_000_000);
    assert_eq!(
        PredictifyHybrid::check_claim(&market, WINNER, 90_000, 200, summary()),
        Err(Error::AlreadyClaimed)
    );
}

#[test]
fn claim_errors_for_loser_stranger_and_unresolved() {
    let mut market = resolved_market();
    let lost = PredictifyHybrid::claim_winnings(&mut market, LOSER, 100_000, 200, summary());
    assert_eq!(lost.payout, 0);
    assert_eq!(
        PredictifyHybrid::check_claim(&market, 99, 100_000, 200, summary()),
        Err(Error::NothingToClaim)
    );
    let mut open = resolved_market();
    open.winning_outcomes = None;
    assert_eq!(
        PredictifyHybrid::check_claim(&open, WINNER, 100_000, 200, summary()),
        Err(Error::MarketNotResolved)
    );
}

#[test]
fn sweep_credits_treasury_once() {
    let mut market = resolved_market();
    let bets: Vec<Bet> = Vec::new();
    let out = PredictifyHybrid::sweep_unclaimed_winnings(
        &mut market, &bets, Some(ADMIN), ADMIN, true, 200, summary(), false, Some(5),
    )
    .unwrap();
    assert_eq!(out.swept_total, 196_000_000);
    assert_eq!(out.recipient, Some(5));
    assert!(market.winnings_swept);
    let again = PredictifyHybrid::sweep_unclaimed_winnings(
        &mut market, &bets, Some(ADMIN), ADMIN, true, 200, summary(), false, Some(5),
    );
    assert_eq!(again, Err(Error::SweepAlreadyDone));
}

#[test]
fn sweep_gate_errors() {
    let bets: Vec<Bet> = Vec::new();
    let mut market = resolved_market();
    assert_eq!(
        PredictifyHybrid::sweep_unclaimed_winnings(&mut market, &bets, None, ADMIN, true, 200, summary(), true, None),
        Err(Error::AdminNotSet)
    );
    assert_eq!(
        PredictifyHybrid::sweep_unclaimed_winnings(&mut market, &bets, Some(ADMIN), 2, true, 200, summary(), true, None),
        Err(Error::Unauthorized)
    );
    assert_eq!(
        PredictifyHybrid::sweep_unclaimed_winnings(&mut market, &bets, Some(ADMIN), ADMIN, false, 200, summary(), true, None),
        Err(Error::InvalidState)
    );
    assert_eq!(
        PredictifyHybrid::sweep_unclaimed_winnings(&mut market, &bets, Some(ADMIN), ADMIN, true, 10_001, summary(), true, None),
        Err(Error::InvalidFeeConfig)
    );
    assert!(!market.winnings_swept);
}

#[test]
fn lookups_find_outcomes_votes_and_claims() {
    let market = resolved_market();
    assert!(contains_outcome(&market.outcomes, &"no".to_string()));
    assert!(!contains_outcome(&market.outcomes, &"maybe".to_string()));
    assert_eq!(find_vote(&market.votes, LOSER), Some(1));
    assert_eq!(find_vote(&market.votes, 99), None);
}

#[test]
fn repeat_claim_is_refused_and_market_kept() {
    let mut market = resolved_market();
    market.tags = vec!["crypto".to_string()];
    market.end_time = 5;
    PredictifyHybrid::claim_winnings(&mut market, WINNER, 100_000, 200, summary());
    let again = PredictifyHybrid::check_claim(&market, WINNER, 100_001, 200, summary());
    assert_eq!(again, Err(Error::AlreadyClaimed));
    assert_eq!(market.tags, vec!["crypto".to_string()]);
    assert_eq!(market.end_time, 5);
    assert_eq!(market.question, "Will BTC hit $100k?".to_string());
    assert_eq!(market.claimed.len(), 1);
    assert_eq!(market.votes.len(), 2);
    assert_eq!(market.total_staked, 200_000_000);
}
