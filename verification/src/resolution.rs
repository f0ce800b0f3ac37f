use vstd::prelude::*;

use crate::errors::Error;
use crate::fees::FeeValidator;
use crate::graceful_degradation::{OracleBackup, OracleProvider};
use crate::market::{AccountId, Market, MarketState, OracleConfig, PredictifyHybrid};
use crate::payouts::{contains_outcome, outcome_in};

verus! {

/// One consumed force-resolve request: the idempotency key is scoped to the market.
pub struct ForceResolveRecord {
    pub market_id: String,
    pub idempotency_key: String,
}

/// The set of (market, idempotency key) pairs that have already been used
/// to force-resolve a market.
pub struct ForceResolveLog {
    pub records: Vec<ForceResolveRecord>,
}

/// Whether `(market_id, key)` occurs among the consumed records.
pub open spec fn key_consumed(records: Seq<ForceResolveRecord>, market_id: Seq<char>, key: Seq<char>) -> bool {
    exists|i: int|
        0 <= i < records.len() && #[trigger] records[i].market_id@ == market_id
            && records[i].idempotency_key@ == key
}

/// Every element of `w` is one of the market's outcomes.
pub open spec fn all_outcomes_valid(outcomes: Seq<String>, w: Seq<String>) -> bool {
    forall|i: int| 0 <= i < w.len() ==> outcome_in(outcomes, #[trigger] w[i]@)
}

/// `m` with `w` set as its winning outcomes and its state set to `Resolved`;
/// every other field is kept.
pub open spec fn resolved_as(m: Market, w: Vec<String>) -> Market {
    Market { winning_outcomes: Some(w), state: MarketState::Resolved, ..m }
}

/// The error a manual resolution with winning outcomes `w` is refused with, if any,
/// in the order in which the checks are made.
pub open spec fn manual_resolution_error(
    stored_admin: Option<AccountId>,
    admin: AccountId,
    market: Option<Market>,
    w: Seq<String>,
    now: u64,
    check_empty: bool,
) -> Option<Error> {
    if stored_admin != Some(admin) {
        Some(Error::Unauthorized)
    } else if check_empty && w.len() == 0 {
        Some(Error::InvalidInput)
    } else if market is None {
        Some(Error::MarketNotFound)
    } else if now < market->0.end_time {
        Some(Error::MarketClosed)
    } else if !all_outcomes_valid(market->0.outcomes@, w) {
        Some(Error::InvalidOutcome)
    } else {
        None
    }
}

/// The error a force-resolve request is refused with, if any, in the order in
/// which the checks are made.
pub open spec fn force_resolve_error(
    stored_admin: Option<AccountId>,
    admin: AccountId,
    market: Option<Market>,
    market_id: Seq<char>,
    w: Seq<String>,
    reason: Seq<char>,
    key: Seq<char>,
    log: Seq<ForceResolveRecord>,
) -> Option<Error> {
    if stored_admin != Some(admin) {
        Some(Error::Unauthorized)
    } else if reason.len() == 0 {
        Some(Error::ForceResolveReasonEmpty)
    } else if w.len() == 0 {
        Some(Error::InvalidInput)
    } else if market is None {
        Some(Error::MarketNotFound)
    } else if !all_outcomes_valid(market->0.outcomes@, w) {
        Some(Error::InvalidOutcome)
    } else if key_consumed(log, market_id, key) {
        Some(Error::ForceResolveReplayed)
    } else {
        None
    }
}

/// Whether every element of `w` is one of `outcomes`.
pub fn all_outcomes_known(outcomes: &Vec<String>, w: &Vec<String>) -> (r: bool)
    ensures
        r == all_outcomes_valid(outcomes@, w@),
{
    let mut i: usize = 0;
    while i < w.len()
        invariant
            0 <= i <= w@.len(),
            forall|j: int| 0 <= j < i ==> outcome_in(outcomes@, #[trigger] w@[j]@),
        decreases w@.len() - i,
    {
        if !contains_outcome(outcomes, &w[i]) {
            return false;
        }
        i = i + 1;
    }
    true
}

impl PredictifyHybrid {
    /// Declares `winning_outcomes` the winners of an ended market, as the
    /// primary admin. Several winners split the pool (a tie).
    ///
    /// The checks, in order: the caller is the stored admin (`Unauthorized`), at
    /// least one outcome is given (`InvalidInput`), the market exists
    /// (`MarketNotFound`), it has reached its end time (`MarketClosed`), and every
    /// given outcome is one of the market's (`InvalidOutcome`). On success the
    /// returned market has those winners and is `Resolved`; nothing else changes.
    pub fn resolve_market_with_ties(
        market: Option<Market>,
        stored_admin: Option<AccountId>,
        admin: AccountId,
        winning_outcomes: Vec<String>,
        now: u64,
    ) -> (r: Result<Market, Error>)
        ensures
            match r {
                Ok(m) => manual_resolution_error(stored_admin, admin, market, winning_outcomes@, now, true)
                    is None && m == resolved_as(market->0, winning_outcomes),
                Err(e) => manual_resolution_error(
                    stored_admin,
                    admin,
                    market,
                    winning_outcomes@,
                    now,
                    true,
                ) == Some(e),
            },
    {
        if let Err(e) = FeeValidator::validate_admin_permissions(stored_admin, admin) {
            return Err(e);
        }
        if winning_outcomes.len() == 0 {
            return Err(Error::InvalidInput);
        }
        let mut m = match market {
            Some(m) => m,
            None => return Err(Error::MarketNotFound),
        };
        if now < m.end_time {
            return Err(Error::MarketClosed);
        }
        if !all_outcomes_known(&m.outcomes, &winning_outcomes) {
            return Err(Error::InvalidOutcome);
        }
        m.winning_outcomes = Some(winning_outcomes);
        m.state = MarketState::Resolved;
        Ok(m)
    }

    /// Declares the single outcome `winning_outcome` the winner of an ended
    /// market, as the primary admin: `resolve_market_with_ties` with one winner,
    /// which can never be refused as empty.
    pub fn resolve_market_manual(
        market: Option<Market>,
        stored_admin: Option<AccountId>,
        admin: AccountId,
        winning_outcome: String,
        now: u64,
    ) -> (r: Result<Market, Error>)
        ensures
            match r {
                Ok(m) => manual_resolution_error(
                    stored_admin,
                    admin,
                    market,
                    seq![winning_outcome],
                    now,
                    false,
                ) is None && m.winning_outcomes is Some && m.winning_outcomes->0@ == seq![
                    winning_outcome,
                ] && m == resolved_as(market->0, m.winning_outcomes->0),
                Err(e) => manual_resolution_error(
                    stored_admin,
                    admin,
                    market,
                    seq![winning_outcome],
                    now,
                    false,
                ) == Some(e),
            },
    {
        let mut w: Vec<String> = Vec::new();
        w.push(winning_outcome);
        proof {
            assert(w@ =~= seq![winning_outcome]);
        }
        Self::resolve_market_with_ties(market, stored_admin, admin, w, now)
    }
}

impl ForceResolveLog {
    /// An empty log.
    pub fn new() -> (r: Self)
        ensures
            r.records@.len() == 0,
    {
        ForceResolveLog { records: Vec::new() }
    }

    /// Whether `key` has already been used to force-resolve `market_id`.
    pub fn is_already_resolved(&self, market_id: &String, key: &String) -> (r: bool)
        ensures
            r == key_consumed(self.records@, market_id@, key@),
    {
        let mut i: usize = 0;
        while i < self.records.len()
            invariant
                0 <= i <= self.records@.len(),
                forall|j: int|
                    0 <= j < i ==> !(#[trigger] self.records@[j].market_id@ == market_id@
                        && self.records@[j].idempotency_key@ == key@),
            decreases self.records@.len() - i,
        {
            if self.records[i].market_id == *market_id && self.records[i].idempotency_key == *key {
                assert(self.records@[i as int].market_id@ == market_id@);
                return true;
            }
            i = i + 1;
        }
        false
    }

    /// Records that `key` has been used for `market_id`.
    pub fn mark_resolved(&mut self, market_id: String, key: String)
        ensures
            final(self).records@.len() == old(self).records@.len() + 1,
            final(self).records@.drop_last() == old(self).records@,
            final(self).records@.last().market_id@ == market_id@,
            final(self).records@.last().idempotency_key@ == key@,
    {
        self.records.push(ForceResolveRecord { market_id, idempotency_key: key });
    }
}

impl PredictifyHybrid {
    /// Resolves a market regardless of its state or end time, as the primary
    /// admin, with a non-empty `reason` and an idempotency key that has not yet
    /// been used for this market.
    ///
    /// The checks, in order: `Unauthorized`, `ForceResolveReasonEmpty`,
    /// `InvalidInput` (no outcome given), `MarketNotFound`, `InvalidOutcome`, and
    /// `ForceResolveReplayed` (the key was already used for this market; the same
    /// key may be used for another market). On success the returned market has
    /// the given winners and is `Resolved`, and the key is recorded; on any error
    /// the log is unchanged.
    pub fn force_resolve_market(
        log: &mut ForceResolveLog,
        market: Option<Market>,
        stored_admin: Option<AccountId>,
        admin: AccountId,
        market_id: String,
        winning_outcomes: Vec<String>,
        reason: &String,
        idempotency_key: String,
    ) -> (r: Result<Market, Error>)
        ensures
            match r {
                Ok(m) => {
                    &&& force_resolve_error(
                        stored_admin,
                        admin,
                        market,
                        market_id@,
                        winning_outcomes@,
                        reason@,
                        idempotency_key@,
                        old(log).records@,
                    ) is None
                    &&& m == resolved_as(market->0, winning_outcomes)
                    &&& final(log).records@.len() == old(log).records@.len() + 1
                    &&& final(log).records@.drop_last() == old(log).records@
                    &&& final(log).records@.last().market_id@ == market_id@
                    &&& final(log).records@.last().idempotency_key@ == idempotency_key@
                },
                Err(e) => {
                    &&& force_resolve_error(
                        stored_admin,
                        admin,
                        market,
                        market_id@,
                        winning_outcomes@,
                        reason@,
                        idempotency_key@,
                        old(log).records@,
                    ) == Some(e)
                    &&& final(log).records@ == old(log).records@
                },
            },
    {
        if let Err(e) = FeeValidator::validate_admin_permissions(stored_admin, admin) {
            return Err(e);
        }
        if reason.as_str().is_empty() {
            return Err(Error::ForceResolveReasonEmpty);
        }
        if winning_outcomes.len() == 0 {
            return Err(Error::InvalidInput);
        }
        let mut m = match market {
            Some(m) => m,
            None => return Err(Error::MarketNotFound),
        };
        if !all_outcomes_known(&m.outcomes, &winning_outcomes) {
            return Err(Error::InvalidOutcome);
        }
        if log.is_already_resolved(&market_id, &idempotency_key) {
            return Err(Error::ForceResolveReplayed);
        }
        m.winning_outcomes = Some(winning_outcomes);
        m.state = MarketState::Resolved;
        log.mark_resolved(market_id, idempotency_key);
        Ok(m)
    }
}


// ===== ORACLE RESOLUTION =====

/// The outcome a price gives under a threshold and a comparison: `"gt"`
/// and `"lt"` compare strictly, anything else asks for equality.
pub open spec fn price_outcome(price: i128, threshold: i128, comparison: Seq<char>) -> Seq<char> {
    let hit = if comparison == "gt"@ {
        price > threshold
    } else if comparison == "lt"@ {
        price < threshold
    } else {
        price == threshold
    };
    if hit {
        "yes"@
    } else {
        "no"@
    }
}

/// What an oracle configuration yields from a price reading: only the
/// Reflector integration reads prices; every other provider is unavailable.
pub open spec fn reading_outcome(config: OracleConfig, price: Result<i128, Error>) -> Result<
    Seq<char>,
    Error,
> {
    if config.provider != OracleProvider::Reflector {
        Err(Error::OracleUnavailable)
    } else {
        match price {
            Ok(p) => Ok(price_outcome(p, config.threshold, config.comparison@)),
            Err(e) => Err(e),
        }
    }
}

/// The error an oracle fetch is refused with before any reading, if any.
pub open spec fn fetch_precheck_error(market: Option<Market>, now: u64) -> Option<Error> {
    match market {
        None => Some(Error::MarketNotFound),
        Some(m) => if m.oracle_result is Some {
            Some(Error::MarketResolved)
        } else if now < m.end_time {
            Some(Error::MarketClosed)
        } else if now >= m.end_time + m.resolution_timeout {
            Some(Error::ResolutionTimeoutReached)
        } else {
            None
        },
    }
}

/// Whether the resolution-timeout check of a fetch can be reached, where the
/// end time plus the timeout must be computed.
pub open spec fn fetch_reaches_timeout_check(market: Option<Market>, now: u64) -> bool {
    market matches Some(m) && m.oracle_result is None && now >= m.end_time
}

/// The outcome of an oracle configuration for a price reading.
pub fn automatic_oracle_result_unavailable(config: &OracleConfig, price: Result<i128, Error>) -> (r: Result<String, Error>)
    ensures
        match (r, reading_outcome(*config, price)) {
            (Ok(s), Ok(o)) => s@ == o,
            (Err(e1), Err(e2)) => e1 == e2,
            _ => false,
        },
{
    if config.provider != OracleProvider::Reflector {
        return Err(Error::OracleUnavailable);
    }
    let p = match price {
        Ok(p) => p,
        Err(e) => return Err(e),
    };
    Ok(outcome_for_price(p, config.threshold, &config.comparison))
}

/// The outcome a price gives under a threshold and a comparison.
pub fn outcome_for_price(price: i128, threshold: i128, comparison: &String) -> (r: String)
    ensures
        r@ == price_outcome(price, threshold, comparison@),
{
    let gt = "gt".to_owned();
    let lt = "lt".to_owned();
    let hit = if *comparison == gt {
        price > threshold
    } else if *comparison == lt {
        price < threshold
    } else {
        price == threshold
    };
    if hit {
        "yes".to_owned()
    } else {
        "no".to_owned()
    }
}

/// Checks that an oracle may be asked for a market's result: the market
/// exists, has no oracle result yet, has ended, and its resolution timeout
/// has not passed.
pub fn fetch_oracle_precheck(market: &Option<Market>, now: u64) -> (r: Result<(), Error>)
    requires
        fetch_reaches_timeout_check(*market, now) ==> market->0.end_time + market->0.resolution_timeout
            <= u64::MAX,
    ensures
        match fetch_precheck_error(*market, now) {
            Some(e) => r == Err::<(), Error>(e),
            None => r is Ok,
        },
{
    let m = match market {
        Some(m) => m,
        None => return Err(Error::MarketNotFound),
    };
    if m.oracle_result.is_some() {
        return Err(Error::MarketResolved);
    }
    if now < m.end_time {
        return Err(Error::MarketClosed);
    }
    if now >= m.end_time + m.resolution_timeout {
        return Err(Error::ResolutionTimeoutReached);
    }
    Ok(())
}

impl PredictifyHybrid {
    /// Records a market's oracle result from price readings, after the
    /// checks of `fetch_oracle_precheck`: the primary configuration's outcome
    /// when it yields one; otherwise, when the market has a fallback
    /// configuration, the fallback's outcome (`FallbackOracleUnavailable`
    /// when that fails too or was not read); otherwise the primary's error.
    /// Returns the market with its oracle result set, and the outcome.
    pub fn fetch_oracle_result(
        market: Option<Market>,
        now: u64,
        primary_price: Result<i128, Error>,
        fallback_price: Option<Result<i128, Error>>,
    ) -> (r: Result<(Market, String), Error>)
        requires
            fetch_reaches_timeout_check(market, now) ==> market->0.end_time
                + market->0.resolution_timeout <= u64::MAX,
        ensures
            match fetch_precheck_error(market, now) {
                Some(e) => r matches Err(e2) && e2 == e,
                None => {
                    let m0 = market->0;
                    let chosen = match reading_outcome(m0.oracle_config, primary_price) {
                        Ok(o) => Ok(o),
                        Err(e) => match m0.fallback_oracle_config {
                            None => Err(e),
                            Some(fb) => match fallback_price {
                                Some(p) => match reading_outcome(fb, p) {
                                    Ok(o) => Ok(o),
                                    Err(_) => Err(Error::FallbackOracleUnavailable),
                                },
                                None => Err(Error::FallbackOracleUnavailable),
                            },
                        },
                    };
                    match chosen {
                        Err(e) => r matches Err(e2) && e2 == e,
                        Ok(o) => match r {
                            Ok((m, s)) => s@ == o && m.oracle_result is Some
                                && m.oracle_result->0@ == o && m == (Market {
                                oracle_result: m.oracle_result,
                                ..m0
                            }),
                            Err(_) => false,
                        },
                    }
                },
            },
    {
        if let Err(e) = fetch_oracle_precheck(&market, now) {
            return Err(e);
        }
        let mut m = match market {
            Some(m) => m,
            None => return Err(Error::MarketNotFound),
        };
        let outcome = match automatic_oracle_result_unavailable(&m.oracle_config, primary_price) {
            Ok(o) => o,
            Err(e) => {
                match &m.fallback_oracle_config {
                    None => return Err(e),
                    Some(fb) => {
                        let p = match fallback_price {
                            Some(p) => p,
                            None => return Err(Error::FallbackOracleUnavailable),
                        };
                        match automatic_oracle_result_unavailable(fb, p) {
                            Ok(o) => o,
                            Err(_) => return Err(Error::FallbackOracleUnavailable),
                        }
                    },
                }
            },
        };
        m.oracle_result = Some(outcome.clone());
        Ok((m, outcome))
    }
}


/// The error a backup-oracle lookup is refused with before any reading.
pub open spec fn backup_lookup_error(market: Option<Market>, now: u64) -> Option<Error> {
    match market {
        None => Some(Error::MarketNotFound),
        Some(m) => if now < m.end_time {
            Some(Error::MarketClosed)
        } else if now >= m.end_time + m.resolution_timeout {
            Some(Error::ResolutionTimeoutReached)
        } else {
            None
        },
    }
}

impl PredictifyHybrid {
    /// Reads a market's outcome through a primary and a backup provider:
    /// once the market has ended and before its resolution timeout, the
    /// price that the backup system finds is compared with the market's
    /// threshold; when both providers fail the caller gets
    /// `FallbackOracleUnavailable`.
    pub fn get_oracle_with_backup(
        market: &Option<Market>,
        now: u64,
        primary_oracle: OracleProvider,
        backup_oracle: OracleProvider,
    ) -> (r: Result<String, Error>)
        requires
            match *market {
                Some(m) => now >= m.end_time ==> m.end_time + m.resolution_timeout <= u64::MAX,
                None => true,
            },
        ensures
            match backup_lookup_error(*market, now) {
                Some(e) => r == Err::<String, Error>(e),
                None => match (OracleBackup { primary: primary_oracle, backup: backup_oracle }).get_price_spec().result {
                    Ok(p) => r matches Ok(s) && s@ == price_outcome(
                        p,
                        market->0.oracle_config.threshold,
                        market->0.oracle_config.comparison@,
                    ),
                    Err(_) => r == Err::<String, Error>(Error::FallbackOracleUnavailable),
                },
            },
    {
        let m = match market {
            Some(m) => m,
            None => return Err(Error::MarketNotFound),
        };
        if now < m.end_time {
            return Err(Error::MarketClosed);
        }
        if now >= m.end_time + m.resolution_timeout {
            return Err(Error::ResolutionTimeoutReached);
        }
        let backup = OracleBackup::new(primary_oracle, backup_oracle);
        let lookup = backup.get_price();
        match lookup.result {
            Ok(price) => Ok(
                outcome_for_price(price, m.oracle_config.threshold, &m.oracle_config.comparison),
            ),
            Err(_) => Err(Error::FallbackOracleUnavailable),
        }
    }
}

/// An idempotency key, once recorded for a market, refuses every later
/// force-resolve of that market that would otherwise succeed, while the
/// consumed keys of every other market stay as they were.
pub proof fn lemma_force_resolve_key_single_use(
    before: Seq<ForceResolveRecord>,
    after: Seq<ForceResolveRecord>,
    market_id: Seq<char>,
    key: Seq<char>,
    other_market_id: Seq<char>,
    stored_admin: Option<AccountId>,
    admin: AccountId,
    market: Option<Market>,
    w: Seq<String>,
    reason: Seq<char>,
)
    requires
        after.len() == before.len() + 1,
        after.drop_last() == before,
        after.last().market_id@ == market_id,
        after.last().idempotency_key@ == key,
        other_market_id != market_id,
    ensures
        key_consumed(after, market_id, key),
        key_consumed(after, other_market_id, key) == key_consumed(before, other_market_id, key),
        (stored_admin == Some(admin) && reason.len() > 0 && w.len() > 0 && market is Some
            && all_outcomes_valid(market->0.outcomes@, w)) ==> force_resolve_error(
            stored_admin,
            admin,
            market,
            market_id,
            w,
            reason,
            key,
            after,
        ) == Some(Error::ForceResolveReplayed),
{
    let n = before.len() as int;
    assert(after[n].market_id@ == market_id);
    if key_consumed(after, other_market_id, key) {
        let i = choose|i: int|
            0 <= i < after.len() && #[trigger] after[i].market_id@ == other_market_id
                && after[i].idempotency_key@ == key;
        assert(i < n);
        assert(before[i] == after[i]);
    }
    if key_consumed(before, other_market_id, key) {
        let i = choose|i: int|
            0 <= i < before.len() && #[trigger] before[i].market_id@ == other_market_id
                && before[i].idempotency_key@ == key;
        assert(before[i] == after.drop_last()[i]);
        assert(after[i].market_id@ == other_market_id);
    }
}

/// Once a market holds an oracle result, every later fetch is refused with
/// `MarketResolved` and the result stays as recorded.
pub proof fn lemma_oracle_result_recorded_once(m: Market, now: u64)
    requires
        m.oracle_result is Some,
    ensures
        fetch_precheck_error(Some(m), now) == Some(Error::MarketResolved),
{
}

/// A manual resolution is accepted exactly when the stored admin asks,
/// with at least one winner where that is checked, on an existing market
/// that has reached its end time, naming only outcomes of the market.
pub proof fn lemma_manual_resolution_accepted_iff(
    stored_admin: Option<AccountId>,
    admin: AccountId,
    market: Option<Market>,
    w: Seq<String>,
    now: u64,
    check_empty: bool,
)
    ensures
        manual_resolution_error(stored_admin, admin, market, w, now, check_empty) is None <==> {
            &&& stored_admin == Some(admin)
            &&& !(check_empty && w.len() == 0)
            &&& market is Some
            &&& now >= market->0.end_time
            &&& forall|i: int| 0 <= i < w.len() ==> outcome_in(market->0.outcomes@, #[trigger] w[i]@)
        },
        stored_admin != Some(admin) ==> manual_resolution_error(
            stored_admin,
            admin,
            market,
            w,
            now,
            check_empty,
        ) == Some(Error::Unauthorized),
{
}

/// A force-resolve is accepted exactly when the stored admin asks with a
/// reason and at least one winner, on an existing market, naming only its
/// outcomes, with a key not yet used for that market; unlike a manual
/// resolution it does not wait for the end time.
pub proof fn lemma_force_resolve_accepted_iff(
    stored_admin: Option<AccountId>,
    admin: AccountId,
    market: Option<Market>,
    market_id: Seq<char>,
    w: Seq<String>,
    reason: Seq<char>,
    key: Seq<char>,
    log: Seq<ForceResolveRecord>,
)
    ensures
        force_resolve_error(stored_admin, admin, market, market_id, w, reason, key, log) is None
            <==> {
            &&& stored_admin == Some(admin)
            &&& reason.len() > 0
            &&& w.len() > 0
            &&& market is Some
            &&& forall|i: int| 0 <= i < w.len() ==> outcome_in(market->0.outcomes@, #[trigger] w[i]@)
            &&& forall|i: int|
                0 <= i < log.len() ==> !((#[trigger] log[i]).market_id@ == market_id
                    && log[i].idempotency_key@ == key)
        },
{
}

} // verus!
