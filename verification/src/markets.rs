use vstd::prelude::*;

use crate::errors::Error;
use crate::fees::FeeValidator;
use crate::market::{AccountId, Market, MarketState, OracleConfig, PredictifyHybrid, Vote};
use crate::payouts::{contains_outcome, has_vote, outcome_in, voted};

verus! {

/// Seconds in a day of market duration.
pub const SECONDS_PER_DAY: u64 = 86_400;

/// Dispute window of a market created without one.
pub const DEFAULT_DISPUTE_WINDOW_SECONDS: u64 = 86_400;

/// Highest platform fee an admin may set, in basis points (10%).
pub const MAX_PLATFORM_FEE_BPS: i128 = 1_000;

/// An event: a market scheduled with an explicit end time, with its
/// visibility (of the contract's own visibility type, which this library
/// carries through without reading) and its allowlist. Its identifier is
/// generated once the event has been accepted (`MarketIdGenerator`), and it
/// is stored under that identifier.
pub struct Event<V> {
    pub description: String,
    pub outcomes: Vec<String>,
    pub end_time: u64,
    pub oracle_config: OracleConfig,
    pub fallback_oracle_config: Option<OracleConfig>,
    pub resolution_timeout: u64,
    pub admin: AccountId,
    pub created_at: u64,
    pub status: MarketState,
    pub visibility: V,
    pub allowlist: Vec<AccountId>,
}

// ===== MATHEMATICAL MODEL =====

/// End time of a market of `duration_days` days created at `now`.
pub open spec fn market_end_time(now: u64, duration_days: u32) -> int {
    now + duration_days * SECONDS_PER_DAY
}

/// The voting cut-off stored for a market ending at `end_time`: the given
/// number of minutes before the end (never below 0), or 0 for none.
pub open spec fn bet_deadline_for(end_time: int, mins_before_end: Option<u64>) -> int {
    match mins_before_end {
        Some(m) => if m * 60 >= end_time {
            0
        } else {
            end_time - m * 60
        },
        None => 0,
    }
}

/// The time at which voting on `m` closes.
pub open spec fn voting_cutoff(m: Market) -> u64 {
    if m.bet_deadline > 0 {
        m.bet_deadline
    } else {
        m.end_time
    }
}

/// The error a vote is refused with, if any, in the order of the checks.
pub open spec fn vote_error(m: Market, user: AccountId, outcome: Seq<char>, now: u64) -> Option<Error> {
    if m.state != MarketState::Active {
        Some(Error::InvalidState)
    } else if now >= voting_cutoff(m) {
        Some(Error::MarketClosed)
    } else if !outcome_in(m.outcomes@, outcome) {
        Some(Error::InvalidOutcome)
    } else if voted(m.votes@, user) {
        Some(Error::AlreadyVoted)
    } else {
        None
    }
}

/// The error an edit of an unused market is refused with, if any: it must
/// exist, be active, and have neither bets nor votes.
pub open spec fn edit_error(market: Option<Market>, total_bets: u32) -> Option<Error> {
    match market {
        None => Some(Error::MarketNotFound),
        Some(m) => if m.state != MarketState::Active {
            Some(Error::MarketResolved)
        } else if total_bets > 0 {
            Some(Error::BetsAlreadyPlaced)
        } else if m.total_staked > 0 {
            Some(Error::AlreadyVoted)
        } else {
            None
        },
    }
}

/// Whether some outcome of `o` is the empty string.
pub open spec fn has_empty_outcome(o: Seq<String>) -> bool {
    exists|i: int| 0 <= i < o.len() && #[trigger] o[i]@.len() == 0
}

/// Whether the resolution timeout of `m` has passed at `now`.
pub open spec fn timeout_reached(m: Market, now: u64) -> bool {
    now >= m.end_time + m.resolution_timeout
}

/// What a refund after an oracle failure decides: `Ok(false)` when the
/// market is already cancelled, `Ok(true)` when it is cancelled now, or the
/// error it is refused with.
pub open spec fn refund_decision(
    market: Option<Market>,
    stored_admin: Option<AccountId>,
    caller: AccountId,
    now: u64,
) -> Result<bool, Error> {
    match market {
        None => Err(Error::MarketNotFound),
        Some(m) => if m.state == MarketState::Cancelled {
            Ok(false)
        } else if m.winning_outcomes is Some || m.oracle_result is Some {
            Err(Error::MarketResolved)
        } else if now < m.end_time {
            Err(Error::MarketClosed)
        } else if stored_admin != Some(caller) && !timeout_reached(m, now) {
            Err(Error::Unauthorized)
        } else {
            Ok(true)
        },
    }
}

/// What a cancellation decides: `Ok(false)` when the market is already
/// cancelled, `Ok(true)` when it is cancelled now, or the error it is
/// refused with.
pub open spec fn cancel_decision(market: Option<Market>, stored_admin: Option<AccountId>, admin: AccountId) -> Result<bool, Error> {
    if stored_admin != Some(admin) {
        Err(Error::Unauthorized)
    } else {
        match market {
            None => Err(Error::MarketNotFound),
            Some(m) => if m.state == MarketState::Resolved {
                Err(Error::MarketResolved)
            } else if m.state == MarketState::Cancelled {
                Ok(false)
            } else if m.state != MarketState::Active && m.state != MarketState::Ended {
                Err(Error::InvalidState)
            } else {
                Ok(true)
            },
        }
    }
}

/// The error an admin-only setting is refused with when the caller is not
/// the stored admin: `AdminNotSet` before any admin exists.
pub open spec fn admin_setting_error(stored_admin: Option<AccountId>, admin: AccountId) -> Option<Error> {
    match stored_admin {
        None => Some(Error::AdminNotSet),
        Some(a) => if a != admin {
            Some(Error::Unauthorized)
        } else {
            None
        },
    }
}

/// The largest basis-point value a governance minimum bet can take.
pub const MAX_BPS: u32 = 10_000;

impl PredictifyHybrid {
    /// Creates a market (primary admin only) running `duration_days` days
    /// from `now`. Voting closes `bet_deadline_mins_before_end` minutes
    /// before the end when given; the dispute window defaults to one day.
    /// A zero duration is refused with `InvalidDuration`.
    pub fn create_market(
        stored_admin: Option<AccountId>,
        admin: AccountId,
        question: String,
        outcomes: Vec<String>,
        duration_days: u32,
        oracle_config: OracleConfig,
        fallback_oracle_config: Option<OracleConfig>,
        resolution_timeout: u64,
        bet_deadline_mins_before_end: Option<u64>,
        dispute_window_seconds: Option<u64>,
        now: u64,
    ) -> (r: Result<Market, Error>)
        requires
            stored_admin == Some(admin) && duration_days > 0 ==> market_end_time(now, duration_days)
                <= u64::MAX,
            bet_deadline_mins_before_end matches Some(m) ==> m * 60 <= u64::MAX,
        ensures
            stored_admin != Some(admin) ==> r == Err::<Market, Error>(Error::Unauthorized),
            stored_admin == Some(admin) && duration_days == 0 ==> r == Err::<Market, Error>(
                Error::InvalidDuration,
            ),
            stored_admin == Some(admin) && duration_days > 0 ==> (r matches Ok(m) && {
                &&& m.admin == admin
                &&& m.question == question
                &&& m.outcomes == outcomes
                &&& m.end_time == market_end_time(now, duration_days)
                &&& m.bet_deadline == bet_deadline_for(
                    market_end_time(now, duration_days),
                    bet_deadline_mins_before_end,
                )
                &&& m.oracle_config == oracle_config
                &&& m.fallback_oracle_config == fallback_oracle_config
                &&& m.resolution_timeout == resolution_timeout
                &&& m.oracle_result is None
                &&& m.votes@.len() == 0
                &&& m.total_staked == 0
                &&& m.claimed@.len() == 0
                &&& m.winning_outcomes is None
                &&& !m.fee_collected
                &&& m.state == MarketState::Active
                &&& m.dispute_window_seconds == (match dispute_window_seconds {
                    Some(d) => d,
                    None => DEFAULT_DISPUTE_WINDOW_SECONDS,
                })
                &&& !m.winnings_swept
                &&& m.category is None
                &&& m.tags@.len() == 0
            }),
    {
        if let Err(e) = FeeValidator::validate_admin_permissions(stored_admin, admin) {
            return Err(e);
        }
        if duration_days == 0 {
            return Err(Error::InvalidDuration);
        }
        let duration_seconds: u64 = (duration_days as u64) * SECONDS_PER_DAY;
        let end_time: u64 = now + duration_seconds;
        let bet_deadline: u64 = match bet_deadline_mins_before_end {
            Some(mins) => end_time.saturating_sub(mins * 60),
            None => 0,
        };
        let dispute_window: u64 = match dispute_window_seconds {
            Some(d) => d,
            None => DEFAULT_DISPUTE_WINDOW_SECONDS,
        };
        Ok(
            Market {
                admin,
                question,
                outcomes,
                end_time,
                bet_deadline,
                oracle_config,
                fallback_oracle_config,
                resolution_timeout,
                oracle_result: None,
                votes: Vec::new(),
                total_staked: 0,
                claimed: Vec::new(),
                winning_outcomes: None,
                fee_collected: false,
                state: MarketState::Active,
                dispute_window_seconds: dispute_window,
                winnings_swept: false,
                category: None,
                tags: Vec::new(),
            },
        )
    }

    /// Casts `user`'s vote for `outcome` with `stake` on an active market
    /// before its voting cut-off; each user votes once. The returned market
    /// holds the vote and the stake added to its pool.
    pub fn vote(market: Option<Market>, user: AccountId, outcome: String, stake: i128, now: u64) -> (r:
        Result<Market, Error>)
        requires
            match market {
                Some(m) => vote_error(m, user, outcome@, now) is None ==> i128::MIN <= m.total_staked
                    + stake <= i128::MAX,
                None => true,
            },
        ensures
            market is None ==> r == Err::<Market, Error>(Error::MarketNotFound),
            market matches Some(m0) ==> match vote_error(m0, user, outcome@, now) {
                Some(e) => r == Err::<Market, Error>(e),
                None => r matches Ok(m) && m == (Market {
                    votes: m.votes,
                    total_staked: (m0.total_staked + stake) as i128,
                    ..m0
                }) && m.votes@ == m0.votes@.push(Vote { user, outcome, stake }),
            },
    {
        let mut m = match market {
            Some(m) => m,
            None => return Err(Error::MarketNotFound),
        };
        if m.state != MarketState::Active {
            return Err(Error::InvalidState);
        }
        let cutoff = if m.bet_deadline > 0 {
            m.bet_deadline
        } else {
            m.end_time
        };
        if now >= cutoff {
            return Err(Error::MarketClosed);
        }
        if !contains_outcome(&m.outcomes, &outcome) {
            return Err(Error::InvalidOutcome);
        }
        if has_vote(&m.votes, user) {
            return Err(Error::AlreadyVoted);
        }
        m.votes.push(Vote { user, outcome, stake });
        m.total_staked = m.total_staked + stake;
        Ok(m)
    }

    /// Replaces the question of a market that has neither bets nor votes
    /// (primary admin only). The checks, in order: `Unauthorized`,
    /// `InvalidQuestion` (empty description), then those of `edit_error`.
    pub fn update_event_description(
        market: Option<Market>,
        stored_admin: Option<AccountId>,
        admin: AccountId,
        new_description: String,
        total_bets: u32,
    ) -> (r: Result<Market, Error>)
        ensures
            stored_admin != Some(admin) ==> r == Err::<Market, Error>(Error::Unauthorized),
            stored_admin == Some(admin) && new_description@.len() == 0 ==> r == Err::<Market, Error>(
                Error::InvalidQuestion,
            ),
            stored_admin == Some(admin) && new_description@.len() > 0 ==> match edit_error(
                market,
                total_bets,
            ) {
                Some(e) => r == Err::<Market, Error>(e),
                None => r == Ok::<Market, Error>(
                    (Market { question: new_description, ..market->0 }),
                ),
            },
    {
        if let Err(e) = FeeValidator::validate_admin_permissions(stored_admin, admin) {
            return Err(e);
        }
        if new_description.as_str().is_empty() {
            return Err(Error::InvalidQuestion);
        }
        let mut m = match Self::check_editable(market, total_bets) {
            Ok(m) => m,
            Err(e) => return Err(e),
        };
        m.question = new_description;
        Ok(m)
    }

    /// Replaces the outcomes of a market that has neither bets nor votes
    /// (primary admin only). The checks, in order: `Unauthorized`,
    /// `InvalidOutcomes` (fewer than two), `InvalidOutcome` (an empty one),
    /// then those of `edit_error`.
    pub fn update_event_outcomes(
        market: Option<Market>,
        stored_admin: Option<AccountId>,
        admin: AccountId,
        new_outcomes: Vec<String>,
        total_bets: u32,
    ) -> (r: Result<Market, Error>)
        ensures
            stored_admin != Some(admin) ==> r == Err::<Market, Error>(Error::Unauthorized),
            stored_admin == Some(admin) && new_outcomes@.len() < 2 ==> r == Err::<Market, Error>(
                Error::InvalidOutcomes,
            ),
            stored_admin == Some(admin) && new_outcomes@.len() >= 2 && has_empty_outcome(
                new_outcomes@,
            ) ==> r == Err::<Market, Error>(Error::InvalidOutcome),
            stored_admin == Some(admin) && new_outcomes@.len() >= 2 && !has_empty_outcome(
                new_outcomes@,
            ) ==> match edit_error(market, total_bets) {
                Some(e) => r == Err::<Market, Error>(e),
                None => r == Ok::<Market, Error>((Market { outcomes: new_outcomes, ..market->0 })),
            },
    {
        if let Err(e) = FeeValidator::validate_admin_permissions(stored_admin, admin) {
            return Err(e);
        }
        if new_outcomes.len() < 2 {
            return Err(Error::InvalidOutcomes);
        }
        let mut i: usize = 0;
        while i < new_outcomes.len()
            invariant
                0 <= i <= new_outcomes@.len(),
                stored_admin == Some(admin),
                new_outcomes@.len() >= 2,
                forall|j: int| 0 <= j < i ==> #[trigger] new_outcomes@[j]@.len() != 0,
            decreases new_outcomes@.len() - i,
        {
            if new_outcomes[i].as_str().is_empty() {
                return Err(Error::InvalidOutcome);
            }
            i = i + 1;
        }
        let mut m = match Self::check_editable(market, total_bets) {
            Ok(m) => m,
            Err(e) => return Err(e),
        };
        m.outcomes = new_outcomes;
        Ok(m)
    }

    /// The market, when it may still be edited.
    fn check_editable(market: Option<Market>, total_bets: u32) -> (r: Result<Market, Error>)
        ensures
            match edit_error(market, total_bets) {
                Some(e) => r == Err::<Market, Error>(e),
                None => r == Ok::<Market, Error>(market->0),
            },
    {
        let m = match market {
            Some(m) => m,
            None => return Err(Error::MarketNotFound),
        };
        if m.state != MarketState::Active {
            return Err(Error::MarketResolved);
        }
        if total_bets > 0 {
            return Err(Error::BetsAlreadyPlaced);
        }
        if m.total_staked > 0 {
            return Err(Error::AlreadyVoted);
        }
        Ok(m)
    }

    /// Cancels an active or ended market (primary admin only) and returns it
    /// with the total to refund, its whole pool. An already cancelled market
    /// is returned unchanged with 0; a resolved one is refused with
    /// `MarketResolved`, any other state with `InvalidState`.
    pub fn cancel_event(market: Option<Market>, stored_admin: Option<AccountId>, admin: AccountId) -> (r:
        Result<(Market, i128), Error>)
        ensures
            match cancel_decision(market, stored_admin, admin) {
                Err(e) => r matches Err(e2) && e2 == e,
                Ok(false) => r matches Ok((m, refunded)) && m == market->0 && refunded == 0,
                Ok(true) => r matches Ok((m, refunded)) && m == (Market {
                    state: MarketState::Cancelled,
                    ..market->0
                }) && refunded == market->0.total_staked,
            },
            stored_admin == Some(admin) && market is Some && (market->0.state == MarketState::Active
                || market->0.state == MarketState::Ended) ==> r == Ok::<(Market, i128), Error>(
                (Market { state: MarketState::Cancelled, ..market->0 }, market->0.total_staked),
            ),
    {
        if let Err(e) = FeeValidator::validate_admin_permissions(stored_admin, admin) {
            return Err(e);
        }
        let mut m = match market {
            Some(m) => m,
            None => return Err(Error::MarketNotFound),
        };
        if m.state == MarketState::Resolved {
            return Err(Error::MarketResolved);
        }
        if m.state == MarketState::Cancelled {
            return Ok((m, 0));
        }
        if m.state != MarketState::Active && m.state != MarketState::Ended {
            return Err(Error::InvalidState);
        }
        m.state = MarketState::Cancelled;
        let refunded = m.total_staked;
        Ok((m, refunded))
    }

    /// Cancels an unresolved market whose oracle never answered, for a full
    /// refund of its pool: once the market has ended, the primary admin may
    /// do so at once and anyone once the resolution timeout has passed. An
    /// already cancelled market yields 0 unchanged.
    pub fn refund_on_oracle_failure(
        market: Option<Market>,
        stored_admin: Option<AccountId>,
        caller: AccountId,
        now: u64,
    ) -> (r: Result<(Market, i128), Error>)
        requires
            match market {
                Some(m) => m.state != MarketState::Cancelled && m.winning_outcomes is None
                    && m.oracle_result is None && now >= m.end_time ==> m.end_time
                    + m.resolution_timeout <= u64::MAX,
                None => true,
            },
        ensures
            match refund_decision(market, stored_admin, caller, now) {
                Err(e) => r matches Err(e2) && e2 == e,
                Ok(false) => r matches Ok((m, refunded)) && m == market->0 && refunded == 0,
                Ok(true) => r matches Ok((m, refunded)) && m == (Market {
                    state: MarketState::Cancelled,
                    ..market->0
                }) && refunded == market->0.total_staked,
            },
    {
        let mut m = match market {
            Some(m) => m,
            None => return Err(Error::MarketNotFound),
        };
        if m.state == MarketState::Cancelled {
            return Ok((m, 0));
        }
        if m.winning_outcomes.is_some() || m.oracle_result.is_some() {
            return Err(Error::MarketResolved);
        }
        if now < m.end_time {
            return Err(Error::MarketClosed);
        }
        let is_admin = match stored_admin {
            Some(a) => a == caller,
            None => false,
        };
        let timeout_passed = now >= m.end_time + m.resolution_timeout;
        if !is_admin && !timeout_passed {
            return Err(Error::Unauthorized);
        }
        m.state = MarketState::Cancelled;
        let refunded = m.total_staked;
        Ok((m, refunded))
    }

    /// Creates an event (primary admin only) with at least two outcomes
    /// (`InvalidOutcomes`) and a non-empty description (`InvalidQuestion`),
    /// active from `now`, with the given visibility and an empty allowlist.
    pub fn create_event<V>(
        stored_admin: Option<AccountId>,
        admin: AccountId,
        description: String,
        outcomes: Vec<String>,
        end_time: u64,
        oracle_config: OracleConfig,
        fallback_oracle_config: Option<OracleConfig>,
        resolution_timeout: u64,
        visibility: V,
        now: u64,
    ) -> (r: Result<Event<V>, Error>)
        ensures
            stored_admin != Some(admin) ==> r == Err::<Event<V>, Error>(Error::Unauthorized),
            stored_admin == Some(admin) && outcomes@.len() < 2 ==> r == Err::<Event<V>, Error>(
                Error::InvalidOutcomes,
            ),
            stored_admin == Some(admin) && outcomes@.len() >= 2 && description@.len() == 0 ==> r
                == Err::<Event<V>, Error>(Error::InvalidQuestion),
            stored_admin == Some(admin) && outcomes@.len() >= 2 && description@.len() > 0 ==> match r {
                Ok(ev) => ev.allowlist@.len() == 0 && ev == (Event {
                    description,
                    outcomes,
                    end_time,
                    oracle_config,
                    fallback_oracle_config,
                    resolution_timeout,
                    admin,
                    created_at: now,
                    status: MarketState::Active,
                    visibility,
                    allowlist: ev.allowlist,
                }),
                Err(_) => false,
            },
    {
        if let Err(e) = FeeValidator::validate_admin_permissions(stored_admin, admin) {
            return Err(e);
        }
        if outcomes.len() < 2 {
            return Err(Error::InvalidOutcomes);
        }
        if description.as_str().is_empty() {
            return Err(Error::InvalidQuestion);
        }
        Ok(
            Event {
                description,
                outcomes,
                end_time,
                oracle_config,
                fallback_oracle_config,
                resolution_timeout,
                admin,
                created_at: now,
                status: MarketState::Active,
                visibility,
                allowlist: Vec::new(),
            },
        )
    }

    /// Validates a new platform fee (primary admin only): it must lie within
    /// `[0, MAX_PLATFORM_FEE_BPS]`, else `InvalidFeeConfig`. Returns the fee
    /// to store.
    pub fn set_platform_fee(stored_admin: Option<AccountId>, admin: AccountId, fee_percentage: i128) -> (r:
        Result<i128, Error>)
        ensures
            r == (if stored_admin != Some(admin) {
                Err(Error::Unauthorized)
            } else if fee_percentage < 0 || fee_percentage > MAX_PLATFORM_FEE_BPS {
                Err(Error::InvalidFeeConfig)
            } else {
                Ok(fee_percentage)
            }),
    {
        if let Err(e) = FeeValidator::validate_admin_permissions(stored_admin, admin) {
            return Err(e);
        }
        if fee_percentage < 0 || fee_percentage > MAX_PLATFORM_FEE_BPS {
            return Err(Error::InvalidFeeConfig);
        }
        Ok(fee_percentage)
    }

    /// Sets a market's category (primary admin only) under the checks of
    /// `edit_error`.
    pub fn update_event_category(
        market: Option<Market>,
        stored_admin: Option<AccountId>,
        admin: AccountId,
        category: Option<String>,
        total_bets: u32,
    ) -> (r: Result<Market, Error>)
        ensures
            stored_admin != Some(admin) ==> r == Err::<Market, Error>(Error::Unauthorized),
            stored_admin == Some(admin) ==> match edit_error(market, total_bets) {
                Some(e) => r == Err::<Market, Error>(e),
                None => r == Ok::<Market, Error>((Market { category, ..market->0 })),
            },
    {
        if let Err(e) = FeeValidator::validate_admin_permissions(stored_admin, admin) {
            return Err(e);
        }
        let mut m = match Self::check_editable(market, total_bets) {
            Ok(m) => m,
            Err(e) => return Err(e),
        };
        m.category = category;
        Ok(m)
    }

    /// Replaces a market's tags (primary admin only) under the checks of
    /// `edit_error`.
    pub fn update_event_tags(
        market: Option<Market>,
        stored_admin: Option<AccountId>,
        admin: AccountId,
        tags: Vec<String>,
        total_bets: u32,
    ) -> (r: Result<Market, Error>)
        ensures
            stored_admin != Some(admin) ==> r == Err::<Market, Error>(Error::Unauthorized),
            stored_admin == Some(admin) ==> match edit_error(market, total_bets) {
                Some(e) => r == Err::<Market, Error>(e),
                None => r == Ok::<Market, Error>((Market { tags, ..market->0 })),
            },
    {
        if let Err(e) = FeeValidator::validate_admin_permissions(stored_admin, admin) {
            return Err(e);
        }
        let mut m = match Self::check_editable(market, total_bets) {
            Ok(m) => m,
            Err(e) => return Err(e),
        };
        m.tags = tags;
        Ok(m)
    }

    /// Overrides a market's oracle result (primary admin only), with a
    /// non-empty reason (`InvalidInput`) and a nonce above the admin's last
    /// one (`ReplayedOverride`). Returns the market, resolved with the given
    /// oracle result, and the nonce to store.
    pub fn admin_override_verification(
        market: Option<Market>,
        stored_admin: Option<AccountId>,
        admin: AccountId,
        outcome: String,
        reason: &String,
        provided_nonce: u64,
        stored_nonce: u64,
    ) -> (r: Result<(Market, u64), Error>)
        ensures
            r == (if stored_admin != Some(admin) {
                Err(Error::Unauthorized)
            } else if reason@.len() == 0 {
                Err(Error::InvalidInput)
            } else if market is None {
                Err(Error::MarketNotFound)
            } else if provided_nonce <= stored_nonce {
                Err(Error::ReplayedOverride)
            } else {
                Ok(
                    (
                        Market {
                            oracle_result: Some(outcome),
                            state: MarketState::Resolved,
                            ..market->0
                        },
                        provided_nonce,
                    ),
                )
            }),
    {
        if let Err(e) = FeeValidator::validate_admin_permissions(stored_admin, admin) {
            return Err(e);
        }
        if reason.as_str().is_empty() {
            return Err(Error::InvalidInput);
        }
        let mut m = match market {
            Some(m) => m,
            None => return Err(Error::MarketNotFound),
        };
        if provided_nonce <= stored_nonce {
            return Err(Error::ReplayedOverride);
        }
        m.oracle_result = Some(outcome);
        m.state = MarketState::Resolved;
        Ok((m, provided_nonce))
    }

    /// Checks a new governance minimum bet, in basis points (at most
    /// `MAX_BPS`, else `InvalidInput`), before the admin checks.
    pub fn set_governance_min_bet_bps(stored_admin: Option<AccountId>, admin: AccountId, min_bet_bps: u32) -> (r:
        Result<u32, Error>)
        ensures
            r == (if min_bet_bps > MAX_BPS {
                Err(Error::InvalidInput)
            } else {
                match admin_setting_error(stored_admin, admin) {
                    Some(e) => Err(e),
                    None => Ok(min_bet_bps),
                }
            }),
    {
        if min_bet_bps > MAX_BPS {
            return Err(Error::InvalidInput);
        }
        if let Err(e) = Self::check_setting_admin(stored_admin, admin) {
            return Err(e);
        }
        Ok(min_bet_bps)
    }

    /// Checks a new claim period for all markets: it must be positive
    /// (`InvalidInput`), before the admin checks.
    pub fn set_global_claim_period(
        stored_admin: Option<AccountId>,
        admin: AccountId,
        claim_period_seconds: u64,
    ) -> (r: Result<u64, Error>)
        ensures
            r == (if claim_period_seconds == 0 {
                Err(Error::InvalidInput)
            } else {
                match admin_setting_error(stored_admin, admin) {
                    Some(e) => Err(e),
                    None => Ok(claim_period_seconds),
                }
            }),
    {
        if claim_period_seconds == 0 {
            return Err(Error::InvalidInput);
        }
        if let Err(e) = Self::check_setting_admin(stored_admin, admin) {
            return Err(e);
        }
        Ok(claim_period_seconds)
    }

    /// Checks a new claim period for one market, which must exist
    /// (`MarketNotFound`), after the checks of `set_global_claim_period`.
    pub fn set_market_claim_period(
        stored_admin: Option<AccountId>,
        admin: AccountId,
        market_exists: bool,
        claim_period_seconds: u64,
    ) -> (r: Result<u64, Error>)
        ensures
            r == (if claim_period_seconds == 0 {
                Err(Error::InvalidInput)
            } else {
                match admin_setting_error(stored_admin, admin) {
                    Some(e) => Err(e),
                    None => if !market_exists {
                        Err(Error::MarketNotFound)
                    } else {
                        Ok(claim_period_seconds)
                    },
                }
            }),
    {
        let period = match Self::set_global_claim_period(stored_admin, admin, claim_period_seconds) {
            Ok(p) => p,
            Err(e) => return Err(e),
        };
        if !market_exists {
            return Err(Error::MarketNotFound);
        }
        Ok(period)
    }

    /// Checks a change of the treasury that receives swept winnings.
    pub fn set_treasury(stored_admin: Option<AccountId>, admin: AccountId, treasury: AccountId) -> (r: Result<
        AccountId,
        Error,
    >)
        ensures
            r == (match admin_setting_error(stored_admin, admin) {
                Some(e) => Err(e),
                None => Ok(treasury),
            }),
    {
        if let Err(e) = Self::check_setting_admin(stored_admin, admin) {
            return Err(e);
        }
        Ok(treasury)
    }

    /// The caller must be the stored admin, which must exist.
    fn check_setting_admin(stored_admin: Option<AccountId>, admin: AccountId) -> (r: Result<(), Error>)
        ensures
            r == (match admin_setting_error(stored_admin, admin) {
                Some(e) => Err(e),
                None => Ok(()),
            }),
    {
        match stored_admin {
            None => Err(Error::AdminNotSet),
            Some(a) => if a != admin {
                Err(Error::Unauthorized)
            } else {
                Ok(())
            },
        }
    }

    /// Checks a new minimum oracle confidence, in basis points (at most
    /// `MAX_BPS`, else `InvalidInput`).
    pub fn set_oracle_confidence_threshold(min_confidence_bps: u32) -> (r: Result<u32, Error>)
        ensures
            r == (if min_confidence_bps > MAX_BPS {
                Err(Error::InvalidInput)
            } else {
                Ok(min_confidence_bps)
            }),
    {
        if min_confidence_bps > MAX_BPS {
            return Err(Error::InvalidInput);
        }
        Ok(min_confidence_bps)
    }

    /// Adds a dispute fee to the running total: a negative fee is refused
    /// with `InvalidInput`, a total leaving the `i128` range with `Overflow`.
    pub fn accumulate_dispute_fee(current_total: i128, fee_amount: i128) -> (r: Result<i128, Error>)
        ensures
            r == (if fee_amount < 0 {
                Err(Error::InvalidInput)
            } else if current_total + fee_amount > i128::MAX {
                Err(Error::Overflow)
            } else {
                Ok((current_total + fee_amount) as i128)
            }),
    {
        if fee_amount < 0 {
            return Err(Error::InvalidInput);
        }
        match current_total.checked_add(fee_amount) {
            Some(t) => Ok(t),
            None => Err(Error::Overflow),
        }
    }
}

// ===== LAWS =====

/// A user who has voted on a market can never vote on it again: whatever
/// the outcome, stake and time, a vote by the same user on the market that
/// recorded the first vote is refused.
pub proof fn lemma_vote_once(m: Market, after: Market, user: AccountId, stake: i128, outcome: String, other_outcome: Seq<char>, later: u64)
    requires
        after.votes@ == m.votes@.push(Vote { user, outcome, stake }),
    ensures
        vote_error(after, user, other_outcome, later) is Some,
        after.state == MarketState::Active && later < voting_cutoff(after) && outcome_in(
            after.outcomes@,
            other_outcome,
        ) ==> vote_error(after, user, other_outcome, later) == Some(Error::AlreadyVoted),
{
    let n = m.votes@.len() as int;
    assert(after.votes@[n].user == user);
    assert(voted(after.votes@, user));
}

/// Cancelling is final and idempotent: a market that a cancellation (or a
/// refund after an oracle failure) has cancelled is returned unchanged, with
/// nothing more to refund, by every later cancellation or refund.
pub proof fn lemma_cancel_idempotent(
    m: Market,
    stored_admin: Option<AccountId>,
    admin: AccountId,
    caller: AccountId,
    now: u64,
)
    requires
        m.state == MarketState::Cancelled,
    ensures
        stored_admin == Some(admin) ==> cancel_decision(Some(m), stored_admin, admin) == Ok::<
            bool,
            Error,
        >(false),
        refund_decision(Some(m), stored_admin, caller, now) == Ok::<bool, Error>(false),
{
}

/// The admin can cancel every market that is active or has ended without
/// being resolved, for a refund of its whole pool; nobody else can cancel,
/// and a resolved market is never cancelled.
pub proof fn lemma_cancel_active_or_ended(m: Market, stored_admin: Option<AccountId>, admin: AccountId)
    ensures
        stored_admin == Some(admin) && (m.state == MarketState::Active || m.state
            == MarketState::Ended) ==> cancel_decision(Some(m), stored_admin, admin) == Ok::<
            bool,
            Error,
        >(true),
        stored_admin != Some(admin) ==> cancel_decision(Some(m), stored_admin, admin) == Err::<
            bool,
            Error,
        >(Error::Unauthorized),
        stored_admin == Some(admin) && m.state == MarketState::Resolved ==> cancel_decision(
            Some(m),
            stored_admin,
            admin,
        ) == Err::<bool, Error>(Error::MarketResolved),
{
}

/// A new market's times: it ends `duration_days` whole days (86,400
/// seconds each) after its creation, later for a longer duration; voting
/// closes the given number of minutes before the end, never before time 0
/// and never after the end; and voting on it closes no later than its end.
pub proof fn lemma_market_times(now: u64, duration_days: u32, mins: Option<u64>, d2: u32)
    requires
        duration_days <= d2,
    ensures
        market_end_time(now, duration_days) == now + duration_days * 86_400,
        market_end_time(now, duration_days) <= market_end_time(now, d2),
        duration_days > 0 ==> market_end_time(now, duration_days) > now,
        mins is None ==> bet_deadline_for(market_end_time(now, duration_days), mins) == 0,
        mins matches Some(m) ==> bet_deadline_for(market_end_time(now, duration_days), mins) == if m
            * 60 >= market_end_time(now, duration_days) {
            0
        } else {
            market_end_time(now, duration_days) - m * 60
        },
        0 <= bet_deadline_for(market_end_time(now, duration_days), mins) <= market_end_time(
            now,
            duration_days,
        ),
{
}

} // verus!
