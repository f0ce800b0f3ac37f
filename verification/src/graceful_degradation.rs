use vstd::prelude::*;

use crate::errors::Error;
use crate::market::PredictifyHybrid;

verus! {

/// Consecutive bad samples that move a working oracle to `Degraded`.
pub const ORACLE_HEALTH_DEGRADED_THRESHOLD: u32 = 3;

/// Consecutive good samples that bring an unhealthy oracle back to `Working`.
pub const ORACLE_HEALTH_RECOVERY_THRESHOLD: u32 = 3;

/// Timeouts above this many seconds count as a bad health sample.
pub const ORACLE_TIMEOUT_THRESHOLD_SECONDS: u32 = 60;

/// Minimum confidence for resolving from partial oracle data.
pub const PARTIAL_DATA_MIN_CONFIDENCE: i128 = 70;

/// Oracle providers the contract knows.
#[derive(Clone, Copy, Debug, PartialEq, Eq, Structural)]
pub enum OracleProvider {
    BandProtocol,
    DIA,
    Reflector,
    Pyth,
}

impl OracleProvider {
    pub fn reflector() -> (r: OracleProvider)
        ensures
            r == OracleProvider::Reflector,
    {
        OracleProvider::Reflector
    }

    pub fn pyth() -> (r: OracleProvider)
        ensures
            r == OracleProvider::Pyth,
    {
        OracleProvider::Pyth
    }

    pub fn dia() -> (r: OracleProvider)
        ensures
            r == OracleProvider::DIA,
    {
        OracleProvider::DIA
    }

    pub fn band_protocol() -> (r: OracleProvider)
        ensures
            r == OracleProvider::BandProtocol,
    {
        OracleProvider::BandProtocol
    }

    /// The provider's name.
    pub fn as_str(&self) -> (r: &'static str)
        ensures
            r@ == provider_name(*self),
    {
        match self {
            OracleProvider::BandProtocol => "band_protocol",
            OracleProvider::DIA => "dia",
            OracleProvider::Reflector => "reflector",
            OracleProvider::Pyth => "pyth",
        }
    }
}

/// The name of a provider.
pub open spec fn provider_name(p: OracleProvider) -> Seq<char> {
    match p {
        OracleProvider::BandProtocol => "band_protocol"@,
        OracleProvider::DIA => "dia"@,
        OracleProvider::Reflector => "reflector"@,
        OracleProvider::Pyth => "pyth"@,
    }
}

/// Health of an oracle.
#[derive(Clone, Copy, Debug, PartialEq, Eq, Structural)]
pub enum OracleHealth {
    Working,
    Degraded,
    Broken,
}

/// Strategy for handling a degraded oracle.
#[derive(Clone, Copy, Debug, PartialEq, Eq, Structural)]
pub enum DegradationStrategy {
    UseBackup,
    ManualFix,
}

/// Oracle data that may be incomplete.
#[derive(Clone, Copy, Debug, PartialEq, Eq, Structural)]
pub struct PartialData {
    pub price: Option<i128>,
    pub confidence: i128,
    pub timestamp: u64,
}

/// Storage key of an oracle's degradation state.
#[derive(Clone, Copy, Debug, PartialEq, Eq, Structural)]
pub enum DegradationStorageKey {
    OracleHealth(OracleProvider),
}

/// Stored health record of an oracle, with its hysteresis counters.
pub struct OracleDegradationState {
    pub health: OracleHealth,
    pub consecutive_failures: u32,
    pub consecutive_good: u32,
    /// Timeouts since the last good sample, counted apart from failed
    /// samples.
    pub consecutive_timeouts: u32,
    pub last_reason: String,
    pub updated_at: u64,
}

/// A change of an oracle's health, to be reported to observers.
#[derive(Clone, Copy, Debug, PartialEq, Eq, Structural)]
pub struct HealthTransition {
    pub was_working: bool,
    pub is_working: bool,
    pub consecutive_failures: u32,
}

/// The health part of a degradation state: health and its streaks.
pub struct HealthCounters {
    pub health: OracleHealth,
    pub failures: u32,
    pub good: u32,
    pub timeouts: u32,
}

/// Counters of a fresh oracle: working, no samples.
pub open spec fn fresh_counters() -> HealthCounters {
    HealthCounters { health: OracleHealth::Working, failures: 0, good: 0, timeouts: 0 }
}

/// The counters of a stored state, or fresh ones.
pub open spec fn counters_of(previous: Option<OracleDegradationState>) -> HealthCounters {
    match previous {
        Some(s) => HealthCounters {
            health: s.health,
            failures: s.consecutive_failures,
            good: s.consecutive_good,
            timeouts: s.consecutive_timeouts,
        },
        None => fresh_counters(),
    }
}

/// `a + 1`, saturated at `u32::MAX`.
pub open spec fn sat_inc(a: u32) -> u32 {
    if a == u32::MAX {
        a
    } else {
        (a + 1) as u32
    }
}

/// One hysteresis step: a `Working` sample counts as good, any other as
/// bad. A working oracle turns `Degraded` after enough consecutive bad
/// samples; an unhealthy one turns `Working` after enough consecutive good
/// samples; otherwise the health stays and only the counters move. A good
/// sample also ends the timeout streak; a bad one leaves it as it is.
pub open spec fn health_step(c: HealthCounters, sample: OracleHealth) -> HealthCounters {
    if sample == OracleHealth::Working {
        let good = sat_inc(c.good);
        let health = if c.health == OracleHealth::Working {
            OracleHealth::Working
        } else if good >= ORACLE_HEALTH_RECOVERY_THRESHOLD {
            OracleHealth::Working
        } else {
            c.health
        };
        HealthCounters { health, failures: 0, good, timeouts: 0 }
    } else {
        let failures = sat_inc(c.failures);
        let health = if c.health != OracleHealth::Working {
            c.health
        } else if failures >= ORACLE_HEALTH_DEGRADED_THRESHOLD {
            OracleHealth::Degraded
        } else {
            OracleHealth::Working
        };
        HealthCounters { health, failures, good: 0, timeouts: c.timeouts }
    }
}

/// One timeout: it ends the good streak and extends the timeout streak,
/// which is counted apart from failed samples. A working oracle turns
/// `Degraded` after enough consecutive timeouts.
pub open spec fn timeout_step(c: HealthCounters) -> HealthCounters {
    let timeouts = sat_inc(c.timeouts);
    let health = if c.health != OracleHealth::Working {
        c.health
    } else if timeouts >= ORACLE_HEALTH_DEGRADED_THRESHOLD {
        OracleHealth::Degraded
    } else {
        OracleHealth::Working
    };
    HealthCounters { health, failures: c.failures, good: 0, timeouts }
}

/// The counters after a series of samples (`true`: good).
pub open spec fn replay(c: HealthCounters, samples: Seq<bool>) -> HealthCounters
    decreases samples.len(),
{
    if samples.len() == 0 {
        c
    } else {
        health_step(
            replay(c, samples.drop_last()),
            if samples.last() {
                OracleHealth::Working
            } else {
                OracleHealth::Degraded
            },
        )
    }
}

/// The storage key of an oracle's degradation state.
pub fn degradation_key(oracle: &OracleProvider) -> (r: DegradationStorageKey)
    ensures
        r == DegradationStorageKey::OracleHealth(*oracle),
{
    DegradationStorageKey::OracleHealth(*oracle)
}

/// Records a health sample through the hysteresis gate. Returns the new
/// stored state and, when the health changed, the transition to report.
pub fn record_oracle_health(
    previous: &Option<OracleDegradationState>,
    sample: OracleHealth,
    reason: String,
    now: u64,
) -> (r: (OracleDegradationState, Option<HealthTransition>))
    ensures
        ({
            let prev = counters_of(*previous);
            let next = health_step(prev, sample);
            &&& r.0.health == next.health
            &&& r.0.consecutive_failures == next.failures
            &&& r.0.consecutive_good == next.good
            &&& r.0.consecutive_timeouts == next.timeouts
            &&& r.0.last_reason@ == reason@
            &&& r.0.updated_at == now
            &&& r.1 is Some <==> next.health != prev.health
            &&& r.1 matches Some(t) ==> t.was_working == (prev.health == OracleHealth::Working)
                && t.is_working == (next.health == OracleHealth::Working) && t.consecutive_failures
                == next.failures
        }),
{
    let (prev_health, prev_failures, prev_good, prev_timeouts) = match previous {
        Some(s) => (s.health, s.consecutive_failures, s.consecutive_good, s.consecutive_timeouts),
        None => (OracleHealth::Working, 0u32, 0u32, 0u32),
    };
    let new_timeouts: u32 = if sample == OracleHealth::Working {
        0
    } else {
        prev_timeouts
    };
    let (new_health, new_failures, new_good, changed) = match sample {
        OracleHealth::Working => {
            let good = prev_good.saturating_add(1);
            let failures: u32 = 0;
            if prev_health == OracleHealth::Working {
                (OracleHealth::Working, failures, good, false)
            } else if good >= ORACLE_HEALTH_RECOVERY_THRESHOLD {
                (OracleHealth::Working, failures, good, true)
            } else {
                (prev_health, failures, good, false)
            }
        },
        OracleHealth::Degraded | OracleHealth::Broken => {
            let failures = prev_failures.saturating_add(1);
            let good: u32 = 0;
            match prev_health {
                OracleHealth::Degraded | OracleHealth::Broken => (prev_health, failures, good, false),
                OracleHealth::Working => {
                    if failures >= ORACLE_HEALTH_DEGRADED_THRESHOLD {
                        (OracleHealth::Degraded, failures, good, true)
                    } else {
                        (OracleHealth::Working, failures, good, false)
                    }
                },
            }
        },
    };
    let transition = if changed {
        Some(
            HealthTransition {
                was_working: prev_health == OracleHealth::Working,
                is_working: new_health == OracleHealth::Working,
                consecutive_failures: new_failures,
            },
        )
    } else {
        None
    };
    let state = OracleDegradationState {
        health: new_health,
        consecutive_failures: new_failures,
        consecutive_good: new_good,
        consecutive_timeouts: new_timeouts,
        last_reason: reason,
        updated_at: now,
    };
    (state, transition)
}

/// Basic oracle backup system: a primary and a backup provider.
#[derive(Clone, Copy, Debug, PartialEq, Eq, Structural)]
pub struct OracleBackup {
    pub primary: OracleProvider,
    pub backup: OracleProvider,
}

/// What querying one provider yields: no provider integration is enabled
/// in this contract, so every provider reports itself unavailable.
pub open spec fn oracle_response(oracle: OracleProvider) -> Result<i128, Error> {
    Err(Error::OracleUnavailable)
}

/// Outcome of a price lookup through the backup system.
#[derive(Clone, Copy, Debug, PartialEq, Eq)]
pub struct PriceLookup {
    /// The price, or the error returned to the caller.
    pub result: Result<i128, Error>,
    /// Whether the primary oracle answered (a good health sample for it).
    pub primary_ok: bool,
    /// Whether the backup oracle was asked and failed too.
    pub backup_failed: bool,
}

impl OracleBackup {
    pub fn new(primary: OracleProvider, backup: OracleProvider) -> (r: Self)
        ensures
            r.primary == primary,
            r.backup == backup,
    {
        Self { primary, backup }
    }

    /// Queries one provider.
    pub fn call_oracle(&self, oracle: &OracleProvider) -> (r: Result<i128, Error>)
        ensures
            r == oracle_response(*oracle),
    {
        match oracle {
            OracleProvider::Reflector => Err(Error::OracleUnavailable),
            _ => Err(Error::OracleUnavailable),
        }
    }

    /// Price from the primary oracle, falling back to the backup; when both
    /// fail the caller gets `FallbackOracleUnavailable`.
    pub fn get_price(&self) -> (r: PriceLookup)
        ensures
            r.primary_ok == (oracle_response(self.primary) is Ok),
            r.primary_ok ==> r.result == oracle_response(self.primary) && !r.backup_failed,
            !r.primary_ok ==> r.backup_failed == (oracle_response(self.backup) is Err),
            !r.primary_ok && oracle_response(self.backup) is Ok ==> r.result == oracle_response(
                self.backup,
            ),
            !r.primary_ok && oracle_response(self.backup) is Err ==> r.result == Err::<i128, Error>(
                Error::FallbackOracleUnavailable,
            ),
    {
        let primary = self.call_oracle(&self.primary);
        if let Ok(price) = primary {
            return PriceLookup { result: Ok(price), primary_ok: true, backup_failed: false };
        }
        let backup_result = self.call_oracle(&self.backup);
        if backup_result.is_err() {
            return PriceLookup {
                result: Err(Error::FallbackOracleUnavailable),
                primary_ok: false,
                backup_failed: true,
            };
        }
        PriceLookup { result: backup_result, primary_ok: false, backup_failed: false }
    }

    /// Whether the primary oracle answers a probe; its error otherwise.
    pub fn is_working(&self) -> (r: Result<bool, Error>)
        ensures
            match oracle_response(self.primary) {
                Ok(_) => r == Ok::<bool, Error>(true),
                Err(e) => r == Err::<bool, Error>(e),
            },
    {
        match self.call_oracle(&self.primary) {
            Ok(_) => Ok(true),
            Err(e) => Err(e),
        }
    }
}

/// Price through a primary oracle with a fallback.
pub fn fallback_oracle_call(primary_oracle: OracleProvider, fallback_oracle: OracleProvider) -> (r:
    PriceLookup)
    ensures
        r == (OracleBackup { primary: primary_oracle, backup: fallback_oracle }).get_price_spec(),
{
    let backup = OracleBackup::new(primary_oracle, fallback_oracle);
    backup.get_price()
}

impl OracleBackup {
    /// The lookup that `get_price` returns.
    pub open spec fn get_price_spec(self) -> PriceLookup {
        match oracle_response(self.primary) {
            Ok(p) => PriceLookup { result: Ok(p), primary_ok: true, backup_failed: false },
            Err(_) => match oracle_response(self.backup) {
                Ok(p) => PriceLookup { result: Ok(p), primary_ok: false, backup_failed: false },
                Err(_) => PriceLookup {
                    result: Err(Error::FallbackOracleUnavailable),
                    primary_ok: false,
                    backup_failed: true,
                },
            },
        }
    }
}

/// The state a probe of `oracle` records over `previous` at `now`, with the
/// transition to report: the probe's sample passed through the hysteresis
/// step, the probe's reason, and a transition exactly when the health
/// changed (with the old and new health and the failure count).
pub open spec fn probe_recorded(
    oracle: OracleProvider,
    previous: Option<OracleDegradationState>,
    now: u64,
    s: OracleDegradationState,
    t: Option<HealthTransition>,
) -> bool {
    let working = oracle_response(oracle) is Ok;
    let prev = counters_of(previous);
    let next = health_step(
        prev,
        if working {
            OracleHealth::Working
        } else {
            OracleHealth::Degraded
        },
    );
    &&& s.health == next.health
    &&& s.consecutive_failures == next.failures
    &&& s.consecutive_good == next.good
    &&& s.consecutive_timeouts == next.timeouts
    &&& s.updated_at == now
    &&& s.last_reason@ == (if working {
        "Oracle probe succeeded"@
    } else {
        "Oracle probe failed"@
    })
    &&& (t is Some <==> next.health != prev.health)
    &&& (t matches Some(tr) ==> tr.was_working == (prev.health == OracleHealth::Working)
        && tr.is_working == (next.health == OracleHealth::Working) && tr.consecutive_failures
        == next.failures)
}

/// Probes an oracle and records the sample: returns the health after the
/// hysteresis gate, the new state and the transition to report.
pub fn monitor_oracle_health(
    oracle: OracleProvider,
    previous: &Option<OracleDegradationState>,
    now: u64,
) -> (r: (OracleHealth, OracleDegradationState, Option<HealthTransition>))
    ensures
        r.0 == r.1.health,
        probe_recorded(oracle, *previous, now, r.1, r.2),
{
    let backup = OracleBackup::new(oracle, oracle);
    let working = match backup.is_working() {
        Ok(w) => w,
        Err(_) => false,
    };
    let sample = if working {
        OracleHealth::Working
    } else {
        OracleHealth::Degraded
    };
    let reason = if working {
        "Oracle probe succeeded".to_owned()
    } else {
        "Oracle probe failed".to_owned()
    };
    let (state, transition) = record_oracle_health(previous, sample, reason, now);
    (state.health, state, transition)
}

/// Health reported for an oracle after probing it.
pub fn get_degradation_status(
    oracle: OracleProvider,
    previous: &Option<OracleDegradationState>,
    now: u64,
) -> (r: (OracleHealth, OracleDegradationState, Option<HealthTransition>))
    ensures
        r.0 == r.1.health,
        probe_recorded(oracle, *previous, now, r.1, r.2),
{
    monitor_oracle_health(oracle, previous, now)
}

/// The word for a health: `"working"`, `"degraded"` or `"broken"`.
pub open spec fn health_name(h: OracleHealth) -> Seq<char> {
    match h {
        OracleHealth::Working => "working"@,
        OracleHealth::Degraded => "degraded"@,
        OracleHealth::Broken => "broken"@,
    }
}

impl PredictifyHybrid {
    /// Probes an oracle through the hysteresis gate (as
    /// `monitor_oracle_health`) and reports its health as a word, with the
    /// new state and the transition to report.
    pub fn check_oracle_status(
        oracle: OracleProvider,
        previous: &Option<OracleDegradationState>,
        now: u64,
    ) -> (r: (String, OracleDegradationState, Option<HealthTransition>))
        ensures
            r.0@ == health_name(r.1.health),
            probe_recorded(oracle, *previous, now, r.1, r.2),
    {
        let (health, state, transition) = monitor_oracle_health(oracle, previous, now);
        let word = match health {
            OracleHealth::Working => "working".to_owned(),
            OracleHealth::Degraded => "degraded".to_owned(),
            OracleHealth::Broken => "broken".to_owned(),
        };
        (word, state, transition)
    }
}

/// The state a timeout records over `previous` at `now`, with the
/// transition to report: the timeout step, the reason "Oracle timeout", and
/// a transition exactly when the health changed (with the old and new
/// health and the timeout streak).
pub open spec fn timeout_recorded(
    previous: Option<OracleDegradationState>,
    now: u64,
    s: OracleDegradationState,
    t: Option<HealthTransition>,
) -> bool {
    let prev = counters_of(previous);
    let next = timeout_step(prev);
    &&& s.health == next.health
    &&& s.consecutive_failures == next.failures
    &&& s.consecutive_good == next.good
    &&& s.consecutive_timeouts == next.timeouts
    &&& s.updated_at == now
    &&& s.last_reason@ == "Oracle timeout"@
    &&& (t is Some <==> next.health != prev.health)
    &&& (t matches Some(tr) ==> tr.was_working == (prev.health == OracleHealth::Working)
        && tr.is_working == (next.health == OracleHealth::Working) && tr.consecutive_failures
        == next.timeouts)
}

/// A timeout above the threshold extends the oracle's timeout streak
/// through the hysteresis gate; shorter ones record nothing (`None`).
pub fn handle_oracle_timeout(
    previous: &Option<OracleDegradationState>,
    timeout_seconds: u32,
    now: u64,
) -> (r: Option<(OracleDegradationState, Option<HealthTransition>)>)
    ensures
        timeout_seconds <= ORACLE_TIMEOUT_THRESHOLD_SECONDS ==> r is None,
        timeout_seconds > ORACLE_TIMEOUT_THRESHOLD_SECONDS ==> (r matches Some((s, t))
            && timeout_recorded(*previous, now, s, t)),
{
    if timeout_seconds <= ORACLE_TIMEOUT_THRESHOLD_SECONDS {
        return None;
    }
    let (prev_health, prev_failures, prev_timeouts) = match previous {
        Some(s) => (s.health, s.consecutive_failures, s.consecutive_timeouts),
        None => (OracleHealth::Working, 0u32, 0u32),
    };
    let timeouts = prev_timeouts.saturating_add(1);
    let health = if prev_health != OracleHealth::Working {
        prev_health
    } else if timeouts >= ORACLE_HEALTH_DEGRADED_THRESHOLD {
        OracleHealth::Degraded
    } else {
        OracleHealth::Working
    };
    let transition = if health != prev_health {
        Some(
            HealthTransition {
                was_working: prev_health == OracleHealth::Working,
                is_working: health == OracleHealth::Working,
                consecutive_failures: timeouts,
            },
        )
    } else {
        None
    };
    let state = OracleDegradationState {
        health,
        consecutive_failures: prev_failures,
        consecutive_good: 0,
        consecutive_timeouts: timeouts,
        last_reason: "Oracle timeout".to_owned(),
        updated_at: now,
    };
    Some((state, transition))
}

/// Resolves from partial data when it carries a price with enough
/// confidence; otherwise manual resolution is needed.
pub fn partial_resolution_mechanism(available_data: &PartialData) -> (r: Result<String, Error>)
    ensures
        available_data.confidence >= PARTIAL_DATA_MIN_CONFIDENCE && available_data.price is Some
            ==> (r matches Ok(s) && s@ == "resolved"@),
        !(available_data.confidence >= PARTIAL_DATA_MIN_CONFIDENCE && available_data.price is Some)
            ==> r == Err::<String, Error>(Error::OracleUnavailable),
{
    if available_data.confidence >= PARTIAL_DATA_MIN_CONFIDENCE && available_data.price.is_some() {
        return Ok("resolved".to_owned());
    }
    Err(Error::OracleUnavailable)
}

/// Every degradation strategy is acceptable.
pub fn validate_degradation_strategy(strategy: DegradationStrategy) -> (r: Result<(), Error>)
    ensures
        r is Ok,
{
    Ok(())
}

// ===== LAWS =====

/// Three successive status probes of an oracle that does not answer,
/// starting from no recorded state and each carrying the state the one
/// before recorded, report `Working`, `Working`, then `Degraded`.
pub proof fn lemma_failing_probes_degrade_on_third(
    oracle: OracleProvider,
    s1: OracleDegradationState,
    t1: Option<HealthTransition>,
    s2: OracleDegradationState,
    t2: Option<HealthTransition>,
    s3: OracleDegradationState,
    t3: Option<HealthTransition>,
    n1: u64,
    n2: u64,
    n3: u64,
)
    requires
        oracle_response(oracle) is Err,
        probe_recorded(oracle, None, n1, s1, t1),
        probe_recorded(oracle, Some(s1), n2, s2, t2),
        probe_recorded(oracle, Some(s2), n3, s3, t3),
    ensures
        s1.health == OracleHealth::Working,
        s2.health == OracleHealth::Working,
        s3.health == OracleHealth::Degraded,
        t1 is None && t2 is None && t3 is Some,
{
}

/// Timeouts and failed probes are counted apart: from no recorded state,
/// timeout, probe, timeout, probe of an oracle that does not answer leave
/// it `Working` at each probe, and the third timeout degrades it.
pub proof fn lemma_timeouts_counted_apart_from_probes(
    oracle: OracleProvider,
    s1: OracleDegradationState,
    t1: Option<HealthTransition>,
    s2: OracleDegradationState,
    t2: Option<HealthTransition>,
    s3: OracleDegradationState,
    t3: Option<HealthTransition>,
    s4: OracleDegradationState,
    t4: Option<HealthTransition>,
    s5: OracleDegradationState,
    t5: Option<HealthTransition>,
    n: u64,
)
    requires
        oracle_response(oracle) is Err,
        timeout_recorded(None, n, s1, t1),
        probe_recorded(oracle, Some(s1), n, s2, t2),
        timeout_recorded(Some(s2), n, s3, t3),
        probe_recorded(oracle, Some(s3), n, s4, t4),
        timeout_recorded(Some(s4), n, s5, t5),
    ensures
        s2.health == OracleHealth::Working,
        s4.health == OracleHealth::Working,
        s5.health == OracleHealth::Degraded,
        t5 is Some,
{
}

/// A timeout leaves the failure streak as it is, and a failed sample
/// leaves the timeout streak as it is.
pub proof fn lemma_streaks_counted_apart(c: HealthCounters, sample: OracleHealth)
    requires
        sample != OracleHealth::Working,
    ensures
        timeout_step(c).failures == c.failures,
        health_step(c, sample).timeouts == c.timeouts,
{
}

/// Three consecutive bad samples leave an oracle unhealthy, whatever its
/// state before.
pub proof fn lemma_three_bad_samples_degrade(c: HealthCounters)
    ensures
        ({
            let c3 = health_step(
                health_step(health_step(c, OracleHealth::Degraded), OracleHealth::Degraded),
                OracleHealth::Degraded,
            );
            c3.health != OracleHealth::Working && c3.good == 0 && c3.failures >= 3
        }),
{
}

/// Three consecutive good samples bring an oracle back to `Working`,
/// whatever its state before.
pub proof fn lemma_three_good_samples_recover(c: HealthCounters)
    ensures
        ({
            let c3 = health_step(
                health_step(health_step(c, OracleHealth::Working), OracleHealth::Working),
                OracleHealth::Working,
            );
            c3.health == OracleHealth::Working && c3.failures == 0 && c3.good >= 3
        }),
{
}

/// From a working oracle without failures, one bad sample and then a
/// second bad sample both leave it `Working`; only a third degrades it.
pub proof fn lemma_two_bad_samples_keep_working(c: HealthCounters)
    requires
        c.health == OracleHealth::Working,
        c.failures == 0,
    ensures
        health_step(c, OracleHealth::Degraded).health == OracleHealth::Working,
        health_step(health_step(c, OracleHealth::Degraded), OracleHealth::Degraded).health
            == OracleHealth::Working,
{
}

/// A good sample clears the failure streak, a bad one the good streak, and
/// a sample can only change the health in the direction it points to.
pub proof fn lemma_sample_resets_opposite_streak(c: HealthCounters, sample: OracleHealth)
    ensures
        sample == OracleHealth::Working ==> health_step(c, sample).failures == 0 && (health_step(
            c,
            sample,
        ).health == c.health || health_step(c, sample).health == OracleHealth::Working),
        sample != OracleHealth::Working ==> health_step(c, sample).good == 0 && (health_step(
            c,
            sample,
        ).health == c.health || health_step(c, sample).health == OracleHealth::Degraded),
{
}

/// Replaying samples: the health after any series whose last three
/// samples are bad is not `Working`; after three good ones it is.
pub proof fn lemma_replay_tail(c: HealthCounters, samples: Seq<bool>)
    requires
        samples.len() >= 3,
    ensures
        !samples[samples.len() - 1] && !samples[samples.len() - 2] && !samples[samples.len() - 3]
            ==> replay(c, samples).health != OracleHealth::Working,
        samples[samples.len() - 1] && samples[samples.len() - 2] && samples[samples.len() - 3]
            ==> replay(c, samples).health == OracleHealth::Working,
{
    let s1 = samples.drop_last();
    let s2 = s1.drop_last();
    let s3 = s2.drop_last();
    let c0 = replay(c, s3);
    assert(replay(c, s2) == health_step(c0, if s2.last() { OracleHealth::Working } else { OracleHealth::Degraded }));
    assert(replay(c, s1) == health_step(replay(c, s2), if s1.last() { OracleHealth::Working } else { OracleHealth::Degraded }));
    lemma_three_bad_samples_degrade(c0);
    lemma_three_good_samples_recover(c0);
}

} // verus!
