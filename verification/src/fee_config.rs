use vstd::prelude::*;

use crate::errors::Error;
use crate::fees::{
    fee_config_valid, FeeConfig, FeeManager, FeeValidator, FEE_COLLECTION_THRESHOLD,
    MARKET_CREATION_FEE, MAX_FEE_AMOUNT, MIN_DELAY_LEDGERS, MIN_FEE_AMOUNT,
    PLATFORM_FEE_PERCENTAGE,
};
use crate::digest::{sha256, sha256_digest};
use crate::market::AccountId;
use soroban_sdk::Env;

verus! {

/// Commitment to a fee configuration that is revealed later.
#[derive(Clone, Copy, Debug, PartialEq, Eq)]
pub struct FeeConfigCommit {
    /// Committed SHA-256 digest of the fee configuration
    pub hash: [u8; 32],
    /// Ledger sequence number when committed
    pub committed_at: u32,
}

/// A fee configuration that was replaced, kept to settle older bets.
#[derive(Clone, Copy, Debug, PartialEq, Eq)]
pub struct HistoricalFeeConfig {
    /// The fee configuration active at the time
    pub config: FeeConfig,
    /// Unix timestamp when this configuration was replaced
    pub replaced_at: u64,
}

/// The stored fee configuration state: the active configuration, the
/// history of replaced ones, a pending commitment and a queued update.
pub struct FeeConfigStore {
    pub active: Option<FeeConfig>,
    pub history: Vec<HistoricalFeeConfig>,
    pub commit: Option<FeeConfigCommit>,
    pub pending: Option<FeeConfig>,
    pub pending_eta: Option<u64>,
    pub last_change: Option<u64>,
}

/// Mathematical model of the fee configuration state.
pub struct FeeConfigState {
    pub active: Option<FeeConfig>,
    pub history: Seq<HistoricalFeeConfig>,
    pub commit: Option<FeeConfigCommit>,
    pub pending: Option<FeeConfig>,
    pub pending_eta: Option<u64>,
    pub last_change: Option<u64>,
}

impl View for FeeConfigStore {
    type V = FeeConfigState;

    open spec fn view(&self) -> FeeConfigState {
        FeeConfigState {
            active: self.active,
            history: self.history@,
            commit: self.commit,
            pending: self.pending,
            pending_eta: self.pending_eta,
            last_change: self.last_change,
        }
    }
}

/// Fee configuration management with a governance time-lock.
pub struct FeeConfigManager;

/// The default fee configuration.
pub open spec fn default_fee_config() -> FeeConfig {
    FeeConfig {
        platform_fee_percentage: PLATFORM_FEE_PERCENTAGE,
        creation_fee: MARKET_CREATION_FEE,
        min_fee_amount: MIN_FEE_AMOUNT,
        max_fee_amount: MAX_FEE_AMOUNT,
        collection_threshold: FEE_COLLECTION_THRESHOLD,
        fees_enabled: true,
    }
}

/// The configuration in force: the active one, or the defaults.
pub open spec fn config_in_force(s: FeeConfigState) -> FeeConfig {
    match s.active {
        Some(c) => c,
        None => default_fee_config(),
    }
}

/// The configuration that applied at `timestamp`: the first history entry
/// replaced after `timestamp`, or `fallback` when none was.
pub open spec fn config_at(h: Seq<HistoricalFeeConfig>, fallback: FeeConfig, timestamp: u64) -> FeeConfig
    decreases h.len(),
{
    if h.len() == 0 {
        fallback
    } else if h[0].replaced_at > timestamp {
        h[0].config
    } else {
        config_at(h.drop_first(), fallback, timestamp)
    }
}

/// The fee rate (bps) of a configuration: 0 when fees are disabled.
pub open spec fn config_rate(c: FeeConfig) -> i128 {
    if c.fees_enabled {
        c.platform_fee_percentage
    } else {
        0
    }
}

/// Effect of queueing an update.
pub open spec fn queue_update_spec(
    s: FeeConfigState,
    stored_admin: Option<AccountId>,
    admin: AccountId,
    new_config: FeeConfig,
    eta: u64,
    now: u64,
) -> Result<FeeConfigState, Error> {
    if stored_admin != Some(admin) {
        Err(Error::Unauthorized)
    } else if !fee_config_valid(new_config) {
        Err(Error::InvalidInput)
    } else if eta <= now {
        Err(Error::InvalidInput)
    } else {
        Ok(FeeConfigState { pending: Some(new_config), pending_eta: Some(eta), ..s })
    }
}

/// Effect of applying the queued update at `now`.
pub open spec fn apply_update_spec(s: FeeConfigState, now: u64) -> Result<FeeConfigState, Error> {
    match s.pending_eta {
        None => Err(Error::ConfigNotFound),
        Some(eta) => if now < eta {
            Err(Error::InvalidInput)
        } else {
            match s.pending {
                None => Err(Error::ConfigNotFound),
                Some(c) => Ok(FeeConfigState { active: Some(c), pending: None, pending_eta: None, ..s }),
            }
        },
    }
}

/// The first ledger at which a commitment made at `committed_at` can be
/// revealed.
pub open spec fn reveal_ledger(committed_at: u32) -> int {
    if committed_at + MIN_DELAY_LEDGERS > u32::MAX {
        u32::MAX as int
    } else {
        committed_at + MIN_DELAY_LEDGERS
    }
}

/// Effect of revealing a committed configuration.
pub open spec fn reveal_spec(
    s: FeeConfigState,
    new_config: FeeConfig,
    config_hash: Seq<u8>,
    current_ledger: u32,
    now: u64,
) -> Result<FeeConfigState, Error> {
    match s.commit {
        None => Err(Error::NoPendingFeeCommit),
        Some(c) => if current_ledger < reveal_ledger(c.committed_at) {
            Err(Error::FeeRevealTooEarly)
        } else if config_hash != c.hash@ {
            Err(Error::FeePreimageMismatch)
        } else if !fee_config_valid(new_config) {
            Err(Error::InvalidInput)
        } else {
            Ok(
                FeeConfigState {
                    active: Some(new_config),
                    history: s.history.push(
                        HistoricalFeeConfig { config: config_in_force(s), replaced_at: now },
                    ),
                    commit: None,
                    last_change: Some(now),
                    ..s
                },
            )
        },
    }
}

proof fn lemma_config_at_step(h: Seq<HistoricalFeeConfig>, fallback: FeeConfig, timestamp: u64, i: int)
    requires
        0 <= i < h.len(),
    ensures
        config_at(h.skip(i), fallback, timestamp) == (if h[i].replaced_at > timestamp {
            h[i].config
        } else {
            config_at(h.skip(i + 1), fallback, timestamp)
        }),
{
    assert(h.skip(i).drop_first() =~= h.skip(i + 1));
}

/// Compares two digests byte by byte.
fn digests_equal(a: &[u8; 32], b: &[u8; 32]) -> (r: bool)
    ensures
        r == (a@ == b@),
{
    let mut i: usize = 0;
    while i < 32
        invariant
            0 <= i <= 32,
            a@.len() == 32,
            b@.len() == 32,
            forall|j: int| 0 <= j < i ==> a@[j] == b@[j],
        decreases 32 - i,
    {
        if a[i] != b[i] {
            return false;
        }
        i = i + 1;
    }
    assert(a@ =~= b@);
    true
}

impl FeeConfigManager {
    /// An empty store: defaults in force, nothing pending.
    pub fn new_store() -> (r: FeeConfigStore)
        ensures
            r@.active is None,
            r@.history.len() == 0,
            r@.commit is None,
            r@.pending is None,
            r@.pending_eta is None,
            r@.last_change is None,
    {
        FeeConfigStore {
            active: None,
            history: Vec::new(),
            commit: None,
            pending: None,
            pending_eta: None,
            last_change: None,
        }
    }

    /// Stores a fee configuration as the active one (bypasses the time-lock).
    pub fn store_fee_config(store: &mut FeeConfigStore, config: &FeeConfig) -> (r: Result<(), Error>)
        ensures
            r is Ok,
            final(store)@ == (FeeConfigState { active: Some(*config), ..old(store)@ }),
    {
        store.active = Some(*config);
        Ok(())
    }

    /// The active fee configuration, or the defaults when none is stored.
    pub fn get_fee_config(store: &FeeConfigStore) -> (r: Result<FeeConfig, Error>)
        ensures
            r == Ok::<FeeConfig, Error>(config_in_force(store@)),
    {
        match store.active {
            Some(c) => Ok(c),
            None => Ok(Self::default_config()),
        }
    }

    /// The default fee configuration.
    pub fn default_config() -> (r: FeeConfig)
        ensures
            r == default_fee_config(),
    {
        FeeConfig {
            platform_fee_percentage: PLATFORM_FEE_PERCENTAGE,
            creation_fee: MARKET_CREATION_FEE,
            min_fee_amount: MIN_FEE_AMOUNT,
            max_fee_amount: MAX_FEE_AMOUNT,
            collection_threshold: FEE_COLLECTION_THRESHOLD,
            fees_enabled: true,
        }
    }

    /// Resets the active configuration to the defaults.
    pub fn reset_to_defaults(store: &mut FeeConfigStore) -> (r: Result<FeeConfig, Error>)
        ensures
            r == Ok::<FeeConfig, Error>(default_fee_config()),
            final(store)@ == (FeeConfigState { active: Some(default_fee_config()), ..old(store)@ }),
    {
        let default_config = Self::default_config();
        store.active = Some(default_config);
        Ok(default_config)
    }

    /// Queues a fee configuration update that takes effect at `eta` (admin
    /// only); `eta` must lie in the future.
    pub fn queue_update(
        store: &mut FeeConfigStore,
        stored_admin: Option<AccountId>,
        admin: AccountId,
        new_config: &FeeConfig,
        eta: u64,
        now: u64,
    ) -> (r: Result<(), Error>)
        ensures
            match queue_update_spec(old(store)@, stored_admin, admin, *new_config, eta, now) {
                Ok(s) => r is Ok && final(store)@ == s,
                Err(e) => r == Err::<(), Error>(e) && final(store)@ == old(store)@,
            },
    {
        match FeeValidator::validate_admin_permissions(stored_admin, admin) {
            Ok(()) => {},
            Err(e) => return Err(e),
        }
        match FeeValidator::validate_fee_config(new_config) {
            Ok(()) => {},
            Err(e) => return Err(e),
        }
        if eta <= now {
            return Err(Error::InvalidInput);
        }
        store.pending = Some(*new_config);
        store.pending_eta = Some(eta);
        Ok(())
    }

    /// Applies the queued update once its ETA has been reached.
    pub fn apply_update(store: &mut FeeConfigStore, now: u64) -> (r: Result<(), Error>)
        ensures
            match apply_update_spec(old(store)@, now) {
                Ok(s) => r is Ok && final(store)@ == s,
                Err(e) => r == Err::<(), Error>(e) && final(store)@ == old(store)@,
            },
    {
        let eta = match store.pending_eta {
            Some(e) => e,
            None => return Err(Error::ConfigNotFound),
        };
        if now < eta {
            return Err(Error::InvalidInput);
        }
        let pending = match store.pending {
            Some(c) => c,
            None => return Err(Error::ConfigNotFound),
        };
        store.active = Some(pending);
        store.pending = None;
        store.pending_eta = None;
        Ok(())
    }

    /// Cancels a queued update (admin only); no effect when none is pending.
    pub fn cancel_queued_update(
        store: &mut FeeConfigStore,
        stored_admin: Option<AccountId>,
        admin: AccountId,
    ) -> (r: Result<(), Error>)
        ensures
            stored_admin == Some(admin) ==> r is Ok && final(store)@ == (FeeConfigState {
                pending: None,
                pending_eta: None,
                ..old(store)@
            }),
            stored_admin != Some(admin) ==> r == Err::<(), Error>(Error::Unauthorized) && final(store)@ == old(store)@,
    {
        match FeeValidator::validate_admin_permissions(stored_admin, admin) {
            Ok(()) => {},
            Err(e) => return Err(e),
        }
        store.pending = None;
        store.pending_eta = None;
        Ok(())
    }

    /// The queued configuration and its ETA, when both are present.
    pub fn get_queued_fee_config(store: &FeeConfigStore) -> (r: Option<(FeeConfig, u64)>)
        ensures
            r == (match (store@.pending_eta, store@.pending) {
                (Some(eta), Some(c)) => Some((c, eta)),
                _ => None,
            }),
    {
        let eta = match store.pending_eta {
            Some(e) => e,
            None => return None,
        };
        let config = match store.pending {
            Some(c) => c,
            None => return None,
        };
        Some((config, eta))
    }
}

impl FeeManager {
    /// Commits the digest of a new fee configuration (admin only); a new
    /// commitment replaces a pending one.
    pub fn commit_fee_config(
        store: &mut FeeConfigStore,
        stored_admin: Option<AccountId>,
        admin: AccountId,
        hash: [u8; 32],
        ledger_sequence: u32,
    ) -> (r: Result<(), Error>)
        ensures
            stored_admin == Some(admin) ==> r is Ok && final(store)@ == (FeeConfigState {
                commit: Some(FeeConfigCommit { hash, committed_at: ledger_sequence }),
                ..old(store)@
            }),
            stored_admin != Some(admin) ==> r == Err::<(), Error>(Error::Unauthorized) && final(store)@ == old(store)@,
    {
        match FeeValidator::validate_admin_permissions(stored_admin, admin) {
            Ok(()) => {},
            Err(e) => return Err(e),
        }
        store.commit = Some(FeeConfigCommit { hash, committed_at: ledger_sequence });
        Ok(())
    }

    /// Reveals a committed fee configuration (admin only): after the minimum
    /// delay, and when the SHA-256 digest of `config_xdr` matches the
    /// commitment, the configuration becomes active, the one it replaces
    /// joins the history, and the commitment is consumed. A caller who is
    /// not the stored admin is refused with `Unauthorized` before anything
    /// else. `config_xdr` is meant to be the XDR encoding of `new_config`;
    /// that encoding comes from the ledger type's derived serialisation,
    /// which this library does not hold, so nothing here ties the two: the
    /// caller must pass the encoding of the configuration it reveals.
    pub fn update_fee_config(
        store: &mut FeeConfigStore,
        stored_admin: Option<AccountId>,
        admin: AccountId,
        env: &Env,
        new_config: FeeConfig,
        config_xdr: &Vec<u8>,
        current_ledger: u32,
        now: u64,
    ) -> (r: Result<FeeConfig, Error>)
        ensures
            stored_admin != Some(admin) ==> r == Err::<FeeConfig, Error>(Error::Unauthorized)
                && final(store)@ == old(store)@,
            stored_admin == Some(admin) ==> match reveal_spec(
                old(store)@,
                new_config,
                sha256_digest(config_xdr@),
                current_ledger,
                now,
            ) {
                Ok(s) => r == Ok::<FeeConfig, Error>(new_config) && final(store)@ == s,
                Err(e) => r == Err::<FeeConfig, Error>(e) && final(store)@ == old(store)@,
            },
    {
        if let Err(e) = FeeValidator::validate_admin_permissions(stored_admin, admin) {
            return Err(e);
        }
        let commit = match store.commit {
            Some(c) => c,
            None => return Err(Error::NoPendingFeeCommit),
        };
        if current_ledger < commit.committed_at.saturating_add(MIN_DELAY_LEDGERS) {
            return Err(Error::FeeRevealTooEarly);
        }
        let config_hash = sha256(env, config_xdr);
        if !digests_equal(&config_hash, &commit.hash) {
            return Err(Error::FeePreimageMismatch);
        }
        match FeeValidator::validate_fee_config(&new_config) {
            Ok(()) => {},
            Err(e) => return Err(e),
        }
        let current_config = match FeeConfigManager::get_fee_config(store) {
            Ok(c) => c,
            Err(e) => return Err(e),
        };
        store.history.push(HistoricalFeeConfig { config: current_config, replaced_at: now });
        store.active = Some(new_config);
        store.last_change = Some(now);
        store.commit = None;
        Ok(new_config)
    }

    /// Applies the queued fee configuration update.
    pub fn apply_fee_update(store: &mut FeeConfigStore, now: u64) -> (r: Result<(), Error>)
        ensures
            match apply_update_spec(old(store)@, now) {
                Ok(s) => r is Ok && final(store)@ == s,
                Err(e) => r == Err::<(), Error>(e) && final(store)@ == old(store)@,
            },
    {
        FeeConfigManager::apply_update(store, now)
    }

    /// The fee configuration that applied at `timestamp`, scanning the
    /// history of replaced configurations and falling back to the one in
    /// force.
    pub fn get_fee_config_for_timestamp(store: &FeeConfigStore, timestamp: u64) -> (r: FeeConfig)
        ensures
            r == config_at(store@.history, config_in_force(store@), timestamp),
    {
        let fallback = match FeeConfigManager::get_fee_config(store) {
            Ok(c) => c,
            Err(_) => FeeConfigManager::default_config(),
        };
        let ghost h = store@.history;
        let mut i: usize = 0;
        assert(h.skip(0) =~= h);
        while i < store.history.len()
            invariant
                0 <= i <= h.len(),
                h == store@.history,
                fallback == config_in_force(store@),
                config_at(h, fallback, timestamp) == config_at(h.skip(i as int), fallback, timestamp),
            decreases h.len() - i,
        {
            proof {
                lemma_config_at_step(h, fallback, timestamp, i as int);
            }
            if store.history[i].replaced_at > timestamp {
                return store.history[i].config;
            }
            i = i + 1;
        }
        assert(h.skip(i as int).len() == 0);
        fallback
    }

    /// The fee rate (bps) that applied at `timestamp`: 0 when fees were
    /// disabled.
    pub fn get_fee_percentage_for_timestamp(store: &FeeConfigStore, timestamp: u64) -> (r: i128)
        ensures
            r == config_rate(config_at(store@.history, config_in_force(store@), timestamp)),
            !config_at(store@.history, config_in_force(store@), timestamp).fees_enabled ==> r == 0,
            config_at(store@.history, config_in_force(store@), timestamp).fees_enabled ==> r
                == config_at(store@.history, config_in_force(store@), timestamp).platform_fee_percentage,
    {
        let config = Self::get_fee_config_for_timestamp(store, timestamp);
        if !config.fees_enabled {
            0
        } else {
            config.platform_fee_percentage
        }
    }

    /// The current fee configuration.
    pub fn get_fee_config(store: &FeeConfigStore) -> (r: Result<FeeConfig, Error>)
        ensures
            r == Ok::<FeeConfig, Error>(config_in_force(store@)),
    {
        FeeConfigManager::get_fee_config(store)
    }
}

// ===== LAWS =====

/// The configuration that applied at a time is the one of the earliest
/// history entry replaced after that time, or the fallback when every entry
/// was replaced at or before it.
pub proof fn lemma_config_at_first_replaced_after(
    h: Seq<HistoricalFeeConfig>,
    fallback: FeeConfig,
    timestamp: u64,
)
    ensures
        (forall|i: int| 0 <= i < h.len() ==> (#[trigger] h[i]).replaced_at <= timestamp) ==> config_at(
            h,
            fallback,
            timestamp,
        ) == fallback,
        forall|i: int|
            0 <= i < h.len() && (#[trigger] h[i]).replaced_at > timestamp && (forall|j: int|
                0 <= j < i ==> h[j].replaced_at <= timestamp) ==> config_at(h, fallback, timestamp)
                == h[i].config,
    decreases h.len(),
{
    if h.len() > 0 {
        lemma_config_at_first_replaced_after(h.drop_first(), fallback, timestamp);
        assert forall|i: int|
            0 <= i < h.len() && (#[trigger] h[i]).replaced_at > timestamp && (forall|j: int|
                0 <= j < i ==> h[j].replaced_at <= timestamp) implies config_at(h, fallback, timestamp)
            == h[i].config by {
            if i > 0 {
                assert(h[0].replaced_at <= timestamp);
                assert(h.drop_first()[i - 1] == h[i]);
                assert forall|j: int| 0 <= j < i - 1 implies h.drop_first()[j].replaced_at
                    <= timestamp by {
                    assert(h.drop_first()[j] == h[j + 1]);
                }
            }
        }
        if forall|i: int| 0 <= i < h.len() ==> (#[trigger] h[i]).replaced_at <= timestamp {
            assert(h[0].replaced_at <= timestamp);
            assert forall|i: int| 0 <= i < h.drop_first().len() implies (
            #[trigger] h.drop_first()[i]).replaced_at <= timestamp by {
                assert(h.drop_first()[i] == h[i + 1]);
            }
        }
    }
}

/// The rate of a configuration is 0 when its fees are disabled, and its
/// platform percentage when they are enabled.
pub proof fn lemma_rate_zero_when_fees_disabled(c: FeeConfig)
    ensures
        !c.fees_enabled ==> config_rate(c) == 0,
        c.fees_enabled ==> config_rate(c) == c.platform_fee_percentage,
{
}

/// A queued update applied at or after its ETA becomes the configuration in
/// force, and nothing stays queued.
pub proof fn lemma_queue_then_apply(
    s: FeeConfigState,
    stored_admin: Option<AccountId>,
    admin: AccountId,
    new_config: FeeConfig,
    eta: u64,
    now: u64,
    later: u64,
)
    requires
        queue_update_spec(s, stored_admin, admin, new_config, eta, now) is Ok,
        later >= eta,
    ensures
        queue_update_spec(s, stored_admin, admin, new_config, eta, now) matches Ok(s1) && (
        apply_update_spec(s1, later) matches Ok(s2) && config_in_force(s2) == new_config
            && s2.pending is None && s2.pending_eta is None && s2.history == s.history),
{
}

/// A queued update cannot be applied before its ETA: the attempt fails and
/// the configuration in force is unchanged.
pub proof fn lemma_apply_before_eta_rejected(s: FeeConfigState, now: u64)
    requires
        s.pending_eta matches Some(eta) && now < eta,
    ensures
        apply_update_spec(s, now) == Err::<FeeConfigState, Error>(Error::InvalidInput),
{
}

/// Once a queued update is cancelled, applying it fails.
pub proof fn lemma_cancel_then_apply_fails(s: FeeConfigState, now: u64)
    ensures
        apply_update_spec(FeeConfigState { pending: None, pending_eta: None, ..s }, now)
            == Err::<FeeConfigState, Error>(Error::ConfigNotFound),
{
}

/// A commitment is consumed by its reveal: revealing again fails.
pub proof fn lemma_reveal_consumes_commit(
    s: FeeConfigState,
    new_config: FeeConfig,
    hash: Seq<u8>,
    ledger: u32,
    now: u64,
    c2: FeeConfig,
    hash2: Seq<u8>,
    ledger2: u32,
    now2: u64,
)
    requires
        reveal_spec(s, new_config, hash, ledger, now) is Ok,
    ensures
        reveal_spec(s, new_config, hash, ledger, now) matches Ok(s1) && reveal_spec(
            s1,
            c2,
            hash2,
            ledger2,
            now2,
        ) == Err::<FeeConfigState, Error>(Error::NoPendingFeeCommit),
{
}

/// After a reveal at `now`, a timestamp that falls after every earlier
/// replacement and before `now` resolves to the configuration that was in
/// force until the reveal, so older bets settle at the rate they were
/// placed under.
pub proof fn lemma_reveal_preserves_past_rate(
    s: FeeConfigState,
    new_config: FeeConfig,
    hash: Seq<u8>,
    ledger: u32,
    now: u64,
    timestamp: u64,
)
    requires
        reveal_spec(s, new_config, hash, ledger, now) is Ok,
        forall|j: int| 0 <= j < s.history.len() ==> s.history[j].replaced_at <= timestamp,
        timestamp < now,
    ensures
        reveal_spec(s, new_config, hash, ledger, now) matches Ok(s1) && config_at(
            s1.history,
            config_in_force(s1),
            timestamp,
        ) == config_in_force(s),
{
    let s1 = reveal_spec(s, new_config, hash, ledger, now)->Ok_0;
    lemma_config_at_skips(s.history, HistoricalFeeConfig { config: config_in_force(s), replaced_at: now }, config_in_force(s1), timestamp);
}

proof fn lemma_config_at_skips(
    h: Seq<HistoricalFeeConfig>,
    last: HistoricalFeeConfig,
    fallback: FeeConfig,
    timestamp: u64,
)
    requires
        forall|j: int| 0 <= j < h.len() ==> h[j].replaced_at <= timestamp,
        last.replaced_at > timestamp,
    ensures
        config_at(h.push(last), fallback, timestamp) == last.config,
    decreases h.len(),
{
    if h.len() > 0 {
        assert(h.push(last).drop_first() =~= h.drop_first().push(last));
        lemma_config_at_skips(h.drop_first(), last, fallback, timestamp);
    }
}

} // verus!
