use vstd::prelude::*;

use crate::errors::Error;
use crate::fees::{bps_floor, lift, FeeCalculator, FeeValidator, PERCENTAGE_DENOMINATOR};
use crate::market::{AccountId, PredictifyHybrid};

verus! {

/// Default withdrawal timelock: 7 days.
pub const DEFAULT_FEE_WITHDRAWAL_TIMELOCK_SECONDS: u64 = 604_800;

/// Default withdrawal cap: 100% of the vault per window (cap disabled).
pub const DEFAULT_FEE_WITHDRAWAL_MAX_BPS: u32 = 10_000;

/// Record of a completed fee collection from a market.
pub struct FeeCollection {
    /// Market ID
    pub market_id: String,
    /// Amount collected
    pub amount: i128,
    /// Collected by admin
    pub collected_by: AccountId,
    /// Collection timestamp
    pub timestamp: u64,
    /// Fee percentage used
    pub fee_percentage: i128,
}

/// Status of an admin fee withdrawal attempt.
#[derive(Clone, Copy, Debug, PartialEq, Eq, Structural)]
pub enum FeeWithdrawalStatus {
    /// Withdrawal executed successfully.
    Executed,
    /// No fees are currently available in the fee vault.
    NoFeesAvailable,
    /// Withdrawal is blocked by the configured timelock.
    Timelocked,
    /// Withdrawal amount was reduced due to the configured cap.
    Capped,
}

/// Configuration of admin fee withdrawals.
#[derive(Clone, Copy, Debug, PartialEq, Eq, Structural)]
pub struct FeeWithdrawalSchedule {
    /// Minimum number of seconds required between successful withdrawals.
    pub timelock_seconds: u64,
    /// Maximum amount allowed per withdrawal window, in basis points of the
    /// current fee vault balance (10_000 = 100%).
    pub max_withdrawal_bps: u32,
}

/// What a withdrawal attempt did, as reported to observers.
#[derive(Clone, Copy, Debug, PartialEq, Eq, Structural)]
pub struct FeeWithdrawalAttempt {
    pub requested_amount: i128,
    pub available_fees: i128,
    pub withdrawal_amount: i128,
    pub status: FeeWithdrawalStatus,
    pub last_withdrawal_ts: u64,
    pub next_allowed_ts: u64,
    pub schedule: FeeWithdrawalSchedule,
}

/// The stored fee accounting of the contract: the collection history, the
/// fee vault balance, creation fees, and the withdrawal schedule.
pub struct FeeVault {
    /// History of fee collections.
    pub collection_history: Vec<FeeCollection>,
    /// Fees collected and not yet withdrawn.
    pub total_fees: i128,
    /// Total creation fees received.
    pub creation_fees: i128,
    /// Timestamp of the last successful withdrawal (0 if never).
    pub last_withdrawal_ts: u64,
    /// Configured withdrawal schedule, if any.
    pub schedule: Option<FeeWithdrawalSchedule>,
}

/// Fee tracking and analytics.
pub struct FeeTracker;

/// Fee withdrawal management.
pub struct FeeWithdrawalManager;

/// The default withdrawal schedule.
pub open spec fn default_schedule() -> FeeWithdrawalSchedule {
    FeeWithdrawalSchedule {
        timelock_seconds: DEFAULT_FEE_WITHDRAWAL_TIMELOCK_SECONDS,
        max_withdrawal_bps: DEFAULT_FEE_WITHDRAWAL_MAX_BPS,
    }
}

/// The schedule in force.
pub open spec fn schedule_in_force(schedule: Option<FeeWithdrawalSchedule>) -> FeeWithdrawalSchedule {
    match schedule {
        Some(s) => s,
        None => default_schedule(),
    }
}

/// `a + b`, saturated at `u64::MAX`.
pub open spec fn sat_add(a: u64, b: u64) -> u64 {
    if a + b > u64::MAX {
        u64::MAX
    } else {
        (a + b) as u64
    }
}

/// The earliest time of the next withdrawal (0: no restriction).
pub open spec fn next_allowed(last_ts: u64, schedule: FeeWithdrawalSchedule) -> u64 {
    if last_ts == 0 {
        0
    } else {
        sat_add(last_ts, schedule.timelock_seconds)
    }
}

/// The cap of one withdrawal, at least 1 when the cap is below 100%.
pub open spec fn withdrawal_cap(available: int, bps: int) -> Result<int, Error> {
    match bps_floor(available, bps) {
        Err(e) => Err(e),
        Ok(cap) => Ok(if bps < 10_000 && cap == 0 { 1 } else { cap }),
    }
}

/// What a withdrawal request yields: the amount paid out, the status, and
/// the next allowed time reported with it.
pub open spec fn withdrawal_decision(
    available: int,
    requested: int,
    now: u64,
    last_ts: u64,
    schedule: FeeWithdrawalSchedule,
) -> Result<(int, FeeWithdrawalStatus, u64), Error> {
    let next = next_allowed(last_ts, schedule);
    if requested < 0 {
        Err(Error::InvalidInput)
    } else if available <= 0 {
        Ok((0, FeeWithdrawalStatus::NoFeesAvailable, next))
    } else if next != 0 && now < next {
        Ok((0, FeeWithdrawalStatus::Timelocked, next))
    } else {
        match withdrawal_cap(available, schedule.max_withdrawal_bps as int) {
            Err(e) => Err(e),
            Ok(cap) => {
                let desired = if requested == 0 { available } else { requested };
                let wanted = if desired > available { available } else { desired };
                if wanted > cap {
                    if cap <= 0 {
                        Ok((0, FeeWithdrawalStatus::NoFeesAvailable, next))
                    } else {
                        Ok((cap, FeeWithdrawalStatus::Capped, sat_add(now, schedule.timelock_seconds)))
                    }
                } else if wanted <= 0 {
                    Ok((0, FeeWithdrawalStatus::NoFeesAvailable, next))
                } else {
                    Ok((wanted, FeeWithdrawalStatus::Executed, sat_add(now, schedule.timelock_seconds)))
                }
            },
        }
    }
}

impl FeeTracker {
    /// Records a fee collection: appends it to the history and adds the
    /// amount to the vault.
    pub fn record_fee_collection(
        vault: &mut FeeVault,
        market_id: String,
        amount: i128,
        admin: AccountId,
        now: u64,
        fee_percentage: i128,
    ) -> (r: Result<(), Error>)
        ensures
            r is Ok <==> i128::MIN <= old(vault).total_fees + amount <= i128::MAX,
            r is Ok ==> {
                &&& final(vault).total_fees == old(vault).total_fees + amount
                &&& final(vault).collection_history@ == old(vault).collection_history@.push(
                    (FeeCollection {
                        market_id,
                        amount,
                        collected_by: admin,
                        timestamp: now,
                        fee_percentage,
                    }),
                )
                &&& final(vault).creation_fees == old(vault).creation_fees
                &&& final(vault).last_withdrawal_ts == old(vault).last_withdrawal_ts
                &&& final(vault).schedule == old(vault).schedule
            },
            r is Err ==> r == Err::<(), Error>(Error::FeeArithmeticOverflow) && *final(vault)
                == *old(vault),
    {
        let updated_total = match FeeCalculator::checked_fee_add(vault.total_fees, amount) {
            Ok(v) => v,
            Err(e) => return Err(e),
        };
        let collection = FeeCollection {
            market_id,
            amount,
            collected_by: admin,
            timestamp: now,
            fee_percentage,
        };
        vault.collection_history.push(collection);
        vault.total_fees = updated_total;
        Ok(())
    }

    /// Records a market creation fee.
    pub fn record_creation_fee(vault: &mut FeeVault, amount: i128) -> (r: Result<(), Error>)
        ensures
            r is Ok <==> i128::MIN <= old(vault).creation_fees + amount <= i128::MAX,
            r is Ok ==> {
                &&& final(vault).creation_fees == old(vault).creation_fees + amount
                &&& final(vault).collection_history@ == old(vault).collection_history@
                &&& final(vault).total_fees == old(vault).total_fees
                &&& final(vault).last_withdrawal_ts == old(vault).last_withdrawal_ts
                &&& final(vault).schedule == old(vault).schedule
            },
            r is Err ==> r == Err::<(), Error>(Error::FeeArithmeticOverflow) && *final(vault)
                == *old(vault),
    {
        let updated_total = match FeeCalculator::checked_fee_add(vault.creation_fees, amount) {
            Ok(v) => v,
            Err(e) => return Err(e),
        };
        vault.creation_fees = updated_total;
        Ok(())
    }

    /// The fee collection history.
    pub fn get_fee_history(vault: &FeeVault) -> (r: &Vec<FeeCollection>)
        ensures
            r@ == vault.collection_history@,
    {
        &vault.collection_history
    }

    /// Total fees collected and held in the vault.
    pub fn get_total_fees_collected(vault: &FeeVault) -> (r: i128)
        ensures
            r == vault.total_fees,
    {
        vault.total_fees
    }
}

impl FeeWithdrawalManager {
    /// The withdrawal schedule in force (the default when none is set).
    pub fn get_schedule(vault: &FeeVault) -> (r: FeeWithdrawalSchedule)
        ensures
            r == schedule_in_force(vault.schedule),
    {
        match vault.schedule {
            Some(s) => s,
            None => FeeWithdrawalSchedule {
                timelock_seconds: DEFAULT_FEE_WITHDRAWAL_TIMELOCK_SECONDS,
                max_withdrawal_bps: DEFAULT_FEE_WITHDRAWAL_MAX_BPS,
            },
        }
    }

    /// Sets the withdrawal schedule (admin only). A schedule must keep at
    /// least the default timelock and a cap in `1..=10_000` bps; once set, it
    /// can only be tightened.
    pub fn set_schedule(
        vault: &mut FeeVault,
        stored_admin: Option<AccountId>,
        admin: AccountId,
        schedule: FeeWithdrawalSchedule,
    ) -> (r: Result<(), Error>)
        ensures
            r == (if stored_admin != Some(admin) {
                Err(Error::Unauthorized)
            } else if schedule.timelock_seconds < DEFAULT_FEE_WITHDRAWAL_TIMELOCK_SECONDS {
                Err(Error::InvalidInput)
            } else if schedule.max_withdrawal_bps == 0 || schedule.max_withdrawal_bps > 10_000 {
                Err(Error::InvalidInput)
            } else if old(vault).schedule matches Some(cur) && (schedule.timelock_seconds
                < cur.timelock_seconds || schedule.max_withdrawal_bps > cur.max_withdrawal_bps) {
                Err(Error::InvalidInput)
            } else {
                Ok::<(), Error>(())
            }),
            r is Ok ==> final(vault).schedule == Some(schedule),
            r is Err ==> final(vault).schedule == old(vault).schedule,
            final(vault).collection_history@ == old(vault).collection_history@,
            final(vault).total_fees == old(vault).total_fees,
            final(vault).creation_fees == old(vault).creation_fees,
            final(vault).last_withdrawal_ts == old(vault).last_withdrawal_ts,
    {
        match FeeValidator::validate_admin_permissions(stored_admin, admin) {
            Ok(()) => {},
            Err(e) => return Err(e),
        }
        if schedule.timelock_seconds < DEFAULT_FEE_WITHDRAWAL_TIMELOCK_SECONDS {
            return Err(Error::InvalidInput);
        }
        if schedule.max_withdrawal_bps == 0 || schedule.max_withdrawal_bps > 10_000 {
            return Err(Error::InvalidInput);
        }
        if let Some(current) = vault.schedule {
            if schedule.timelock_seconds < current.timelock_seconds {
                return Err(Error::InvalidInput);
            }
            if schedule.max_withdrawal_bps > current.max_withdrawal_bps {
                return Err(Error::InvalidInput);
            }
        }
        vault.schedule = Some(schedule);
        Ok(())
    }

    /// Timestamp of the last successful withdrawal (0 if never).
    pub fn get_last_withdrawal_ts(vault: &FeeVault) -> (r: u64)
        ensures
            r == vault.last_withdrawal_ts,
    {
        vault.last_withdrawal_ts
    }

    /// Withdraws collected fees (a request of 0 asks for everything),
    /// enforcing the timelock and the per-window cap. A blocked attempt
    /// returns an amount of 0 and leaves the vault unchanged; a paid one
    /// lowers the vault by the amount and restarts the timelock.
    pub fn withdraw_fees(vault: &mut FeeVault, requested_amount: i128, now: u64) -> (r: Result<
        FeeWithdrawalAttempt,
        Error,
    >)
        ensures
            ({
                let schedule = schedule_in_force(old(vault).schedule);
                match (
                    r,
                    withdrawal_decision(
                        old(vault).total_fees as int,
                        requested_amount as int,
                        now,
                        old(vault).last_withdrawal_ts,
                        schedule,
                    ),
                ) {
                    (Ok(a), Ok((amount, status, next))) => {
                        &&& a.withdrawal_amount == amount
                        &&& a.status == status
                        &&& a.next_allowed_ts == next
                        &&& a.requested_amount == requested_amount
                        &&& a.available_fees == old(vault).total_fees
                        &&& a.last_withdrawal_ts == old(vault).last_withdrawal_ts
                        &&& a.schedule == schedule
                        &&& final(vault).total_fees == old(vault).total_fees - amount
                        &&& final(vault).last_withdrawal_ts == (if amount > 0 {
                            now
                        } else {
                            old(vault).last_withdrawal_ts
                        })
                    },
                    (Err(e1), Err(e2)) => e1 == e2 && final(vault).total_fees == old(vault).total_fees && final(vault).last_withdrawal_ts == old(vault).last_withdrawal_ts,
                    _ => false,
                }
            }),
            final(vault).collection_history@ == old(vault).collection_history@,
            final(vault).creation_fees == old(vault).creation_fees,
            final(vault).schedule == old(vault).schedule,
    {
        if requested_amount < 0 {
            return Err(Error::InvalidInput);
        }
        let schedule = Self::get_schedule(vault);
        let last_withdrawal_ts = vault.last_withdrawal_ts;
        let next_allowed_ts = if last_withdrawal_ts == 0 {
            0
        } else {
            last_withdrawal_ts.saturating_add(schedule.timelock_seconds)
        };
        let available_fees = vault.total_fees;
        let blocked = FeeWithdrawalAttempt {
            requested_amount,
            available_fees,
            withdrawal_amount: 0,
            status: FeeWithdrawalStatus::NoFeesAvailable,
            last_withdrawal_ts,
            next_allowed_ts,
            schedule,
        };
        if available_fees <= 0 {
            return Ok(blocked);
        }
        if next_allowed_ts != 0 && now < next_allowed_ts {
            return Ok(FeeWithdrawalAttempt { status: FeeWithdrawalStatus::Timelocked, ..blocked });
        }
        let mut cap_amount = match FeeCalculator::checked_bps_floor(
            available_fees,
            schedule.max_withdrawal_bps as i128,
        ) {
            Ok(v) => v,
            Err(e) => return Err(e),
        };
        if schedule.max_withdrawal_bps < 10_000 && cap_amount == 0 {
            cap_amount = 1;
        }
        let desired_amount = if requested_amount == 0 {
            available_fees
        } else {
            requested_amount
        };
        let mut withdrawal_amount = if desired_amount > available_fees {
            available_fees
        } else {
            desired_amount
        };
        let mut status = FeeWithdrawalStatus::Executed;
        if withdrawal_amount > cap_amount {
            withdrawal_amount = cap_amount;
            status = FeeWithdrawalStatus::Capped;
        }
        if withdrawal_amount <= 0 {
            return Ok(blocked);
        }
        vault.total_fees = available_fees - withdrawal_amount;
        vault.last_withdrawal_ts = now;
        Ok(
            FeeWithdrawalAttempt {
                requested_amount,
                available_fees,
                withdrawal_amount,
                status,
                last_withdrawal_ts,
                next_allowed_ts: now.saturating_add(schedule.timelock_seconds),
                schedule,
            },
        )
    }
}

impl PredictifyHybrid {
    /// Withdraws collected fees from the vault (primary admin only): a
    /// request of 0, or one above the balance, takes the whole balance. An
    /// empty vault is refused with `NoFeesToCollect`; a withdrawal whose
    /// remainder leaves the `i128` range with `InvalidInput`. Returns the
    /// amount withdrawn; on error the vault is unchanged.
    pub fn withdraw_collected_fees(
        vault: &mut FeeVault,
        stored_admin: Option<AccountId>,
        admin: AccountId,
        amount: i128,
    ) -> (r: Result<i128, Error>)
        ensures
            ({
                let collected = old(vault).total_fees;
                let w = if amount == 0 || amount > collected {
                    collected
                } else {
                    amount
                };
                if stored_admin != Some(admin) {
                    r == Err::<i128, Error>(Error::Unauthorized)
                } else if collected == 0 {
                    r == Err::<i128, Error>(Error::NoFeesToCollect)
                } else if collected - w > i128::MAX {
                    r == Err::<i128, Error>(Error::InvalidInput)
                } else {
                    r == Ok::<i128, Error>(w) && final(vault).total_fees == collected - w
                }
            }),
            r is Err ==> final(vault).total_fees == old(vault).total_fees,
            final(vault).collection_history@ == old(vault).collection_history@,
            final(vault).creation_fees == old(vault).creation_fees,
            final(vault).last_withdrawal_ts == old(vault).last_withdrawal_ts,
            final(vault).schedule == old(vault).schedule,
    {
        if let Err(e) = FeeValidator::validate_admin_permissions(stored_admin, admin) {
            return Err(e);
        }
        let collected = vault.total_fees;
        if collected == 0 {
            return Err(Error::NoFeesToCollect);
        }
        let withdrawal = if amount == 0 || amount > collected {
            collected
        } else {
            amount
        };
        let remaining = match collected.checked_sub(withdrawal) {
            Some(v) => v,
            None => return Err(Error::InvalidInput),
        };
        vault.total_fees = remaining;
        Ok(withdrawal)
    }
}

// ===== LAWS =====

/// A withdrawal never pays out more than the vault holds, nor more than the
/// cap of the schedule; a paid withdrawal is positive.
pub proof fn lemma_withdrawal_bounded(
    available: int,
    requested: int,
    now: u64,
    last_ts: u64,
    schedule: FeeWithdrawalSchedule,
)
    ensures
        withdrawal_decision(available, requested, now, last_ts, schedule) matches Ok(
            (amount, status, next),
        ) ==> {
            &&& 0 <= amount
            &&& available <= 0 ==> amount == 0
            &&& amount <= available || amount == 0
            &&& amount > 0 ==> (status == FeeWithdrawalStatus::Executed || status
                == FeeWithdrawalStatus::Capped)
            &&& amount > 0 ==> (withdrawal_cap(available, schedule.max_withdrawal_bps as int) matches Ok(
                cap,
            ) && amount <= cap)
            &&& amount > 0 && requested > 0 ==> amount <= requested
        },
{
}

/// After a withdrawal that paid out at time `t1` (t1 > 0), every further
/// attempt on a non-empty vault before the timelock has run out is blocked
/// and pays nothing.
pub proof fn lemma_withdrawals_respect_timelock(
    available: int,
    requested: int,
    t1: u64,
    last_ts: u64,
    schedule: FeeWithdrawalSchedule,
    available2: int,
    requested2: int,
    t2: u64,
)
    requires
        t1 > 0,
        withdrawal_decision(available, requested, t1, last_ts, schedule) matches Ok(
            (amount, _, _),
        ) && amount > 0,
        available2 > 0,
        requested2 >= 0,
        t2 < sat_add(t1, schedule.timelock_seconds),
    ensures
        withdrawal_decision(available2, requested2, t2, t1, schedule) == Ok::<
            (int, FeeWithdrawalStatus, u64),
            Error,
        >((0, FeeWithdrawalStatus::Timelocked, sat_add(t1, schedule.timelock_seconds))),
{
}

/// Once the timelock has run out, a request on a non-empty vault is paid:
/// the amount asked (everything when 0 is asked), at most what the vault
/// holds and at most the cap; it is always positive, `Executed` when the
/// whole amount wanted is paid and `Capped` when the cap cut it.
pub proof fn lemma_unlocked_withdrawal_pays(
    available: int,
    requested: int,
    now: u64,
    last_ts: u64,
    schedule: FeeWithdrawalSchedule,
)
    requires
        available > 0,
        requested >= 0,
        last_ts == 0 || now >= sat_add(last_ts, schedule.timelock_seconds),
        withdrawal_cap(available, schedule.max_withdrawal_bps as int) is Ok,
    ensures
        ({
            let cap = withdrawal_cap(available, schedule.max_withdrawal_bps as int)->Ok_0;
            let desired = if requested == 0 { available } else { requested };
            let wanted = if desired > available { available } else { desired };
            withdrawal_decision(available, requested, now, last_ts, schedule) matches Ok(
                (amount, status, next),
            ) && amount > 0 && amount <= available && amount <= cap && (requested > 0 ==> amount
                <= requested) && (amount == wanted || amount == cap) && (status
                == FeeWithdrawalStatus::Executed <==> amount == wanted && wanted <= cap) && (status
                == FeeWithdrawalStatus::Executed || status == FeeWithdrawalStatus::Capped)
                && next == sat_add(now, schedule.timelock_seconds)
        }),
{
    let bps = schedule.max_withdrawal_bps as int;
    let c = available * bps / 10000;
    assert(c >= 0) by (nonlinear_arith)
        requires
            available > 0,
            bps >= 0,
            c == available * bps / 10000,
    ;
    if bps >= 10000 {
        assert(c >= available) by (nonlinear_arith)
            requires
                available > 0,
                bps >= 10000,
                c == available * bps / 10000,
        ;
    }
}

} // verus!
