use vstd::prelude::*;

use crate::errors::Error;

verus! {

/// Number of recent CPU readings kept for the moving average.
pub const GAS_TRACKING_WINDOW_SIZE: u32 = 10;

/// Consumed resources of an operation, with a rolling window of recent CPU
/// readings.
pub struct GasUsage {
    pub cpu: u64,
    pub mem: u64,
    /// Ring buffer of recent CPU readings (empty until the first reading).
    pub cpu_history: Vec<u64>,
    /// Next position to write in the ring buffer.
    pub history_index: u32,
    /// Number of readings in the buffer (until it fills).
    pub history_count: u32,
}

/// Admin-configured budget of an operation.
#[derive(Clone, Copy, Debug, PartialEq, Eq, Structural)]
pub struct GasLimits {
    pub max_cpu: Option<u64>,
    pub max_mem: Option<u64>,
}

/// Observability hooks and budget limits.
pub struct GasTracker;

/// Monitors the CPU instructions consumed since its creation.
#[derive(Clone, Copy, Debug, PartialEq, Eq, Structural)]
pub struct BudgetGuard {
    start_instructions: u64,
    threshold_remaining: u64,
}

/// Whether `used` lies above the low-water mark of 90% of a positive CPU
/// budget.
pub open spec fn above_low_water(used: u64, cpu_limit: Option<u64>) -> bool {
    used > 0 && match cpu_limit {
        Some(l) => l > 0 && used > l * 9 / 10,
        None => false,
    }
}

/// Sum of the first `n` readings, saturated at `u64::MAX` at each step.
pub open spec fn saturating_sum(s: Seq<u64>, n: int) -> int
    decreases n,
{
    if n <= 0 {
        0
    } else {
        let prev = saturating_sum(s, n - 1);
        if prev + s[n - 1] > u64::MAX {
            u64::MAX as int
        } else {
            prev + s[n - 1]
        }
    }
}

/// The moving average of the first `count` readings (0 for none).
pub open spec fn moving_average(s: Seq<u64>, count: int) -> int {
    if count == 0 {
        0
    } else {
        saturating_sum(s, count) / count
    }
}

impl GasUsage {
    /// The ring buffer is either not yet allocated or holds a full window,
    /// and its cursor and count stay within the window.
    pub open spec fn wf(&self) -> bool {
        &&& (self.cpu_history@.len() == 0 || self.cpu_history@.len() == GAS_TRACKING_WINDOW_SIZE)
        &&& self.history_index < GAS_TRACKING_WINDOW_SIZE
        &&& self.history_count <= GAS_TRACKING_WINDOW_SIZE
    }

    /// Adds a CPU reading to the rolling window and returns the moving
    /// average of the readings in it.
    pub fn add_to_history(&mut self, cpu_used: u64) -> (r: u64)
        requires
            old(self).wf(),
        ensures
            final(self).wf(),
            ({
                let base = if old(self).cpu_history@.len() == 0 {
                    Seq::new(GAS_TRACKING_WINDOW_SIZE as nat, |i: int| 0u64)
                } else {
                    old(self).cpu_history@
                };
                &&& final(self).cpu_history@ == base.update(
                    old(self).history_index as int,
                    cpu_used,
                )
                &&& final(self).history_index == (if old(self).history_index + 1
                    == GAS_TRACKING_WINDOW_SIZE {
                    0
                } else {
                    old(self).history_index + 1
                })
                &&& final(self).history_count == (if old(self).history_count
                    < GAS_TRACKING_WINDOW_SIZE {
                    old(self).history_count + 1
                } else {
                    old(self).history_count as int
                })
            }),
            r == moving_average(final(self).cpu_history@, final(self).history_count as int),
            final(self).cpu == old(self).cpu,
            final(self).mem == old(self).mem,
    {
        let window_size = GAS_TRACKING_WINDOW_SIZE;
        if self.cpu_history.len() == 0 {
            let mut zeros: Vec<u64> = Vec::new();
            let mut i: u32 = 0;
            while i < window_size
                invariant
                    0 <= i <= window_size,
                    window_size == GAS_TRACKING_WINDOW_SIZE,
                    zeros@ == Seq::new(i as nat, |j: int| 0u64),
                decreases window_size - i,
            {
                zeros.push(0);
                i = i + 1;
                assert(zeros@ =~= Seq::new(i as nat, |j: int| 0u64));
            }
            self.cpu_history = zeros;
        }
        self.cpu_history.set(self.history_index as usize, cpu_used);
        self.history_index = if self.history_index + 1 == window_size {
            0
        } else {
            self.history_index + 1
        };
        if self.history_count < window_size {
            self.history_count = self.history_count + 1;
        }
        self.calculate_moving_average()
    }

    /// Moving average of the readings in the window (0 when empty).
    pub fn calculate_moving_average(&self) -> (r: u64)
        requires
            self.history_count <= self.cpu_history@.len(),
        ensures
            r == moving_average(self.cpu_history@, self.history_count as int),
    {
        if self.history_count == 0 {
            return 0;
        }
        let mut sum: u64 = 0;
        let mut i: u32 = 0;
        while i < self.history_count
            invariant
                0 <= i <= self.history_count,
                self.history_count <= self.cpu_history@.len(),
                sum == saturating_sum(self.cpu_history@, i as int),
            decreases self.history_count - i,
        {
            sum = sum.saturating_add(self.cpu_history[i as usize]);
            i = i + 1;
        }
        sum / (self.history_count as u64)
    }
}

impl GasTracker {
    /// Checks a measured cost against the operation's budget.
    pub fn end_tracking(cpu: u64, mem: u64, limits: &GasLimits) -> (r: Result<(), Error>)
        ensures
            r is Ok <==> (match limits.max_cpu {
                Some(l) => cpu <= l,
                None => true,
            }) && (match limits.max_mem {
                Some(l) => mem <= l,
                None => true,
            }),
            r is Err ==> r == Err::<(), Error>(Error::GasBudgetExceeded),
    {
        if let Some(limit) = limits.max_cpu {
            if cpu > limit {
                return Err(Error::GasBudgetExceeded);
            }
        }
        if let Some(limit) = limits.max_mem {
            if mem > limit {
                return Err(Error::GasBudgetExceeded);
            }
        }
        Ok(())
    }

    /// Low-water alert on an operation's CPU budget: a usage is above the
    /// mark when it is positive and exceeds 90% of a positive budget. The
    /// alert fires once per crossing: given whether the previous usage was
    /// above the mark, returns whether to alert now (above, and previously
    /// not) and whether this usage is above the mark, to keep for the next
    /// call.
    pub fn record_with_alert(used: u64, cpu_limit: Option<u64>, was_above: bool) -> (r: (bool, bool))
        requires
            used > 0 ==> match cpu_limit {
                Some(l) => l * 9 <= u64::MAX,
                None => true,
            },
        ensures
            r.1 == above_low_water(used, cpu_limit),
            r.0 == (r.1 && !was_above),
    {
        let above = Self::above_low_water_mark(used, cpu_limit);
        (above && !was_above, above)
    }

    /// Whether a usage is above 90% of the operation's CPU budget; never
    /// without usage or without a positive budget.
    fn above_low_water_mark(used: u64, cpu_limit: Option<u64>) -> (r: bool)
        requires
            used > 0 ==> match cpu_limit {
                Some(l) => l * 9 <= u64::MAX,
                None => true,
            },
        ensures
            r == above_low_water(used, cpu_limit),
    {
        if used == 0 {
            return false;
        }
        let budget = match cpu_limit {
            Some(limit) => {
                if limit > 0 {
                    limit
                } else {
                    return false;
                }
            },
            None => return false,
        };
        let threshold = (budget * 9) / 10;
        used > threshold
    }

    /// The resources an operation reported (CPU and memory readings, each 0
    /// when none was recorded), with an empty history.
    pub fn get_actual_cost(cpu: Option<u64>, mem: Option<u64>) -> (r: GasUsage)
        ensures
            r.cpu == (match cpu {
                Some(v) => v,
                None => 0,
            }),
            r.mem == (match mem {
                Some(v) => v,
                None => 0,
            }),
            r.cpu_history@.len() == 0,
            r.history_index == 0,
            r.history_count == 0,
            r.wf(),
    {
        let cpu_val = match cpu {
            Some(v) => v,
            None => 0,
        };
        let mem_val = match mem {
            Some(v) => v,
            None => 0,
        };
        GasUsage { cpu: cpu_val, mem: mem_val, cpu_history: Vec::new(), history_index: 0, history_count: 0 }
    }

    /// Marker taken before an operation; the host exposes no meter to
    /// contract code, so it is always 0.
    pub fn start_tracking() -> (r: u64)
        ensures
            r == 0,
    {
        0
    }
}

impl BudgetGuard {
    /// A guard started at the given instruction-meter reading.
    pub fn new(start_instructions: u64, threshold_remaining: u64) -> (r: Self)
        ensures
            r.start() == start_instructions,
            r.spec_threshold() == threshold_remaining,
    {
        BudgetGuard { start_instructions, threshold_remaining }
    }

    pub closed spec fn start(&self) -> u64 {
        self.start_instructions
    }

    pub closed spec fn spec_threshold(&self) -> u64 {
        self.threshold_remaining
    }

    /// Fails once the instructions consumed since the start (at the meter
    /// reading `current`) reach the threshold.
    pub fn check(&self, current: u64) -> (r: Result<(), Error>)
        ensures
            r is Ok <==> (if current >= self.start() {
                current - self.start()
            } else {
                0
            }) < self.spec_threshold(),
            r is Err ==> r == Err::<(), Error>(Error::OperationWouldExceedBudget),
    {
        let consumed = current.saturating_sub(self.start_instructions);
        if consumed >= self.threshold_remaining {
            return Err(Error::OperationWouldExceedBudget);
        }
        Ok(())
    }

    /// Instructions consumed since the start, at the meter reading `current`.
    pub fn consumed(&self, current: u64) -> (r: u64)
        ensures
            r == (if current >= self.start() {
                current - self.start()
            } else {
                0
            }),
    {
        current.saturating_sub(self.start_instructions)
    }

    /// The configured threshold.
    pub fn threshold(&self) -> (r: u64)
        ensures
            r == self.spec_threshold(),
    {
        self.threshold_remaining
    }
}

// ===== LAWS =====

/// The low-water alert fires once per crossing: after a usage above the
/// mark, the next usage never alerts, whether it stays above or not; it can
/// alert again only after a usage below the mark.
pub proof fn lemma_alert_once_per_crossing(first: u64, second: u64, cpu_limit: Option<u64>)
    requires
        above_low_water(first, cpu_limit),
    ensures
        !(above_low_water(second, cpu_limit) && !above_low_water(first, cpu_limit)),
{
}


proof fn lemma_saturating_sum_bounded(s: Seq<u64>, n: int, m: int)
    requires
        0 <= n <= s.len(),
        forall|i: int| 0 <= i < n ==> s[i] <= m,
        m >= 0,
    ensures
        0 <= saturating_sum(s, n) <= n * m,
    decreases n,
{
    if n > 0 {
        lemma_saturating_sum_bounded(s, n - 1, m);
        assert((n - 1) * m + m == n * m) by (nonlinear_arith);
    }
}

/// The moving average never exceeds the largest reading in the window.
pub proof fn lemma_moving_average_bounded(s: Seq<u64>, count: int, m: int)
    requires
        0 <= count <= s.len(),
        forall|i: int| 0 <= i < count ==> s[i] <= m,
        m >= 0,
    ensures
        0 <= moving_average(s, count) <= m,
{
    if count > 0 {
        lemma_saturating_sum_bounded(s, count, m);
        let total = saturating_sum(s, count);
        assert(total / count <= m) by (nonlinear_arith)
            requires
                0 <= total <= count * m,
                count > 0,
        ;
        assert(total / count >= 0) by (nonlinear_arith)
            requires
                0 <= total,
                count > 0,
        ;
    }
}

} // verus!
