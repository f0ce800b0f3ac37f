use vstd::prelude::*;

use crate::errors::Error;
use crate::market::AccountId;

verus! {

/// Default maximum number of events the bounded queue can hold.
pub const DEFAULT_QUEUE_CAPACITY: u32 = 128;

/// Minimum allowed queue capacity.
pub const MIN_QUEUE_CAPACITY: u32 = 1;

/// Maximum allowed queue capacity.
pub const MAX_QUEUE_CAPACITY: u32 = 10_000;

/// Category of a monitor event.
#[derive(Clone, Copy, Debug, PartialEq, Eq, Structural)]
pub enum MonitorEventCategory {
    /// Market lifecycle event (created, ended, resolved, etc.).
    Market,
    /// Oracle health or data event.
    Oracle,
    /// Bet placement or cancellation event.
    Bet,
    /// Fee collection event.
    Fee,
    /// Dispute event.
    Dispute,
    /// Circuit breaker state change.
    CircuitBreaker,
    /// Admin action event.
    Admin,
    /// Generic system event.
    System,
}

/// Severity level of a monitor event, from least to most severe.
#[derive(Clone, Copy, Debug, PartialEq, Eq, PartialOrd, Ord)]
pub enum MonitorEventSeverity {
    /// Informational event, no action needed.
    Info,
    /// Warning event, may need attention.
    Warning,
    /// Critical event, requires immediate attention.
    Critical,
}

/// A single monitor event stored in the bounded queue.
pub struct MonitorEvent {
    /// Unique event identifier.
    pub event_id: String,
    /// Category of the event.
    pub category: MonitorEventCategory,
    /// Severity level.
    pub severity: MonitorEventSeverity,
    /// Human-readable event message.
    pub message: String,
    /// Optional related market identifier.
    pub market_id: Option<String>,
    /// Optional actor that triggered the event.
    pub actor: Option<AccountId>,
    /// Ledger timestamp when the event was created.
    pub timestamp: u64,
    /// Additional key-value metadata for the event.
    pub metadata: Vec<(String, String)>,
}

/// State of the bounded monitor queue.
#[derive(Clone, Copy, Debug, PartialEq, Eq, Structural)]
pub struct MonitorQueueState {
    /// Head index (next position to pop from).
    pub head: u32,
    /// Tail index (next position to push to).
    pub tail: u32,
    /// Current number of events in the queue.
    pub len: u32,
    /// Maximum capacity of the queue.
    pub capacity: u32,
    /// Total number of events pushed since initialization.
    pub total_pushed: u64,
    /// Total number of events popped since initialization.
    pub total_popped: u64,
    /// Total number of events discarded because the queue was full.
    pub overflow_count: u64,
    /// Timestamp of the last overflow event.
    pub last_overflow_timestamp: u64,
}

/// Summary statistics of the bounded queue.
#[derive(Clone, Copy, Debug, PartialEq, Eq, Structural)]
pub struct MonitorQueueStats {
    pub current_len: u32,
    pub capacity: u32,
    pub total_pushed: u64,
    pub total_popped: u64,
    pub overflow_count: u64,
    pub last_overflow_timestamp: u64,
    pub is_full: bool,
    pub is_empty: bool,
}

/// What a push did: whether it evicted the oldest event, and that event.
pub struct PushOutcome {
    pub overflowed: bool,
    pub evicted: Option<MonitorEvent>,
}

impl Default for MonitorQueueState {
    fn default() -> (r: Self)
        ensures
            r == (MonitorQueueState {
                head: 0,
                tail: 0,
                len: 0,
                capacity: DEFAULT_QUEUE_CAPACITY,
                total_pushed: 0,
                total_popped: 0,
                overflow_count: 0,
                last_overflow_timestamp: 0,
            }),
    {
        Self {
            head: 0,
            tail: 0,
            len: 0,
            capacity: DEFAULT_QUEUE_CAPACITY,
            total_pushed: 0,
            total_popped: 0,
            overflow_count: 0,
            last_overflow_timestamp: 0,
        }
    }
}

/// `a + 1`, saturated at `u64::MAX`.
pub open spec fn sat_inc64(a: u64) -> u64 {
    if a == u64::MAX {
        a
    } else {
        (a + 1) as u64
    }
}

/// The slot `k` places after `head` in a ring of `cap` slots (`k <= cap`).
pub open spec fn slot_of(head: int, k: int, cap: int) -> int {
    if head + k < cap {
        head + k
    } else {
        head + k - cap
    }
}

/// Whether slot `j` holds one of the `len` events starting at `head`.
pub open spec fn in_window(head: int, len: int, cap: int, j: int) -> bool {
    if head + len <= cap {
        head <= j < head + len
    } else {
        (head <= j < cap) || (0 <= j < head + len - cap)
    }
}

/// A FIFO bounded queue of monitor events over a circular buffer. When the
/// queue is full, a push evicts the oldest event and counts an overflow.
pub struct BoundedMonitorQueue {
    state: MonitorQueueState,
    slots: Vec<Option<MonitorEvent>>,
}

impl BoundedMonitorQueue {
    /// The queue's invariant: the ring has `capacity` slots, the window of
    /// `len` events starts at `head` and ends before `tail`, and exactly the
    /// slots in the window are occupied.
    pub closed spec fn wf(&self) -> bool {
        let cap = self.state.capacity as int;
        &&& MIN_QUEUE_CAPACITY <= self.state.capacity <= MAX_QUEUE_CAPACITY
        &&& self.slots@.len() == cap
        &&& self.state.head < cap
        &&& self.state.len <= cap
        &&& self.state.tail == slot_of(self.state.head as int, self.state.len as int, cap)
        &&& forall|j: int|
            0 <= j < cap ==> (#[trigger] self.slots@[j] is Some <==> in_window(
                self.state.head as int,
                self.state.len as int,
                cap,
                j,
            ))
    }

    /// The events in the queue, oldest first.
    pub closed spec fn view(&self) -> Seq<MonitorEvent> {
        Seq::new(
            self.state.len as nat,
            |k: int|
                self.slots@[slot_of(
                    self.state.head as int,
                    k,
                    self.state.capacity as int,
                )]->Some_0,
        )
    }

    /// The queue's bookkeeping state.
    pub closed spec fn spec_state(&self) -> MonitorQueueState {
        self.state
    }

    /// Creates an empty queue of the given capacity, which must lie within
    /// `[MIN_QUEUE_CAPACITY, MAX_QUEUE_CAPACITY]`.
    pub fn initialize(capacity: u32) -> (r: Result<BoundedMonitorQueue, Error>)
        ensures
            (MIN_QUEUE_CAPACITY <= capacity <= MAX_QUEUE_CAPACITY) <==> r is Ok,
            r is Err ==> r == Err::<BoundedMonitorQueue, Error>(Error::InvalidInput),
            r matches Ok(q) ==> q.wf() && q.view().len() == 0 && q.spec_state() == (
            MonitorQueueState {
                head: 0,
                tail: 0,
                len: 0,
                capacity,
                total_pushed: 0,
                total_popped: 0,
                overflow_count: 0,
                last_overflow_timestamp: 0,
            }),
    {
        if capacity < MIN_QUEUE_CAPACITY || capacity > MAX_QUEUE_CAPACITY {
            return Err(Error::InvalidInput);
        }
        let mut slots: Vec<Option<MonitorEvent>> = Vec::new();
        let mut i: u32 = 0;
        while i < capacity
            invariant
                0 <= i <= capacity,
                slots@.len() == i,
                forall|j: int| 0 <= j < i ==> #[trigger] slots@[j] is None,
            decreases capacity - i,
        {
            slots.push(None);
            i = i + 1;
        }
        let state = MonitorQueueState {
            head: 0,
            tail: 0,
            len: 0,
            capacity,
            total_pushed: 0,
            total_popped: 0,
            overflow_count: 0,
            last_overflow_timestamp: 0,
        };
        Ok(BoundedMonitorQueue { state, slots })
    }

    /// The queue's bookkeeping state.
    pub fn get_state(&self) -> (r: MonitorQueueState)
        ensures
            r == self.spec_state(),
    {
        self.state
    }

    /// Takes the event out of a slot, leaving it empty.
    fn take_slot(&mut self, index: u32) -> (r: Option<MonitorEvent>)
        requires
            index < old(self).slots@.len(),
        ensures
            r == old(self).slots@[index as int],
            final(self).slots@ == old(self).slots@.update(index as int, None),
            final(self).state == old(self).state,
    {
        let mut taken: Option<MonitorEvent> = None;
        std::mem::swap(&mut taken, &mut self.slots[index as usize]);
        taken
    }

    /// Pushes an event onto the back of the queue. When the queue is full,
    /// the oldest event is evicted first, counted as an overflow at `now`,
    /// and returned.
    pub fn push(&mut self, event: MonitorEvent, now: u64) -> (r: PushOutcome)
        requires
            old(self).wf(),
        ensures
            final(self).wf(),
            r.overflowed == (old(self).view().len() == old(self).spec_state().capacity),
            r.overflowed ==> {
                &&& r.evicted == Some(old(self).view()[0])
                &&& final(self).view() == old(self).view().drop_first().push(event)
                &&& final(self).spec_state().overflow_count == sat_inc64(
                    old(self).spec_state().overflow_count,
                )
                &&& final(self).spec_state().last_overflow_timestamp == now
            },
            !r.overflowed ==> {
                &&& r.evicted is None
                &&& final(self).view() == old(self).view().push(event)
                &&& final(self).spec_state().overflow_count == old(self).spec_state().overflow_count
                &&& final(self).spec_state().last_overflow_timestamp == old(
                    self,
                ).spec_state().last_overflow_timestamp
            },
            final(self).spec_state().len == final(self).view().len(),
            final(self).spec_state().capacity == old(self).spec_state().capacity,
            final(self).spec_state().total_pushed == sat_inc64(old(self).spec_state().total_pushed),
            final(self).spec_state().total_popped == old(self).spec_state().total_popped,
    {
        let ghost v0 = self.view();
        let cap = self.state.capacity;
        let mut evicted: Option<MonitorEvent> = None;
        let mut overflowed = false;
        if self.state.len == cap {
            let head = self.state.head;
            evicted = self.take_slot(head);
            self.state.head = if head + 1 == cap {
                0
            } else {
                head + 1
            };
            self.state.len = self.state.len - 1;
            self.state.overflow_count = self.state.overflow_count.saturating_add(1);
            self.state.last_overflow_timestamp = now;
            overflowed = true;
            assert(self.view() =~= v0.drop_first());
        }
        let ghost v1 = self.view();
        let tail = self.state.tail;
        self.slots.set(tail as usize, Some(event));
        self.state.tail = if tail + 1 == cap {
            0
        } else {
            tail + 1
        };
        self.state.len = self.state.len + 1;
        self.state.total_pushed = self.state.total_pushed.saturating_add(1);
        assert(self.view() =~= v1.push(event));
        PushOutcome { overflowed, evicted }
    }

    /// Pops the oldest event, or `None` when the queue is empty.
    pub fn pop(&mut self) -> (r: Result<Option<MonitorEvent>, Error>)
        requires
            old(self).wf(),
        ensures
            final(self).wf(),
            old(self).view().len() == 0 ==> r == Ok::<Option<MonitorEvent>, Error>(None)
                && final(self).view() == old(self).view() && final(self).spec_state() == old(
                self,
            ).spec_state(),
            old(self).view().len() > 0 ==> {
                &&& r == Ok::<Option<MonitorEvent>, Error>(Some(old(self).view()[0]))
                &&& final(self).view() == old(self).view().drop_first()
                &&& final(self).spec_state().total_popped == sat_inc64(
                    old(self).spec_state().total_popped,
                )
                &&& final(self).spec_state().total_pushed == old(self).spec_state().total_pushed
                &&& final(self).spec_state().overflow_count == old(self).spec_state().overflow_count
                &&& final(self).spec_state().last_overflow_timestamp == old(
                    self,
                ).spec_state().last_overflow_timestamp
            },
            final(self).spec_state().len == final(self).view().len(),
            final(self).spec_state().capacity == old(self).spec_state().capacity,
    {
        if self.state.len == 0 {
            return Ok(None);
        }
        let ghost v0 = self.view();
        let head = self.state.head;
        let cap = self.state.capacity;
        let event = match self.take_slot(head) {
            Some(e) => e,
            None => return Err(Error::InvalidState),
        };
        self.state.head = if head + 1 == cap {
            0
        } else {
            head + 1
        };
        self.state.len = self.state.len - 1;
        self.state.total_popped = self.state.total_popped.saturating_add(1);
        assert(self.view() =~= v0.drop_first());
        Ok(Some(event))
    }

    /// The oldest event, without removing it.
    pub fn peek(&self) -> (r: Result<Option<&MonitorEvent>, Error>)
        requires
            self.wf(),
        ensures
            self.view().len() == 0 ==> r == Ok::<Option<&MonitorEvent>, Error>(None),
            self.view().len() > 0 ==> r == Ok::<Option<&MonitorEvent>, Error>(
                Some(&self.view()[0]),
            ),
    {
        if self.state.len == 0 {
            return Ok(None);
        }
        match &self.slots[self.state.head as usize] {
            Some(e) => Ok(Some(e)),
            None => Ok(None),
        }
    }

    /// Removes up to `max_count` events, returning them oldest first.
    pub fn drain(&mut self, max_count: u32) -> (r: Result<Vec<MonitorEvent>, Error>)
        requires
            old(self).wf(),
        ensures
            final(self).wf(),
            ({
                let count = if max_count < old(self).view().len() {
                    max_count as int
                } else {
                    old(self).view().len() as int
                };
                &&& r matches Ok(v) && v@ == old(self).view().take(count)
                &&& final(self).view() == old(self).view().skip(count)
            }),
            final(self).spec_state().len == final(self).view().len(),
            final(self).spec_state().capacity == old(self).spec_state().capacity,
            final(self).spec_state().total_pushed == old(self).spec_state().total_pushed,
            final(self).spec_state().overflow_count == old(self).spec_state().overflow_count,
    {
        let ghost v0 = self.view();
        let mut result: Vec<MonitorEvent> = Vec::new();
        let count = if max_count < self.state.len {
            max_count
        } else {
            self.state.len
        };
        let mut i: u32 = 0;
        while i < count
            invariant
                self.wf(),
                0 <= i <= count,
                count <= v0.len(),
                result@ == v0.take(i as int),
                self.view() == v0.skip(i as int),
                self.spec_state().len == self.view().len(),
                self.spec_state().capacity == old(self).spec_state().capacity,
                self.spec_state().total_pushed == old(self).spec_state().total_pushed,
                self.spec_state().overflow_count == old(self).spec_state().overflow_count,
            decreases count - i,
        {
            match self.pop() {
                Ok(Some(event)) => {
                    result.push(event);
                },
                _ => {
                    return Err(Error::InvalidState);
                },
            }
            i = i + 1;
            assert(result@ =~= v0.take(i as int));
            assert(self.view() =~= v0.skip(i as int));
        }
        Ok(result)
    }

    /// Removes every event; the push, pop and overflow counters are kept.
    pub fn clear(&mut self)
        requires
            old(self).wf(),
        ensures
            final(self).wf(),
            final(self).view().len() == 0,
            final(self).spec_state() == (MonitorQueueState {
                head: 0,
                tail: 0,
                len: 0,
                ..old(self).spec_state()
            }),
    {
        let cap = self.state.capacity;
        let mut i: u32 = 0;
        while i < cap
            invariant
                0 <= i <= cap,
                cap == self.state.capacity,
                self.slots@.len() == cap,
                self.state == old(self).state,
                forall|j: int| 0 <= j < i ==> #[trigger] self.slots@[j] is None,
                MIN_QUEUE_CAPACITY <= cap <= MAX_QUEUE_CAPACITY,
            decreases cap - i,
        {
            self.slots.set(i as usize, None);
            i = i + 1;
        }
        self.state.head = 0;
        self.state.tail = 0;
        self.state.len = 0;
    }

    /// Resets the queue to its initial empty state, clearing all counters.
    pub fn reset(&mut self)
        requires
            old(self).wf(),
        ensures
            final(self).wf(),
            final(self).view().len() == 0,
            final(self).spec_state() == (MonitorQueueState {
                head: 0,
                tail: 0,
                len: 0,
                capacity: old(self).spec_state().capacity,
                total_pushed: 0,
                total_popped: 0,
                overflow_count: 0,
                last_overflow_timestamp: 0,
            }),
    {
        self.clear();
        self.state.total_pushed = 0;
        self.state.total_popped = 0;
        self.state.overflow_count = 0;
        self.state.last_overflow_timestamp = 0;
    }

    /// Summary statistics of the queue.
    pub fn stats(&self) -> (r: MonitorQueueStats)
        ensures
            r == (MonitorQueueStats {
                current_len: self.spec_state().len,
                capacity: self.spec_state().capacity,
                total_pushed: self.spec_state().total_pushed,
                total_popped: self.spec_state().total_popped,
                overflow_count: self.spec_state().overflow_count,
                last_overflow_timestamp: self.spec_state().last_overflow_timestamp,
                is_full: self.spec_state().len == self.spec_state().capacity,
                is_empty: self.spec_state().len == 0,
            }),
    {
        MonitorQueueStats {
            current_len: self.state.len,
            capacity: self.state.capacity,
            total_pushed: self.state.total_pushed,
            total_popped: self.state.total_popped,
            overflow_count: self.state.overflow_count,
            last_overflow_timestamp: self.state.last_overflow_timestamp,
            is_full: self.state.len == self.state.capacity,
            is_empty: self.state.len == 0,
        }
    }

    /// Number of events in the queue.
    pub fn len(&self) -> (r: u32)
        requires
            self.wf(),
        ensures
            r == self.view().len(),
    {
        self.state.len
    }

    /// Whether the queue holds no events.
    pub fn is_empty(&self) -> (r: bool)
        requires
            self.wf(),
        ensures
            r == (self.view().len() == 0),
    {
        self.state.len == 0
    }

    /// Whether the queue is at capacity.
    pub fn is_full(&self) -> (r: bool)
        requires
            self.wf(),
        ensures
            r == (self.view().len() == self.spec_state().capacity),
    {
        self.state.len == self.state.capacity
    }

    /// The configured capacity.
    pub fn capacity(&self) -> (r: u32)
        ensures
            r == self.spec_state().capacity,
    {
        self.state.capacity
    }

    /// All events in the queue, oldest first, without removing them.
    pub fn peek_all(&self) -> (r: Result<Vec<&MonitorEvent>, Error>)
        requires
            self.wf(),
        ensures
            r matches Ok(v) && v@.len() == self.view().len() && forall|k: int|
                0 <= k < v@.len() ==> *v@[k] == self.view()[k],
    {
        let mut result: Vec<&MonitorEvent> = Vec::new();
        let cap = self.state.capacity;
        let len = self.state.len;
        let mut idx = self.state.head;
        let mut i: u32 = 0;
        while i < len
            invariant
                self.wf(),
                cap == self.spec_state().capacity,
                len == self.spec_state().len,
                0 <= i <= len,
                idx == slot_of(self.spec_state().head as int, i as int, cap as int),
                idx < cap,
                result@.len() == i,
                forall|k: int| 0 <= k < i ==> *result@[k] == self.view()[k],
            decreases len - i,
        {
            match &self.slots[idx as usize] {
                Some(event) => {
                    result.push(event);
                },
                None => {
                    return Err(Error::InvalidState);
                },
            }
            idx = if idx + 1 == cap {
                0
            } else {
                idx + 1
            };
            i = i + 1;
        }
        Ok(result)
    }
}

// ===== LAWS =====

/// A well-formed queue has a capacity within `[MIN_QUEUE_CAPACITY,
/// MAX_QUEUE_CAPACITY]`, holds `len` events, never more than its capacity,
/// and its head and tail are positions of the ring.
pub proof fn lemma_wf_bounds(q: &BoundedMonitorQueue)
    requires
        q.wf(),
    ensures
        MIN_QUEUE_CAPACITY <= q.spec_state().capacity <= MAX_QUEUE_CAPACITY,
        q.view().len() == q.spec_state().len,
        q.spec_state().len <= q.spec_state().capacity,
        q.spec_state().head < q.spec_state().capacity,
        q.spec_state().tail < q.spec_state().capacity,
{
    let cap = q.state.capacity as int;
    assert(q.state.tail == slot_of(q.state.head as int, q.state.len as int, cap));
}


/// The queue is first-in first-out: pushing onto a queue with room and then
/// popping as many events as it held before leaves the pushed event at the
/// front. Stated over the views that push and pop guarantee.
pub proof fn lemma_fifo(before: Seq<MonitorEvent>, event: MonitorEvent)
    ensures
        before.push(event).skip(before.len() as int)[0] == event,
        before.push(event).take(before.len() as int) == before,
{
    assert(before.push(event).take(before.len() as int) =~= before);
}

/// A full queue keeps exactly its capacity: each overflowing push drops
/// the oldest event and keeps the newest `capacity` ones.
pub proof fn lemma_overflow_keeps_newest(before: Seq<MonitorEvent>, event: MonitorEvent)
    requires
        before.len() >= 1,
    ensures
        before.drop_first().push(event).len() == before.len(),
        before.drop_first().push(event) == before.push(event).skip(1),
{
    assert(before.drop_first().push(event) =~= before.push(event).skip(1));
}

} // verus!
