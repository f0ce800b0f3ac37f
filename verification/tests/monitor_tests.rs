use predictify_hybrid::errors::Error;
use predictify_hybrid::monitor::{
    BoundedMonitorQueue, MonitorEvent, MonitorEventCategory, MonitorEventSeverity,
    MonitorQueueState, DEFAULT_QUEUE_CAPACITY, MAX_QUEUE_CAPACITY, MIN_QUEUE_CAPACITY,
};

fn setup() -> BoundedMonitorQueue {
    BoundedMonitorQueue::initialize(4).unwrap()
}

fn make_event(id: &str, category: MonitorEventCategory) -> MonitorEvent {
    MonitorEvent {
        event_id: id.to_string(),
        category,
        severity: MonitorEventSeverity::Info,
        message: "test event".to_string(),
        market_id: None,
        actor: None,
        timestamp: 0,
        metadata: Vec::new(),
    }
}

#[test]
fn initialize_sets_capacity() {
    let q = BoundedMonitorQueue::initialize(10).unwrap();
    assert_eq!(q.capacity(), 10);
    assert_eq!(q.len(), 0);
    assert!(q.is_empty());
    assert!(!q.is_full());
}

#[test]
fn initialize_rejects_zero_capacity() {
    let result = BoundedMonitorQueue::initialize(0);
    assert!(matches!(result, Err(Error::InvalidInput)));
}

#[test]
fn initialize_rejects_capacity_above_max() {
    let result = BoundedMonitorQueue::initialize(MAX_QUEUE_CAPACITY + 1);
    assert!(matches!(result, Err(Error::InvalidInput)));
}

#[test]
fn push_increments_len() {
    let mut q = setup();
    let out = q.push(make_event("e1", MonitorEventCategory::Market), 0);
    assert!(!out.overflowed);
    assert_eq!(q.len(), 1);
    assert_eq!(q.stats().total_pushed, 1);
}

#[test]
fn pop_returns_fifo_order() {
    let mut q = setup();
    q.push(make_event("e1", MonitorEventCategory::Market), 0);
    q.push(make_event("e2", MonitorEventCategory::Oracle), 0);
    q.push(make_event("e3", MonitorEventCategory::Bet), 0);

    let popped1 = q.pop().unwrap().unwrap();
    let popped2 = q.pop().unwrap().unwrap();
    let popped3 = q.pop().unwrap().unwrap();

    assert_eq!(popped1.event_id, "e1");
    assert_eq!(popped2.event_id, "e2");
    assert_eq!(popped3.event_id, "e3");

    assert!(q.is_empty());
    assert_eq!(q.stats().total_popped, 3);
}

#[test]
fn pop_empty_queue_returns_none() {
    let mut q = setup();
    let result = q.pop().unwrap();
    assert!(result.is_none());
}

#[test]
fn overflow_evicts_oldest_and_returns_true() {
    let mut q = setup();
    for i in 0..4 {
        q.push(make_event(&format!("e{}", i), MonitorEventCategory::System), 0);
    }
    assert!(q.is_full());

    let out = q.push(make_event("overflow", MonitorEventCategory::System), 0);
    assert!(out.overflowed);

    let stats = q.stats();
    assert_eq!(stats.overflow_count, 1);
    assert_eq!(stats.current_len, 4);

    let first = q.pop().unwrap().unwrap();
    assert_eq!(first.event_id, "e1");
}

#[test]
fn multiple_overflows_track_cumulative_count() {
    let mut q = setup();
    for i in 0..4 {
        q.push(make_event(&format!("e{}", i), MonitorEventCategory::System), 0);
    }
    for i in 0..3 {
        q.push(make_event(&format!("extra{}", i), MonitorEventCategory::System), 0);
    }

    let stats = q.stats();
    assert_eq!(stats.overflow_count, 3);
    assert_eq!(stats.total_pushed, 7);
    assert_eq!(stats.current_len, 4);

    let first = q.pop().unwrap().unwrap();
    assert_eq!(first.event_id, "e3");
}

#[test]
fn peek_does_not_remove() {
    let mut q = setup();
    q.push(make_event("peek_test", MonitorEventCategory::Market), 0);

    let peeked = q.peek().unwrap().unwrap();
    assert_eq!(peeked.event_id, "peek_test");

    assert_eq!(q.len(), 1);
}

#[test]
fn peek_empty_returns_none() {
    let q = setup();
    assert!(q.peek().unwrap().is_none());
}

#[test]
fn drain_returns_up_to_max_count() {
    let mut q = setup();
    for i in 0..3 {
        q.push(make_event(&format!("d{}", i), MonitorEventCategory::System), 0);
    }

    let drained = q.drain(2).unwrap();
    assert_eq!(drained.len(), 2);
    assert_eq!(q.len(), 1);

    assert_eq!(drained[0].event_id, "d0");
    assert_eq!(drained[1].event_id, "d1");
}

#[test]
fn drain_all_with_large_max() {
    let mut q = setup();
    for i in 0..2 {
        q.push(make_event(&format!("d{}", i), MonitorEventCategory::System), 0);
    }

    let drained = q.drain(u32::MAX).unwrap();
    assert_eq!(drained.len(), 2);
    assert!(q.is_empty());
}

#[test]
fn drain_empty_queue_returns_empty_vec() {
    let mut q = setup();
    let drained = q.drain(10).unwrap();
    assert_eq!(drained.len(), 0);
}

#[test]
fn clear_removes_all_events() {
    let mut q = setup();
    for i in 0..3 {
        q.push(make_event(&format!("c{}", i), MonitorEventCategory::System), 0);
    }

    q.clear();
    assert!(q.is_empty());
    assert_eq!(q.len(), 0);

    assert_eq!(q.stats().total_pushed, 3);
}

#[test]
fn reset_clears_everything() {
    let mut q = setup();
    for i in 0..3 {
        q.push(make_event(&format!("r{}", i), MonitorEventCategory::System), 0);
    }

    q.reset();
    let stats = q.stats();
    assert_eq!(stats.current_len, 0);
    assert_eq!(stats.total_pushed, 0);
    assert_eq!(stats.total_popped, 0);
    assert_eq!(stats.overflow_count, 0);
}

#[test]
fn peek_all_returns_fifo_without_removing() {
    let mut q = setup();
    q.push(make_event("a", MonitorEventCategory::Market), 0);
    q.push(make_event("b", MonitorEventCategory::Oracle), 0);

    let all = q.peek_all().unwrap();
    assert_eq!(all.len(), 2);
    assert_eq!(all[0].event_id, "a");
    assert_eq!(all[1].event_id, "b");

    assert_eq!(q.len(), 2);
}

#[test]
fn push_pop_wrap_around_indices() {
    let mut q = setup();
    for i in 0..4 {
        q.push(make_event(&format!("w{}", i), MonitorEventCategory::System), 0);
    }
    q.drain(2).unwrap();

    for i in 0..3 {
        q.push(make_event(&format!("wrap{}", i), MonitorEventCategory::System), 0);
    }

    assert_eq!(q.len(), 4);

    let first = q.pop().unwrap().unwrap();
    assert_eq!(first.event_id, "w3");
}

#[test]
fn stats_matches_manual_tracking() {
    let mut q = setup();
    for i in 0..6 {
        q.push(make_event(&format!("s{}", i), MonitorEventCategory::System), 0);
    }
    q.pop().unwrap();

    let stats = q.stats();
    assert_eq!(stats.capacity, 4);
    assert_eq!(stats.current_len, 3);
    assert_eq!(stats.total_pushed, 6);
    assert_eq!(stats.total_popped, 1);
    assert_eq!(stats.overflow_count, 2);
    assert!(!stats.is_full);
    assert!(!stats.is_empty);
}

#[test]
fn capacity_boundaries() {
    let mut q = BoundedMonitorQueue::initialize(MIN_QUEUE_CAPACITY).unwrap();
    assert_eq!(q.capacity(), 1);

    q.push(make_event("min", MonitorEventCategory::System), 0);
    assert!(q.is_full());

    let out = q.push(make_event("min2", MonitorEventCategory::System), 0);
    assert!(out.overflowed);

    let popped = q.pop().unwrap().unwrap();
    assert_eq!(popped.event_id, "min2");
}

#[test]
fn overflow_returns_evicted_event_and_time() {
    let mut q = BoundedMonitorQueue::initialize(2).unwrap();
    q.push(make_event("old", MonitorEventCategory::Fee), 1);
    q.push(make_event("mid", MonitorEventCategory::Fee), 2);
    let out = q.push(make_event("new", MonitorEventCategory::Fee), 77);
    assert!(out.overflowed);
    assert_eq!(out.evicted.unwrap().event_id, "old");
    assert_eq!(q.stats().last_overflow_timestamp, 77);
    assert_eq!(q.get_state().head, 1);
    assert_eq!(q.get_state().tail, 1);
}

#[test]
fn default_queue_state_uses_default_capacity() {
    let state = MonitorQueueState::default();
    assert_eq!(state.capacity, DEFAULT_QUEUE_CAPACITY);
    assert_eq!(state.len, 0);
    assert_eq!(state.total_pushed, 0);
    assert!(MonitorEventSeverity::Info < MonitorEventSeverity::Critical);
}
