use std::collections::HashSet;

use goldy::cuda::timeline::{
    EventLedger, EventPool, LedgerCompletion, LedgerEntry, RetiredEvent, TimelineProgress,
    WaitCompletion, EVENT_POOL_CAP, EVENT_POOL_PREWARM,
};

fn event(context: u64, event: u64, recorded: bool) -> LedgerEntry {
    LedgerEntry { context, completion: LedgerCompletion::CudaEvent { event }, recorded }
}

fn fence(context: u64, value: u64) -> LedgerEntry {
    LedgerEntry {
        context,
        completion: LedgerCompletion::Dx12Fence { companion: 3, value, recycle: true },
        recorded: true,
    }
}

fn ledger() -> EventLedger {
    let mut ledger = EventLedger::new();
    ledger.insert(1, event(5, 101, true));
    ledger.insert(2, event(6, 102, true));
    ledger.insert(3, event(5, 103, true));
    ledger.insert(4, event(5, 104, false));
    ledger
}

fn start() -> TimelineProgress {
    TimelineProgress { context_completed: 0, last_emitted: 0, device_retired: 0 }
}

#[test]
fn pool_is_filled_and_bounded() {
    let mut pool = EventPool::new();
    assert_eq!(pool.prewarm(), EVENT_POOL_PREWARM);
    pool.add(1);
    assert_eq!(pool.prewarm(), EVENT_POOL_PREWARM - 1);
    assert_eq!(pool.acquire(), Some(1));
    assert_eq!(pool.acquire(), None);
    let mut retired: Vec<RetiredEvent> =
        (0..EVENT_POOL_CAP as u64 + 2).map(|event| RetiredEvent { event, shared: false }).collect();
    retired.push(RetiredEvent { event: 900, shared: true });
    let overflow = pool.recycle_many(&retired);
    assert_eq!(pool.free.len(), EVENT_POOL_CAP);
    assert_eq!(overflow, vec![EVENT_POOL_CAP as u64, EVENT_POOL_CAP as u64 + 1]);
}

#[test]
fn lookups_stay_on_their_context() {
    let ledger = ledger();
    assert_eq!(ledger.lookup_event(5, 1), Some(101));
    assert_eq!(ledger.lookup_event(6, 1), None);
    assert_eq!(ledger.lookup_completion(6, 2), Some(LedgerCompletion::CudaEvent { event: 102 }));
    assert_eq!(ledger.latest_value(5), 4);
    assert_eq!(ledger.latest_value(6), 2);
    assert_eq!(ledger.latest_value(7), 0);
    let values: Vec<u64> = ledger.queries().iter().map(|q| q.value).collect();
    assert_eq!(values, vec![1, 2, 3]);
}

#[test]
fn waits_find_what_is_pending_or_retired() {
    let ledger = ledger();
    assert_eq!(
        ledger.completion_for_wait(0, 5, 3),
        WaitCompletion::Pending { completion: LedgerCompletion::CudaEvent { event: 103 } }
    );
    assert_eq!(ledger.completion_for_wait(9, 5, 9), WaitCompletion::AlreadyComplete);
    assert_eq!(ledger.completion_for_wait(9, 5, 10), WaitCompletion::Missing);
    assert_eq!(ledger.completion_for_wait(9, 5, 0), WaitCompletion::Missing);
}

#[test]
fn retirement_stops_at_the_first_gap() {
    let ledger = ledger();
    let complete: HashSet<u64> = [1, 3, 4].into_iter().collect();
    assert_eq!(ledger.advance_device_retired(&complete, 0), 1);
    let complete: HashSet<u64> = [1, 2, 3, 4].into_iter().collect();
    // The last value was not recorded yet.
    assert_eq!(ledger.advance_device_retired(&complete, 0), 3);
}

#[test]
fn polls_signal_each_value_once() {
    let mut ledger = ledger();
    let mut progress = start();
    let complete: HashSet<u64> = [1, 2].into_iter().collect();
    let first = ledger.poll_retire_events(5, &mut progress, &complete);
    assert_eq!(first.signals, vec![1]);
    assert_eq!(first.retired_events, vec![101, 102]);
    assert_eq!(progress.device_retired, 2);
    assert_eq!(ledger.completion_for_wait(2, 5, 1), WaitCompletion::AlreadyComplete);
    ledger.mark_recorded(4);
    let complete: HashSet<u64> = [3, 4].into_iter().collect();
    let second = ledger.poll_retire_events(5, &mut progress, &complete);
    assert_eq!(second.signals, vec![2, 3, 4]);
    assert_eq!(second.retired_events, vec![103, 104]);
    assert_eq!(progress.context_completed, 4);
    assert_eq!(progress.last_emitted, 4);
    let third = ledger.poll_retire_events(5, &mut progress, &complete);
    assert!(third.signals.is_empty());
}

#[test]
fn pruning_gives_back_events_only() {
    let mut ledger = ledger();
    ledger.insert(2, fence(5, 7));
    assert_eq!(ledger.prune_retired_entries(0), Vec::<u64>::new());
    assert_eq!(ledger.prune_retired_entries(3), vec![101, 103]);
    assert!(ledger.entry(3).is_none());
    assert!(ledger.entry(4).is_some());
    for value in [1, 2, 3] {
        assert_eq!(ledger.completion_for_wait(3, 5, value), WaitCompletion::AlreadyComplete);
        assert_eq!(ledger.completion_for_wait(9, 6, value), WaitCompletion::AlreadyComplete);
    }
    assert_eq!(ledger.completion_for_wait(3, 5, 0), WaitCompletion::Missing);
    assert_eq!(ledger.completion_for_wait(3, 5, 77), WaitCompletion::Missing);
}

#[test]
fn fences_count_once_they_are_bound() {
    let mut ledger = EventLedger::new();
    ledger.insert(1, fence(5, 0));
    let complete: HashSet<u64> = [1].into_iter().collect();
    assert!(ledger.queries().is_empty());
    assert!(!ledger.entry(1).unwrap().is_complete(true));
    assert!(ledger.has_pending(5, &complete));
    assert_eq!(ledger.advance_device_retired(&complete, 0), 0);
    ledger.bind_dx12_fence_value(1, 9);
    assert_eq!(
        ledger.lookup_completion(5, 1),
        Some(LedgerCompletion::Dx12Fence { companion: 3, value: 9, recycle: true })
    );
    assert!(!ledger.has_pending(5, &complete));
    assert!(ledger.has_pending(5, &HashSet::new()));
    assert_eq!(ledger.advance_device_retired(&complete, 0), 1);
    assert_eq!(ledger.lookup_event(5, 1), None);
}
