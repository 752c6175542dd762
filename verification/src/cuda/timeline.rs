//! Timeline of a device: completion markers, retirement and waits.

use std::collections::BTreeMap;
use std::collections::HashSet;
use vstd::prelude::*;
use vstd::std_specs::cmp::OrdSpec;
use vstd::std_specs::btree::increasing_seq;

verus! {

broadcast use {
    vstd::std_specs::hash::group_hash_axioms,
    vstd::std_specs::btree::group_btree_axioms,
    vstd::laws_cmp::group_laws_cmp,
};

/// Events that a pool keeps for reuse.
pub const EVENT_POOL_CAP: usize = 32;

/// Events that a pool holds once it is warm.
pub const EVENT_POOL_PREWARM: usize = 16;

/// Completion events that can be used again.
pub struct EventPool {
    pub free: Vec<u64>,
}

/// An event whose submission has retired.
#[derive(Clone, Copy, Debug, PartialEq, Eq, Structural)]
pub struct RetiredEvent {
    pub event: u64,
    /// A waiter still holds it.
    pub shared: bool,
}

/// The events that no waiter holds.
pub open spec fn unshared(events: Seq<RetiredEvent>) -> Seq<u64>
    decreases events.len(),
{
    if events.len() == 0 {
        Seq::empty()
    } else {
        let before = unshared(events.drop_last());
        if events.last().shared {
            before
        } else {
            before.push(events.last().event)
        }
    }
}

impl EventPool {
    /// An empty pool.
    pub fn new() -> (pool: Self)
        ensures
            pool.free@ == Seq::<u64>::empty(),
    {
        EventPool { free: Vec::new() }
    }

    /// How many events have to be created and added for the pool to be warm.
    pub fn prewarm(&self) -> (missing: usize)
        ensures
            missing == (if self.free@.len() < EVENT_POOL_PREWARM {
                EVENT_POOL_PREWARM - self.free@.len()
            } else {
                0
            }),
    {
        if self.free.len() < EVENT_POOL_PREWARM {
            EVENT_POOL_PREWARM - self.free.len()
        } else {
            0
        }
    }

    /// Adds a newly created event.
    pub fn add(&mut self, event: u64)
        ensures
            final(self).free@ == old(self).free@.push(event),
    {
        self.free.push(event);
    }

    /// Takes the event that was added last. Where there is none, one has to be
    /// created.
    pub fn acquire(&mut self) -> (event: Option<u64>)
        ensures
            match event {
                Some(e) => old(self).free@.len() > 0 && e == old(self).free@.last()
                    && final(self).free@ == old(self).free@.drop_last(),
                None => old(self).free@.len() == 0 && final(self).free@ == old(self).free@,
            },
    {
        self.free.pop()
    }

    /// Takes retired events back. Those that a waiter still holds are left to it.
    /// What does not fit is handed out, to be destroyed.
    pub fn recycle_many(&mut self, events: &Vec<RetiredEvent>) -> (overflow: Vec<u64>)
        ensures
            final(self).free@ + overflow@ == old(self).free@ + unshared(events@),
            final(self).free@.len() >= old(self).free@.len(),
            overflow@.len() > 0 ==> final(self).free@.len() >= EVENT_POOL_CAP,
            final(self).free@.len() <= EVENT_POOL_CAP || final(self).free@ == old(self).free@,
    {
        let mut overflow: Vec<u64> = Vec::new();
        let mut i: usize = 0;
        assert(self.free@ + overflow@ =~= old(self).free@ + unshared(events@.take(0)));
        while i < events.len()
            invariant
                i <= events.len(),
                self.free@ + overflow@ == old(self).free@ + unshared(events@.take(i as int)),
                self.free@.len() >= old(self).free@.len(),
                overflow@.len() > 0 ==> self.free@.len() >= EVENT_POOL_CAP,
                self.free@.len() <= EVENT_POOL_CAP || self.free@ == old(self).free@,
            decreases events.len() - i,
        {
            let ghost free = self.free@;
            let ghost over = overflow@;
            assert(events@.take(i + 1).drop_last() =~= events@.take(i as int));
            if !events[i].shared {
                let event: u64 = events[i].event;
                if self.free.len() < EVENT_POOL_CAP {
                    self.free.push(event);
                    assert(over =~= Seq::empty());
                    assert(self.free@ + overflow@ =~= (free + over).push(event));
                } else {
                    overflow.push(event);
                    assert(self.free@ + overflow@ =~= (free + over).push(event));
                }
                assert(old(self).free@ + unshared(events@.take(i + 1)) =~= (old(self).free@
                    + unshared(events@.take(i as int))).push(event));
            }
            i += 1;
        }
        assert(events@.take(i as int) =~= events@);
        overflow
    }
}

/// How a timeline value becomes observable as complete.
#[derive(Clone, Copy, Debug, PartialEq, Eq, Structural)]
pub enum LedgerCompletion {
    /// An event recorded on the submission stream of its context.
    CudaEvent { event: u64 },
    /// A value of a fence of the presentation device: the recycle fence or the ready
    /// fence. The value is zero until it is bound.
    Dx12Fence { companion: u64, value: u64, recycle: bool },
}

/// One completion marker of a timeline value.
#[derive(Clone, Copy, Debug, PartialEq, Eq, Structural)]
pub struct LedgerEntry {
    pub context: u64,
    pub completion: LedgerCompletion,
    /// The event was recorded, or the fence signal submitted.
    pub recorded: bool,
}

/// The completion can be asked about: a fence needs its value.
pub open spec fn observable(completion: LedgerCompletion) -> bool {
    completion matches LedgerCompletion::Dx12Fence { companion, value, recycle } ==> value > 0
}

fn is_observable(completion: &LedgerCompletion) -> (seen: bool)
    ensures
        seen == observable(*completion),
{
    match *completion {
        LedgerCompletion::CudaEvent { .. } => true,
        LedgerCompletion::Dx12Fence { companion, value, recycle } => value > 0,
    }
}

impl LedgerEntry {
    /// Whether the entry is complete, given whether its event or fence is.
    pub fn is_complete(&self, signaled: bool) -> (complete: bool)
        ensures
            complete == (observable(self.completion) && signaled),
    {
        is_observable(&self.completion) && signaled
    }
}

/// The completion markers of a device by timeline value.
pub struct EventLedger {
    entries: BTreeMap<u64, LedgerEntry>,
}

impl View for EventLedger {
    type V = Map<u64, LedgerEntry>;

    closed spec fn view(&self) -> Map<u64, LedgerEntry> {
        self.entries@
    }
}

/// What a wait for a timeline value comes to.
#[derive(Clone, Copy, Debug, PartialEq, Eq, Structural)]
pub enum WaitCompletion {
    /// There is something to wait for.
    Pending { completion: LedgerCompletion },
    /// The value has retired.
    AlreadyComplete,
    /// The value was not submitted on this context.
    Missing,
}

/// The completion of a value of a context.
pub open spec fn completion_of(ledger: Map<u64, LedgerEntry>, context: u64, value: u64) -> Option<
    LedgerCompletion,
> {
    if ledger.contains_key(value) && ledger[value].context == context {
        Some(ledger[value].completion)
    } else {
        None
    }
}

/// What a wait comes to. A value that is not in the ledger any more has retired.
pub open spec fn wait_outcome(
    ledger: Map<u64, LedgerEntry>,
    retired: u64,
    context: u64,
    value: u64,
) -> WaitCompletion {
    match completion_of(ledger, context, value) {
        Some(completion) => WaitCompletion::Pending { completion },
        None => if 0 < value <= retired {
            WaitCompletion::AlreadyComplete
        } else {
            WaitCompletion::Missing
        },
    }
}

/// A completion to ask about.
#[derive(Clone, Copy, Debug, PartialEq, Eq, Structural)]
pub struct CompletionQuery {
    pub value: u64,
    pub completion: LedgerCompletion,
}

/// The entry belongs to the context, was recorded and can be asked about.
pub open spec fn asked(entry: LedgerEntry, context: u64) -> bool {
    entry.context == context && entry.recorded && observable(entry.completion)
}

/// The value was recorded and its completion has been seen.
pub open spec fn retirable(ledger: Map<u64, LedgerEntry>, complete: Set<u64>, value: u64) -> bool {
    ledger.contains_key(value) && ledger[value].recorded && observable(ledger[value].completion)
        && complete.contains(value)
}

/// `to` is how far a device whose values up to `from` have retired has come: every
/// value up to it can retire, the next one cannot.
pub open spec fn retires_to(
    ledger: Map<u64, LedgerEntry>,
    complete: Set<u64>,
    from: u64,
    to: u64,
) -> bool {
    &&& from <= to
    &&& forall|v: u64| from < v <= to ==> #[trigger] retirable(ledger, complete, v)
    &&& !retirable(ledger, complete, (to + 1) as u64)
}

/// The entries above the retirement floor.
pub open spec fn above(ledger: Map<u64, LedgerEntry>, retired: u64) -> Map<u64, LedgerEntry> {
    ledger.remove_keys(ledger.dom().filter(|v: u64| v <= retired))
}

/// The events of the entries with values below `n`, by increasing value.
pub open spec fn events_below(ledger: Map<u64, LedgerEntry>, n: nat) -> Seq<u64>
    decreases n,
{
    if n == 0 {
        Seq::empty()
    } else {
        let before = events_below(ledger, (n - 1) as nat);
        let value = (n - 1) as u64;
        if ledger.contains_key(value) {
            match ledger[value].completion {
                LedgerCompletion::CudaEvent { event } => before.push(event),
                LedgerCompletion::Dx12Fence { .. } => before,
            }
        } else {
            before
        }
    }
}

proof fn lemma_no_events_between(ledger: Map<u64, LedgerEntry>, a: nat, b: nat)
    requires
        a <= b <= 0x1_0000_0000_0000_0000,
        forall|v: u64| a <= v < b ==> !ledger.contains_key(v),
    ensures
        events_below(ledger, a) == events_below(ledger, b),
    decreases b,
{
    if a < b {
        lemma_no_events_between(ledger, a, (b - 1) as nat);
    }
}

/// The values, in increasing order.
pub open spec fn increasing(values: Seq<u64>) -> bool {
    forall|i: int, j: int| 0 <= i < j < values.len() ==> values[i] < values[j]
}

proof fn lemma_in_order(keys: Seq<u64>, i: int, j: int)
    requires
        increasing_seq(keys),
        0 <= i < j < keys.len(),
    ensures
        keys[i] < keys[j],
{
    assert(keys[i].cmp_spec(&keys[j]) is Less);
}

fn sorted_values(entries: &BTreeMap<u64, LedgerEntry>) -> (values: Vec<u64>)
    ensures
        increasing(values@),
        forall|v: u64| #[trigger] values@.contains(v) <==> entries@.contains_key(v),
{
    let mut values: Vec<u64> = Vec::new();
    let ghost all = entries@;
    for entry in iter: entries.iter()
        invariant
            all == entries@,
            increasing_seq(iter.seq().map_values(|kv: (&u64, &LedgerEntry)| *kv.0)),
            forall|i: int|
                0 <= i < iter.seq().len() ==> all.contains_key(*(#[trigger] iter.seq()[i]).0),
            forall|k: u64| #[trigger] all.contains_key(k) ==> iter.seq().contains((&k, &all[k])),
            values@.len() == iter.index(),
            forall|i: int| 0 <= i < values@.len() ==> values@[i] == *(#[trigger] iter.seq()[i]).0,
            forall|i: int| 0 <= i < values@.len() ==> all.contains_key(#[trigger] values@[i]),
            forall|i: int|
                0 <= i < iter.index() ==> values@.contains(*(#[trigger] iter.seq()[i]).0),
            increasing(values@),
    {
        let ghost before = values@;
        values.push(*entry.0);
        proof {
            let keys = iter.seq().map_values(|kv: (&u64, &LedgerEntry)| *kv.0);
            assert forall|i: int| 0 <= i < before.len() implies before[i] < *entry.0 by {
                assert(keys[i] == *iter.seq()[i].0);
                assert(keys[before.len() as int] == *entry.0);
                lemma_in_order(keys, i, before.len() as int);
            }
            assert forall|i: int| 0 <= i < values@.len() implies values@.contains(
                *(#[trigger] iter.seq()[i]).0,
            ) by {
                assert(values@[i] == *iter.seq()[i].0);
            }
        }
    }
    assert forall|v: u64| #[trigger] values@.contains(v) <==> entries@.contains_key(v) by {
        if values@.contains(v) {
            let i = choose|i: int| 0 <= i < values@.len() && values@[i] == v;
            assert(values@[i] == v);
        }
    }
    values
}

/// Where a context and its device stand.
#[derive(Clone, Copy, Debug, PartialEq, Eq, Structural)]
pub struct TimelineProgress {
    /// Largest completed value of the context.
    pub context_completed: u64,
    /// Largest value whose completion was signaled to listeners.
    pub last_emitted: u64,
    /// Every value up to this one has completed on the device.
    pub device_retired: u64,
}

/// What a poll found.
pub struct PollOutcome {
    /// Values whose completion has to be signaled, in order.
    pub signals: Vec<u64>,
    /// Events of the entries that retired, by increasing value.
    pub retired_events: Vec<u64>,
}

/// The value of the context has completed.
pub open spec fn completed_on(
    ledger: Map<u64, LedgerEntry>,
    complete: Set<u64>,
    context: u64,
    value: u64,
) -> bool {
    ledger.contains_key(value) && asked(ledger[value], context) && complete.contains(value)
}

/// `high` is the largest completed value of the context, zero where there is none.
pub open spec fn is_high_water(
    ledger: Map<u64, LedgerEntry>,
    complete: Set<u64>,
    context: u64,
    high: u64,
) -> bool {
    &&& high > 0 ==> completed_on(ledger, complete, context, high)
    &&& forall|v: u64| #[trigger] completed_on(ledger, complete, context, v) ==> v <= high
}

/// `latest` is the largest value entered for a context, zero where there is none.
pub open spec fn is_latest(ledger: Map<u64, LedgerEntry>, context: u64, latest: u64) -> bool {
    &&& latest > 0 ==> ledger.contains_key(latest) && ledger[latest].context == context
    &&& forall|v: u64| #[trigger]
        ledger.contains_key(v) && ledger[v].context == context ==> v <= latest
}

/// The value was recorded on the context and is not complete.
pub open spec fn is_pending(
    ledger: Map<u64, LedgerEntry>,
    context: u64,
    complete: Set<u64>,
    value: u64,
) -> bool {
    ledger.contains_key(value) && ledger[value].context == context && ledger[value].recorded && !(
    observable(ledger[value].completion) && complete.contains(value))
}

/// The values after `last` up to `completed`.
pub open spec fn crossed(last: u64, completed: u64) -> Seq<u64> {
    Seq::new(
        if completed > last {
            (completed - last) as nat
        } else {
            0
        },
        |i: int| (last + 1 + i) as u64,
    )
}

/// The larger value.
pub open spec fn larger(a: u64, b: u64) -> u64 {
    if a >= b {
        a
    } else {
        b
    }
}

/// The ledger after retirement: nothing is pruned before anything has retired.
pub open spec fn pruned(ledger: Map<u64, LedgerEntry>, retired: u64) -> Map<u64, LedgerEntry> {
    if retired == 0 {
        ledger
    } else {
        above(ledger, retired)
    }
}

/// The events of what pruning takes out, by increasing value.
pub open spec fn pruned_events(ledger: Map<u64, LedgerEntry>, retired: u64) -> Seq<u64> {
    if retired == 0 {
        Seq::empty()
    } else {
        events_below(ledger, (retired + 1) as nat)
    }
}

impl EventLedger {
    /// A ledger without entries.
    pub fn new() -> (ledger: Self)
        ensures
            ledger@ == Map::<u64, LedgerEntry>::empty(),
    {
        EventLedger { entries: BTreeMap::new() }
    }

    /// Enters the completion marker of a value.
    pub fn insert(&mut self, value: u64, entry: LedgerEntry)
        ensures
            final(self)@ == old(self)@.insert(value, entry),
    {
        self.entries.insert(value, entry);
    }

    /// The entry of a value.
    pub fn entry(&self, value: u64) -> (entry: Option<LedgerEntry>)
        ensures
            entry == (if self@.contains_key(value) {
                Some(self@[value])
            } else {
                None
            }),
    {
        match self.entries.get(&value) {
            Some(entry) => Some(*entry),
            None => None,
        }
    }

    /// The completion of a value of a context.
    pub fn lookup_completion(&self, context: u64, value: u64) -> (completion: Option<
        LedgerCompletion,
    >)
        ensures
            completion == completion_of(self@, context, value),
    {
        match self.entries.get(&value) {
            Some(entry) => if entry.context == context {
                Some(entry.completion)
            } else {
                None
            },
            None => None,
        }
    }

    /// The event of a value of a context, where an event marks it.
    pub fn lookup_event(&self, context: u64, value: u64) -> (event: Option<u64>)
        ensures
            event == (match completion_of(self@, context, value) {
                Some(LedgerCompletion::CudaEvent { event }) => Some(event),
                _ => None,
            }),
    {
        match self.lookup_completion(context, value) {
            Some(LedgerCompletion::CudaEvent { event }) => Some(event),
            _ => None,
        }
    }

    /// Notes that the event of a value was recorded.
    pub fn mark_recorded(&mut self, value: u64)
        ensures
            final(self)@ == (if old(self)@.contains_key(value) {
                old(self)@.insert(
                    value,
                    (LedgerEntry { recorded: true, ..old(self)@[value] }),
                )
            } else {
                old(self)@
            }),
    {
        let found = match self.entries.get(&value) {
            Some(entry) => Some(*entry),
            None => None,
        };
        if let Some(entry) = found {
            self.entries.insert(value, LedgerEntry { recorded: true, ..entry });
        }
    }

    /// Sets the fence value of an entry that a fence marks.
    pub fn bind_dx12_fence_value(&mut self, timeline: u64, fence_value: u64)
        ensures
            final(self)@ == (match old(self)@[timeline].completion {
                LedgerCompletion::Dx12Fence { companion, value, recycle } if old(
                    self,
                )@.contains_key(timeline) => old(self)@.insert(
                    timeline,
                    LedgerEntry {
                        completion: LedgerCompletion::Dx12Fence {
                            companion,
                            value: fence_value,
                            recycle,
                        },
                        ..old(self)@[timeline]
                    },
                ),
                _ => old(self)@,
            }),
    {
        let found = match self.entries.get(&timeline) {
            Some(entry) => Some(*entry),
            None => None,
        };
        if let Some(entry) = found {
            if let LedgerCompletion::Dx12Fence { companion, value, recycle } = entry.completion {
                self.entries.insert(
                    timeline,
                    LedgerEntry {
                        completion: LedgerCompletion::Dx12Fence {
                            companion,
                            value: fence_value,
                            recycle,
                        },
                        ..entry
                    },
                );
            }
        }
    }

    /// What a wait for a value comes to.
    pub fn completion_for_wait(&self, retired: u64, context: u64, value: u64) -> (outcome:
        WaitCompletion)
        ensures
            outcome == wait_outcome(self@, retired, context, value),
    {
        if let Some(completion) = self.lookup_completion(context, value) {
            return WaitCompletion::Pending { completion };
        }
        if value > 0 && value <= retired {
            return WaitCompletion::AlreadyComplete;
        }
        WaitCompletion::Missing
    }

    /// The completions to ask about: those of the recorded entries, by increasing
    /// value. Entries of every context count towards retirement.
    pub fn queries(&self) -> (queries: Vec<CompletionQuery>)
        ensures
            forall|i: int, j: int|
                0 <= i < j < queries@.len() ==> (#[trigger] queries@[i]).value < (
                #[trigger] queries@[j]).value,
            forall|i: int|
                0 <= i < queries@.len() ==> {
                    let q = #[trigger] queries@[i];
                    self@.contains_key(q.value) && self@[q.value].recorded && observable(
                        q.completion,
                    ) && self@[q.value].completion == q.completion
                },
            forall|v: u64| #[trigger]
                self@.contains_key(v) && self@[v].recorded && observable(self@[v].completion)
                    ==> exists|i: int| 0 <= i < queries@.len() && (#[trigger] queries@[i]).value == v,
    {
        let values = sorted_values(&self.entries);
        let mut queries: Vec<CompletionQuery> = Vec::new();
        let mut i: usize = 0;
        while i < values.len()
            invariant
                i <= values.len(),
                increasing(values@),
                forall|v: u64| #[trigger] values@.contains(v) <==> self@.contains_key(v),
                forall|a: int, b: int|
                    0 <= a < b < queries@.len() ==> (#[trigger] queries@[a]).value < (
                    #[trigger] queries@[b]).value,
                forall|a: int|
                    0 <= a < queries@.len() ==> {
                        let q = #[trigger] queries@[a];
                        self@.contains_key(q.value) && self@[q.value].recorded && observable(
                            q.completion,
                        ) && self@[q.value].completion == q.completion
                    },
                forall|a: int, b: int|
                    0 <= a < queries@.len() && i <= b < values@.len() ==> (
                    #[trigger] queries@[a]).value < #[trigger] values@[b],
                forall|b: int|
                    0 <= b < i && self@[#[trigger] values@[b]].recorded && observable(
                        self@[values@[b]].completion,
                    ) ==> exists|a: int|
                        0 <= a < queries@.len() && (#[trigger] queries@[a]).value == values@[b],
            decreases values.len() - i,
        {
            let value: u64 = values[i];
            let ghost before = queries@;
            assert(values@.contains(value));
            match self.entries.get(&value) {
                Some(entry) => {
                    if entry.recorded && is_observable(&entry.completion) {
                        queries.push(CompletionQuery { value, completion: entry.completion });
                        assert(queries@[before.len() as int].value == value);
                    }
                },
                None => {},
            }
            proof {
                assert forall|b: int|
                    0 <= b < i + 1 && self@[#[trigger] values@[b]].recorded && observable(
                        self@[values@[b]].completion,
                    ) implies exists|a: int|
                    0 <= a < queries@.len() && (#[trigger] queries@[a]).value == values@[b] by {
                    if b < i {
                        let a = choose|a: int|
                            0 <= a < before.len() && (#[trigger] before[a]).value == values@[b];
                        assert(queries@[a].value == values@[b]);
                    }
                }
            }
            i += 1;
        }
        assert forall|v: u64| #[trigger]
            self@.contains_key(v) && self@[v].recorded && observable(
                self@[v].completion,
            ) implies exists|a: int| 0 <= a < queries@.len() && (#[trigger] queries@[a]).value == v by {
            assert(values@.contains(v));
            let b = choose|b: int| 0 <= b < values@.len() && values@[b] == v;
            assert(self@[values@[b]].recorded);
        }
        queries
    }

    fn high_water(&self, context: u64, complete: &HashSet<u64>) -> (high: u64)
        ensures
            is_high_water(self@, complete@, context, high),
    {
        let values = sorted_values(&self.entries);
        let mut high: u64 = 0;
        let mut i: usize = 0;
        while i < values.len()
            invariant
                i <= values.len(),
                increasing(values@),
                forall|v: u64| #[trigger] values@.contains(v) <==> self@.contains_key(v),
                high > 0 ==> completed_on(self@, complete@, context, high),
                i < values.len() ==> high <= values@[i as int],
                forall|b: int|
                    0 <= b < i && completed_on(
                        self@,
                        complete@,
                        context,
                        #[trigger] values@[b],
                    ) ==> values@[b] <= high,
            decreases values.len() - i,
        {
            let value: u64 = values[i];
            assert(values@.contains(value));
            match self.entries.get(&value) {
                Some(entry) => {
                    if entry.context == context && entry.recorded && is_observable(
                        &entry.completion,
                    ) && complete.contains(&value) {
                        high = value;
                    }
                },
                None => {},
            }
            i += 1;
        }
        assert forall|v: u64| #[trigger] completed_on(
            self@,
            complete@,
            context,
            v,
        ) implies v <= high by {
            assert(values@.contains(v));
            let b = choose|b: int| 0 <= b < values@.len() && values@[b] == v;
            assert(completed_on(self@, complete@, context, values@[b]));
        }
        high
    }

    /// The largest value entered for a context, zero where there is none.
    pub fn latest_value(&self, context: u64) -> (latest: u64)
        ensures
            is_latest(self@, context, latest),
    {
        let values = sorted_values(&self.entries);
        let mut latest: u64 = 0;
        let mut i: usize = 0;
        while i < values.len()
            invariant
                i <= values.len(),
                increasing(values@),
                forall|v: u64| #[trigger] values@.contains(v) <==> self@.contains_key(v),
                latest > 0 ==> self@.contains_key(latest) && self@[latest].context == context,
                i < values.len() ==> latest <= values@[i as int],
                forall|b: int|
                    0 <= b < i && self@[#[trigger] values@[b]].context == context ==> values@[b]
                        <= latest,
            decreases values.len() - i,
        {
            let value: u64 = values[i];
            assert(values@.contains(value));
            match self.entries.get(&value) {
                Some(entry) => {
                    if entry.context == context {
                        latest = value;
                    }
                },
                None => {},
            }
            i += 1;
        }
        assert forall|v: u64| #[trigger]
            self@.contains_key(v) && self@[v].context == context implies v <= latest by {
            assert(values@.contains(v));
            let b = choose|b: int| 0 <= b < values@.len() && values@[b] == v;
            assert(self@[values@[b]].context == context);
        }
        latest
    }

    /// Whether some recorded entry of a context is not complete. `complete` holds the
    /// values whose completion has been seen.
    pub fn has_pending(&self, context: u64, complete: &HashSet<u64>) -> (pending: bool)
        ensures
            pending == exists|v: u64| #[trigger] is_pending(self@, context, complete@, v),
    {
        let values = sorted_values(&self.entries);
        let mut i: usize = 0;
        while i < values.len()
            invariant
                i <= values.len(),
                forall|v: u64| #[trigger] values@.contains(v) <==> self@.contains_key(v),
                forall|b: int|
                    0 <= b < i ==> !is_pending(self@, context, complete@, #[trigger] values@[b]),
            decreases values.len() - i,
        {
            let value: u64 = values[i];
            assert(values@.contains(value));
            match self.entries.get(&value) {
                Some(entry) => {
                    if entry.context == context && entry.recorded && !entry.is_complete(
                        complete.contains(&value),
                    ) {
                        assert(is_pending(self@, context, complete@, value));
                        return true;
                    }
                },
                None => {},
            }
            i += 1;
        }
        assert forall|v: u64| !#[trigger] is_pending(self@, context, complete@, v) by {
            if self@.contains_key(v) {
                assert(values@.contains(v));
                let b = choose|b: int| 0 <= b < values@.len() && values@[b] == v;
                assert(!is_pending(self@, context, complete@, values@[b]));
            }
        }
        false
    }

    /// How far the device has come: the longest run of recorded and completed values
    /// after those that have retired.
    pub fn advance_device_retired(&self, complete: &HashSet<u64>, retired: u64) -> (to: u64)
        requires
            retired < u64::MAX,
            !self@.contains_key(u64::MAX),
        ensures
            retires_to(self@, complete@, retired, to),
            to < u64::MAX,
    {
        let mut to: u64 = retired;
        loop
            invariant
                !self@.contains_key(u64::MAX),
                retired <= to < u64::MAX,
                forall|v: u64| retired < v <= to ==> #[trigger] retirable(self@, complete@, v),
            decreases u64::MAX - to,
        {
            let next: u64 = to + 1;
            let done = match self.entries.get(&next) {
                Some(entry) => entry.recorded && is_observable(&entry.completion)
                    && complete.contains(&next),
                None => false,
            };
            if !done {
                assert(!retirable(self@, complete@, next));
                return to;
            }
            to = next;
        }
    }

    /// Takes out the entries that have retired, and hands back their events by
    /// increasing value.
    pub fn prune_retired_entries(&mut self, retired: u64) -> (events: Vec<u64>)
        requires
            retired < u64::MAX,
        ensures
            final(self)@ == pruned(old(self)@, retired),
            events@ == pruned_events(old(self)@, retired),
    {
        let mut events: Vec<u64> = Vec::new();
        if retired == 0 {
            return events;
        }
        let values = sorted_values(&self.entries);
        let ghost all = self@;
        let mut i: usize = 0;
        let ghost mut below: nat = 0;
        while i < values.len() && values[i] <= retired
            invariant
                i <= values.len(),
                increasing(values@),
                forall|v: u64| #[trigger] values@.contains(v) <==> all.contains_key(v),
                forall|k: int| i <= k < values@.len() ==> below <= #[trigger] values@[k],
                forall|k: int| 0 <= k < i ==> #[trigger] values@[k] < below,
                below <= retired + 1,
                retired < u64::MAX,
                forall|v: u64| #[trigger]
                    self@.contains_key(v) <==> all.contains_key(v) && below <= v,
                forall|v: u64| #[trigger] self@.contains_key(v) ==> self@[v] == all[v],
                events@ == events_below(all, below),
            decreases values.len() - i,
        {
            let value: u64 = values[i];
            assert(values@.contains(value));
            proof {
                assert forall|v: u64| below <= v < value implies !all.contains_key(v) by {
                    if all.contains_key(v) {
                        assert(values@.contains(v));
                        let k = choose|k: int| 0 <= k < values@.len() && values@[k] == v;
                        assert(values@[k] == v);
                    }
                }
                lemma_no_events_between(all, below, value as nat);
                assert(events_below(all, (value + 1) as nat) == (match all[value].completion {
                    LedgerCompletion::CudaEvent { event } => events_below(all, value as nat).push(
                        event,
                    ),
                    LedgerCompletion::Dx12Fence { .. } => events_below(all, value as nat),
                }));
            }
            let ghost mid = self@;
            match self.entries.remove(&value) {
                Some(entry) => {
                    if let LedgerCompletion::CudaEvent { event } = entry.completion {
                        events.push(event);
                    }
                },
                None => {},
            }
            proof {
                assert(self@ == mid.remove(value));
                assert forall|v: u64| #[trigger]
                    self@.contains_key(v) <==> all.contains_key(v) && value + 1 <= v by {
                    assert(self@.contains_key(v) <==> mid.contains_key(v) && v != value);
                }
                assert forall|v: u64| #[trigger] self@.contains_key(v) implies self@[v]
                    == all[v] by {
                    assert(mid.contains_key(v));
                }
                below = (value + 1) as nat;
            }
            i += 1;
        }
        proof {
            assert forall|v: u64| below <= v < retired + 1 implies !all.contains_key(v) by {
                if all.contains_key(v) {
                    assert(values@.contains(v));
                    let k = choose|k: int| 0 <= k < values@.len() && values@[k] == v;
                    assert(values@[k] == v);
                    if k > i {
                        assert(values@[i as int] < values@[k]);
                    }
                }
            }
            lemma_no_events_between(all, below, (retired + 1) as nat);
            assert(self@ =~= above(all, retired));
        }
        events
    }

    /// Advances a context and its device to what has completed. `complete` holds the
    /// values whose completion has been seen.
    pub fn poll_retire_events(
        &mut self,
        context: u64,
        progress: &mut TimelineProgress,
        complete: &HashSet<u64>,
    ) -> (outcome: PollOutcome)
        requires
            old(progress).device_retired < u64::MAX,
            !old(self)@.contains_key(u64::MAX),
        ensures
            exists|high: u64|
                #[trigger] is_high_water(old(self)@, complete@, context, high)
                    && final(progress).context_completed == larger(
                    old(progress).context_completed,
                    high,
                ),
            outcome.signals@ == crossed(
                old(progress).last_emitted,
                final(progress).context_completed,
            ),
            final(progress).last_emitted == larger(
                old(progress).last_emitted,
                final(progress).context_completed,
            ),
            retires_to(
                old(self)@,
                complete@,
                old(progress).device_retired,
                final(progress).device_retired,
            ),
            final(self)@ == pruned(old(self)@, final(progress).device_retired),
            outcome.retired_events@ == pruned_events(
                old(self)@,
                final(progress).device_retired,
            ),
            final(progress).device_retired < u64::MAX,
            !final(self)@.contains_key(u64::MAX),
    {
        let high: u64 = self.high_water(context, complete);
        if high > progress.context_completed {
            progress.context_completed = high;
        }
        let completed: u64 = progress.context_completed;
        let ghost start = progress.last_emitted;
        let mut last: u64 = progress.last_emitted;
        let mut signals: Vec<u64> = Vec::new();
        while last < completed
            invariant
                start <= last,
                last <= completed || last == start,
                signals@ == crossed(start, last),
            decreases completed - last,
        {
            last += 1;
            signals.push(last);
            assert(signals@ =~= crossed(start, last));
        }
        assert(crossed(start, last) =~= crossed(start, completed));
        progress.last_emitted = last;
        progress.device_retired = self.advance_device_retired(complete, progress.device_retired);
        let retired_events = self.prune_retired_entries(progress.device_retired);
        PollOutcome { signals, retired_events }
    }
}

/// What a wait comes to, whatever the ledger holds: an entry of the context is waited
/// for, a value without one that has retired is complete, and any other is missing. A
/// value whose entry was pruned is complete, and stays so however far the device comes
/// and whatever is entered under other values.
pub proof fn waits_are_answered(
    ledger: Map<u64, LedgerEntry>,
    retired: u64,
    context: u64,
    value: u64,
    later: Map<u64, LedgerEntry>,
    later_retired: u64,
)
    ensures
        ({
            let outcome = wait_outcome(ledger, retired, context, value);
            let live = ledger.contains_key(value) && ledger[value].context == context;
            &&& outcome is Pending <==> live
            &&& live ==> outcome == (WaitCompletion::Pending {
                completion: ledger[value].completion,
            })
            &&& outcome is AlreadyComplete <==> !live && 0 < value <= retired
            &&& outcome is Missing <==> !live && !(0 < value <= retired)
        }),
        0 < value && ledger.contains_key(value) && !pruned(ledger, retired).contains_key(value)
            && !later.contains_key(value) && retired <= later_retired ==> wait_outcome(
            later,
            later_retired,
            context,
            value,
        ) is AlreadyComplete,
{
}

/// Pruning changes no answer but for what has retired: a value that had a
/// completion keeps it, or has retired and is known to be complete.
pub proof fn pruning_keeps_waits_answered(
    ledger: Map<u64, LedgerEntry>,
    retired: u64,
    context: u64,
    value: u64,
)
    requires
        value > 0,
    ensures
        wait_outcome(pruned(ledger, retired), retired, context, value) == (if 0 < value <= retired {
            WaitCompletion::AlreadyComplete
        } else {
            wait_outcome(ledger, retired, context, value)
        }),
{
}

/// How far a device has come is determined by what has completed.
pub proof fn retirement_is_unique(
    ledger: Map<u64, LedgerEntry>,
    complete: Set<u64>,
    from: u64,
    a: u64,
    b: u64,
)
    requires
        from < u64::MAX,
        a < u64::MAX,
        b < u64::MAX,
        retires_to(ledger, complete, from, a),
        retires_to(ledger, complete, from, b),
    ensures
        a == b,
{
    if a < b {
        assert(retirable(ledger, complete, (a + 1) as u64));
    }
    if b < a {
        assert(retirable(ledger, complete, (b + 1) as u64));
    }
}

/// Seeing more completions never takes back a retirement.
pub proof fn retirement_is_monotonic(
    ledger: Map<u64, LedgerEntry>,
    seen: Set<u64>,
    more: Set<u64>,
    from: u64,
    a: u64,
    b: u64,
)
    requires
        from < u64::MAX,
        b < u64::MAX,
        seen.subset_of(more),
        retires_to(ledger, seen, from, a),
        retires_to(ledger, more, from, b),
    ensures
        a <= b,
{
    if b < a {
        assert(retirable(ledger, seen, (b + 1) as u64));
        assert(retirable(ledger, more, (b + 1) as u64));
    }
}

/// Polls one after the other signal every crossed value once, in order.
pub proof fn signals_continue(last: u64, middle: u64, completed: u64)
    requires
        last <= middle <= completed,
    ensures
        crossed(last, middle) + crossed(middle, completed) == crossed(last, completed),
{
    assert(crossed(last, middle) + crossed(middle, completed) =~= crossed(last, completed));
}

/// Something to wait for.
#[derive(Clone, Copy, Debug, PartialEq, Eq, Structural)]
pub enum BlockingWait {
    Event { event: u64 },
    Fence { companion: u64, fence: u64, recycle: bool },
    /// A value that was never submitted.
    Absent { context: u64, value: u64 },
}

/// Why a wait cannot block.
#[derive(Clone, Copy, Debug, PartialEq, Eq, Structural)]
pub enum WaitError {
    /// The fence value is not known yet.
    UnboundFence,
    NoCompletionEvent { context: u64, value: u64 },
}

/// A call that blocks.
#[derive(Clone, Copy, Debug, PartialEq, Eq, Structural)]
pub enum BlockCall {
    SynchronizeEvent { event: u64 },
    WaitFence { companion: u64, fence: u64, recycle: bool },
}

/// What a wait with a timeout does next.
#[derive(Clone, Copy, Debug, PartialEq, Eq, Structural)]
pub enum TimedWaitNext {
    /// The wait is over: whether it saw the completion.
    Finished { complete: bool },
    /// Sleep a millisecond and look again.
    Sleep,
}

impl BlockingWait {
    /// The call that waits without a timeout.
    pub fn block(&self) -> (call: Result<BlockCall, WaitError>)
        ensures
            call == (match *self {
                BlockingWait::Event { event } => Ok(BlockCall::SynchronizeEvent { event }),
                BlockingWait::Fence { companion, fence, recycle } => if fence == 0 {
                    Err(WaitError::UnboundFence)
                } else {
                    Ok(BlockCall::WaitFence { companion, fence, recycle })
                },
                BlockingWait::Absent { context, value } => Err(
                    WaitError::NoCompletionEvent { context, value },
                ),
            }),
    {
        match *self {
            BlockingWait::Event { event } => Ok(BlockCall::SynchronizeEvent { event }),
            BlockingWait::Fence { companion, fence, recycle } => if fence == 0 {
                Err(WaitError::UnboundFence)
            } else {
                Ok(BlockCall::WaitFence { companion, fence, recycle })
            },
            BlockingWait::Absent { context, value } => Err(
                WaitError::NoCompletionEvent { context, value },
            ),
        }
    }

    /// Whether looking at the event or fence can end the wait.
    pub fn can_complete(&self) -> (can: bool)
        ensures
            can == (match *self {
                BlockingWait::Event { .. } => true,
                BlockingWait::Fence { companion, fence, recycle } => fence > 0,
                BlockingWait::Absent { .. } => false,
            }),
    {
        match *self {
            BlockingWait::Event { .. } => true,
            BlockingWait::Fence { companion, fence, recycle } => fence > 0,
            BlockingWait::Absent { .. } => false,
        }
    }

    /// What a wait with a timeout does after it has looked at the clock and at the
    /// event or fence. What cannot complete reports a timeout at once; past the
    /// deadline one last look decides.
    pub fn block_timeout(&self, timeout_ms: u32, past_deadline: bool, complete: bool) -> (next:
        TimedWaitNext)
        ensures
            next == (match *self {
                BlockingWait::Absent { .. } => TimedWaitNext::Finished { complete: false },
                BlockingWait::Fence { companion, fence, recycle } if fence == 0 =>
                    TimedWaitNext::Finished { complete: false },
                _ => if timeout_ms == 0 || past_deadline {
                    TimedWaitNext::Finished { complete }
                } else if complete {
                    TimedWaitNext::Finished { complete: true }
                } else {
                    TimedWaitNext::Sleep
                },
            }),
    {
        if !self.can_complete() {
            return TimedWaitNext::Finished { complete: false };
        }
        if timeout_ms == 0 || past_deadline {
            return TimedWaitNext::Finished { complete };
        }
        if complete {
            TimedWaitNext::Finished { complete: true }
        } else {
            TimedWaitNext::Sleep
        }
    }
}

} // verus!
