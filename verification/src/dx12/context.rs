//! Submission contexts: allocator pools, retained command lists, and what the
//! device has retired.

use std::collections::HashMap;
use vstd::prelude::*;

use super::deletion::DeletionQueue;
use super::frame_table::{ContextFrameTable, FrameTableError, ReserveStep};
use super::tables::{
    all_handles, handles_on_device, keys_where, on_device_keys, selected_keys, DeviceOwned,
    Selector,
};

verus! {

broadcast use vstd::std_specs::hash::group_hash_axioms;

/// A descriptor that a submission uses.
#[derive(Clone, Copy, Debug, PartialEq, Eq, Structural)]
pub enum DeferredSlot {
    CbvSrvUav(u32),
    Sampler(u32),
}

/// A command allocator of a pool with the command list recorded from it.
#[derive(Clone, Copy, Debug, PartialEq, Eq, Structural)]
pub struct AllocatorSlot {
    pub allocator: u64,
    pub command_list: Option<u64>,
    /// Timeline value of the last submission from this slot.
    pub fence_value: u64,
    /// The slot's command list is retained: its allocator must not be reset.
    pub retained: bool,
}

/// A closed command list that is kept to be executed again.
pub struct RetainedGraph {
    pub command_list: u64,
    pub slot_idx: usize,
    pub used_slots: Vec<DeferredSlot>,
    /// The frame-table row whose bytes the list copies, which it keeps pinned.
    pub frame_table_row: Option<u32>,
    /// The list was recorded from the device's pool, not the context's.
    pub on_device_queue: bool,
}

/// An object whose release waits for the GPU.
#[derive(Clone, Copy, Debug, PartialEq, Eq, Structural)]
pub enum PendingDeletion {
    /// A resource that no table knows.
    StandaloneResource(u64),
    /// The descriptors of a buffer view.
    BufferView { buffer_handle: u64 },
    /// A buffer with its descriptors and companions.
    Buffer {
        buffer_handle: u64,
        resource: u64,
        upload_buffer: Option<u64>,
        coherent_readback: Option<u64>,
        reserved: bool,
    },
    /// The resources of a buffer that was given new ones; its descriptors live on.
    ReplacedBufferGpu {
        resource: u64,
        upload_buffer: Option<u64>,
        coherent_readback: Option<u64>,
        reserved: bool,
    },
    /// A tile that goes back to its heap.
    Tile { heap: u64, offset: u64 },
}

/// Per-context submission state.
pub struct SubmissionContext {
    pub device: u64,
    pub compute_allocator_pool: Vec<AllocatorSlot>,
    pub retained_graphs: HashMap<u64, RetainedGraph>,
    pub last_submitted_seq: u64,
    pub deletion_queue: DeletionQueue<PendingDeletion>,
    /// Timeline values of submissions whose timestamps have not been read back.
    pub pending_gpu_profiles: Vec<u64>,
}

/// The pool once the lists retained under `keys` are gone: their slots can be
/// reset again.
pub open spec fn released_pool(
    pool: Seq<AllocatorSlot>,
    retained: Map<u64, RetainedGraph>,
    keys: Set<u64>,
) -> Seq<AllocatorSlot> {
    Seq::new(
        pool.len(),
        |i: int|
            AllocatorSlot {
                retained: pool[i].retained && !slot_released(retained, keys, i),
                ..pool[i]
            },
    )
}

/// One of the keys retains a list of this slot.
pub open spec fn slot_released(retained: Map<u64, RetainedGraph>, keys: Set<u64>, i: int) -> bool {
    exists|k: u64|
        #[trigger] keys.contains(k) && retained.contains_key(k) && retained[k].slot_idx == i
}

/// The keys whose lists pin a row.
pub open spec fn keys_pinning(retained: Map<u64, RetainedGraph>, row: u32) -> Set<u64> {
    retained.dom().filter(|k: u64| retained[k].frame_table_row == Some(row))
}

/// Selects the lists that pin a row.
pub struct PinsRow {
    pub row: u32,
}

impl Selector<RetainedGraph> for PinsRow {
    open spec fn selects(&self, entry: RetainedGraph) -> bool {
        entry.frame_table_row == Some(self.row)
    }

    fn test(&self, entry: &RetainedGraph) -> (selected: bool) {
        match entry.frame_table_row {
            Some(row) => row == self.row,
            None => false,
        }
    }
}

/// Rows of the retained lists lie in the table.
pub open spec fn rows_in_table(retained: Map<u64, RetainedGraph>, table: ContextFrameTable) -> bool {
    forall|k: u64| #[trigger]
        retained.contains_key(k) ==> (retained[k].frame_table_row matches Some(r) ==> r
            < table.layout.max_rows)
}

/// A row is pinned exactly where a retained list holds it, and no two lists hold
/// the same row.
pub open spec fn pins_match(retained: Map<u64, RetainedGraph>, table: ContextFrameTable) -> bool {
    &&& rows_in_table(retained, table)
    &&& forall|r: u32|
        r < table.layout.max_rows ==> (#[trigger] table.pinned(r) ==> exists|k: u64| #[trigger]
            retained.contains_key(k) && retained[k].frame_table_row == Some(r))
    &&& forall|k: u64| #[trigger]
        retained.contains_key(k) ==> (retained[k].frame_table_row matches Some(r) ==> table.pinned(
            r,
        ))
    &&& forall|k: u64, l: u64| #[trigger]
        retained.contains_key(k) && #[trigger] retained.contains_key(l) && k != l
            && retained[k].frame_table_row is Some ==> retained[k].frame_table_row
            != retained[l].frame_table_row
}

impl SubmissionContext {
    /// Nothing but the pool and the retained lists differs.
    pub open spec fn same_but_retained(self, other: SubmissionContext) -> bool {
        &&& self.device == other.device
        &&& self.last_submitted_seq == other.last_submitted_seq
        &&& self.deletion_queue == other.deletion_queue
        &&& self.pending_gpu_profiles == other.pending_gpu_profiles
    }

    /// A context with one unused allocator and nothing submitted.
    pub fn new(device: u64, allocator: u64) -> (context: SubmissionContext)
        ensures
            context.device == device,
            context.compute_allocator_pool@ == seq![
                AllocatorSlot { allocator, command_list: None, fence_value: 0, retained: false },
            ],
            context.retained_graphs@ == Map::<u64, RetainedGraph>::empty(),
            context.last_submitted_seq == 0,
            context.deletion_queue@ == Seq::<(u64, PendingDeletion)>::empty(),
            context.pending_gpu_profiles@ == Seq::<u64>::empty(),
    {
        let mut pool: Vec<AllocatorSlot> = Vec::new();
        pool.push(AllocatorSlot { allocator, command_list: None, fence_value: 0, retained: false });
        SubmissionContext {
            device,
            compute_allocator_pool: pool,
            retained_graphs: HashMap::new(),
            last_submitted_seq: 0,
            deletion_queue: DeletionQueue::new(),
            pending_gpu_profiles: Vec::new(),
        }
    }

    /// The value that the context's fence has to reach before the context can go, if it
    /// has submitted anything.
    pub fn drain_value(&self) -> (value: Option<u64>)
        ensures
            value == (if self.last_submitted_seq > 0 {
                Some(self.last_submitted_seq)
            } else {
                None
            }),
    {
        if self.last_submitted_seq > 0 {
            Some(self.last_submitted_seq)
        } else {
            None
        }
    }

    /// Drops the list retained under a key: its row is unpinned and its pool slot
    /// can be reset again. Nothing happens where no list is retained.
    pub fn evict_retained(&mut self, table: &mut ContextFrameTable, key: u64)
        requires
            old(table).wf(),
            rows_in_table(old(self).retained_graphs@, *old(table)),
        ensures
            final(self).same_but_retained(*old(self)),
            final(self).retained_graphs@ == old(self).retained_graphs@.remove(key),
            final(self).compute_allocator_pool@ == released_pool(
                old(self).compute_allocator_pool@,
                old(self).retained_graphs@,
                set![key],
            ),
            final(table).wf(),
            final(table).same_resources(*old(table)),
            final(table).tokens() == old(table).tokens(),
            final(table).submission_counter == old(table).submission_counter,
            forall|r: u32|
                r < old(table).layout.max_rows ==> (#[trigger] final(table).pinned(r)
                    <==> old(table).pinned(r) && !(old(self).retained_graphs@.contains_key(key)
                    && old(self).retained_graphs@[key].frame_table_row == Some(r))),
    {
        let ghost pool = self.compute_allocator_pool@;
        let ghost retained = self.retained_graphs@;
        match self.retained_graphs.remove(&key) {
            Some(graph) => {
                match graph.frame_table_row {
                    Some(row) => {
                        table.unpin_row(row);
                    },
                    None => {},
                }
                if graph.slot_idx < self.compute_allocator_pool.len() {
                    let slot = self.compute_allocator_pool[graph.slot_idx];
                    self.compute_allocator_pool.set(
                        graph.slot_idx,
                        AllocatorSlot { retained: false, ..slot },
                    );
                }
                assert(retained[key] == graph && set![key].contains(key));
                assert forall|i: int| 0 <= i < pool.len() implies slot_released(
                    retained,
                    set![key],
                    i,
                ) == (graph.slot_idx == i) by {
                    if slot_released(retained, set![key], i) {
                        let k = choose|k: u64| #[trigger]
                            set![key].contains(k) && retained.contains_key(k)
                                && retained[k].slot_idx == i;
                        assert(k == key);
                    }
                }
            },
            None => {
                assert(retained.remove(key) =~= retained);
                assert forall|i: int| !slot_released(retained, set![key], i) by {
                    if slot_released(retained, set![key], i) {
                        let k = choose|k: u64| #[trigger]
                            set![key].contains(k) && retained.contains_key(k)
                                && retained[k].slot_idx == i;
                        assert(k == key);
                    }
                }
            },
        }
        assert(self.compute_allocator_pool@ =~= released_pool(pool, retained, set![key]));
    }

    /// The keys of the retained lists that pin a row.
    fn keys_pinning_row(&self, row: u32) -> (keys: Vec<u64>)
        ensures
            keys@.no_duplicates(),
            keys@.to_set() == keys_pinning(self.retained_graphs@, row),
    {
        let selector = PinsRow { row };
        let keys = keys_where(&self.retained_graphs, &selector);
        assert(selected_keys(self.retained_graphs@, selector) =~= keys_pinning(
            self.retained_graphs@,
            row,
        ));
        keys
    }

    /// Drops every retained list that pins a row.
    pub fn evict_retained_pinning_row(&mut self, table: &mut ContextFrameTable, row: u32)
        requires
            old(table).wf(),
            rows_in_table(old(self).retained_graphs@, *old(table)),
        ensures
            final(self).same_but_retained(*old(self)),
            final(self).retained_graphs@ == old(self).retained_graphs@.remove_keys(
                keys_pinning(old(self).retained_graphs@, row),
            ),
            final(self).compute_allocator_pool@ == released_pool(
                old(self).compute_allocator_pool@,
                old(self).retained_graphs@,
                keys_pinning(old(self).retained_graphs@, row),
            ),
            final(table).wf(),
            final(table).same_resources(*old(table)),
            final(table).tokens() == old(table).tokens(),
            final(table).submission_counter == old(table).submission_counter,
            forall|r: u32|
                r < old(table).layout.max_rows ==> (#[trigger] final(table).pinned(r)
                    <==> old(table).pinned(r) && !(r == row && !keys_pinning(
                    old(self).retained_graphs@,
                    row,
                ).is_empty())),
    {
        let keys = self.keys_pinning_row(row);
        let ghost pool = self.compute_allocator_pool@;
        let ghost retained = self.retained_graphs@;
        let ghost pinning = keys_pinning(retained, row);
        let ghost start = *self;
        let ghost table0 = *table;
        let mut i: usize = 0;
        assert(retained.remove_keys(keys@.take(0).to_set()) =~= retained);
        assert(released_pool(pool, retained, keys@.take(0).to_set()) =~= pool);
        while i < keys.len()
            invariant
                i <= keys.len(),
                keys@.no_duplicates(),
                keys@.to_set() == pinning,
                pinning == keys_pinning(retained, row),
                self.same_but_retained(start),
                self.retained_graphs@ == retained.remove_keys(keys@.take(i as int).to_set()),
                self.compute_allocator_pool@ == released_pool(
                    pool,
                    retained,
                    keys@.take(i as int).to_set(),
                ),
                rows_in_table(retained, table0),
                table.wf(),
                table.same_resources(table0),
                table.tokens() == table0.tokens(),
                table.submission_counter == table0.submission_counter,
                forall|r: u32|
                    r < table0.layout.max_rows ==> (#[trigger] table.pinned(r) <==> table0.pinned(r)
                        && !(r == row && i > 0)),
            decreases keys.len() - i,
        {
            let key: u64 = keys[i];
            let ghost before = self.retained_graphs@;
            let ghost done = keys@.take(i as int).to_set();
            let ghost next = keys@.take(i + 1).to_set();
            let ghost mid = self.compute_allocator_pool@;
            assert(keys@.to_set().contains(keys@[i as int]));
            proof {
                lemma_take_to_set(keys@, i as int);
            }
            assert(before.contains_key(key) && before[key] == retained[key]);
            self.evict_retained(table, key);
            assert(self.retained_graphs@ =~= retained.remove_keys(next));
            assert forall|j: int| 0 <= j < pool.len() implies (slot_released(retained, next, j)
                <==> slot_released(retained, done, j) || retained[key].slot_idx == j) by {
                if slot_released(retained, next, j) {
                    let k = choose|k: u64| #[trigger]
                        next.contains(k) && retained.contains_key(k) && retained[k].slot_idx == j;
                    if k != key {
                        assert(done.contains(k));
                    }
                }
                if slot_released(retained, done, j) {
                    let k = choose|k: u64| #[trigger]
                        done.contains(k) && retained.contains_key(k) && retained[k].slot_idx == j;
                    assert(next.contains(k));
                }
                if retained[key].slot_idx == j {
                    assert(next.contains(key));
                }
            }
            assert forall|j: int| 0 <= j < pool.len() implies (slot_released(before, set![key], j)
                <==> retained[key].slot_idx == j) by {
                assert(set![key].contains(key));
                if slot_released(before, set![key], j) {
                    let k = choose|k: u64| #[trigger]
                        set![key].contains(k) && before.contains_key(k) && before[k].slot_idx == j;
                    assert(k == key);
                }
            }
            assert(self.compute_allocator_pool@ =~= released_pool(pool, retained, next));
            i += 1;
        }
        assert(keys@.take(i as int) =~= keys@);
        proof {
            if keys@.len() == 0 {
                assert(pinning =~= Set::empty());
            } else {
                assert(pinning.contains(keys@[0]));
            }
        }
    }
}

/// The set of a longer prefix has one more element, which is new where nothing
/// occurs twice.
pub(crate) proof fn lemma_take_to_set<K>(s: Seq<K>, i: int)
    requires
        0 <= i < s.len(),
    ensures
        s.take(i + 1).to_set() == s.take(i).to_set().insert(s[i]),
        s.no_duplicates() ==> !s.take(i).to_set().contains(s[i]),
        s.to_set().contains(s[i]),
{
    let a = s.take(i);
    let b = s.take(i + 1);
    assert(b[i] == s[i]);
    assert forall|x: K| #[trigger] b.to_set().contains(x) == a.to_set().insert(s[i]).contains(x) by {
        if b.contains(x) {
            let j = choose|j: int| 0 <= j < b.len() && b[j] == x;
            if j < i {
                assert(a[j] == x);
            }
        }
        if a.contains(x) {
            let j = choose|j: int| 0 <= j < a.len() && a[j] == x;
            assert(b[j] == x);
        }
    }
    assert(b.to_set() =~= a.to_set().insert(s[i]));
    if s.no_duplicates() && a.contains(s[i]) {
        let j = choose|j: int| 0 <= j < a.len() && a[j] == s[i];
        assert(s[j] == s[i]);
    }
}

/// Where the pins are those of the retained lists, dropping the lists that pin a
/// row frees it: staging into the row is not refused.
pub proof fn eviction_frees_the_row(
    retained: Map<u64, RetainedGraph>,
    before: ContextFrameTable,
    after: ContextFrameTable,
    row: u32,
)
    requires
        pins_match(retained, before),
        row < before.layout.max_rows,
        forall|r: u32|
            r < before.layout.max_rows ==> (#[trigger] after.pinned(r) <==> before.pinned(r) && !(r
                == row && !keys_pinning(retained, row).is_empty())),
    ensures
        !after.pinned(row),
{
    if before.pinned(row) {
        let k = choose|k: u64| #[trigger]
            retained.contains_key(k) && retained[k].frame_table_row == Some(row);
        assert(keys_pinning(retained, row).contains(k));
    }
}

/// Dropping the lists that pin a row keeps the pins those of the retained lists.
pub proof fn eviction_keeps_pins_matched(
    retained: Map<u64, RetainedGraph>,
    before: ContextFrameTable,
    after: ContextFrameTable,
    row: u32,
)
    requires
        pins_match(retained, before),
        row < before.layout.max_rows,
        after.layout == before.layout,
        forall|r: u32|
            r < before.layout.max_rows ==> (#[trigger] after.pinned(r) <==> before.pinned(r) && !(r
                == row && !keys_pinning(retained, row).is_empty())),
    ensures
        pins_match(retained.remove_keys(keys_pinning(retained, row)), after),
{
    eviction_frees_the_row(retained, before, after, row);
    let left = retained.remove_keys(keys_pinning(retained, row));
    assert forall|r: u32| r < after.layout.max_rows && #[trigger] after.pinned(r) implies exists|
        k: u64,
    | #[trigger] left.contains_key(k) && left[k].frame_table_row == Some(r) by {
        let k = choose|k: u64| #[trigger]
            retained.contains_key(k) && retained[k].frame_table_row == Some(r);
        assert(left.contains_key(k));
    }
    assert forall|k: u64| #[trigger] left.contains_key(k) implies (left[k].frame_table_row matches Some(
        r,
    ) ==> after.pinned(r)) by {
        assert(retained.contains_key(k));
        if left[k].frame_table_row is Some {
            let r = left[k].frame_table_row->0;
            assert(before.pinned(r));
            if r == row {
                assert(keys_pinning(retained, row).contains(k));
            }
        }
    }
}

/// The fence of a context: how far it has come, and the last value submitted
/// under it.
#[derive(Clone, Copy, Debug, PartialEq, Eq, Structural)]
pub struct ContextFence {
    pub device: u64,
    pub completed: u64,
    pub last_submitted_seq: u64,
}

impl DeviceOwned for ContextFence {
    open spec fn on_device(&self) -> u64 {
        self.device
    }

    fn device(&self) -> (device: u64) {
        self.device
    }
}

/// What is known of a device's progress besides its contexts.
#[derive(Clone, Copy, Debug, PartialEq, Eq, Structural)]
pub struct DeviceProgress {
    /// Values that destroyed contexts had reached.
    pub retired_floor: u64,
    /// How far the device's own fence has come.
    pub fence_completed: u64,
}

/// `retired` is the largest of the floor, the device fence and the fences of the
/// contexts on the device; an unknown device has only its contexts.
pub open spec fn is_device_retired(
    devices: Map<u64, DeviceProgress>,
    fences: Map<u64, ContextFence>,
    device: u64,
    retired: u64,
) -> bool {
    let known = devices.contains_key(device);
    &&& known ==> devices[device].retired_floor <= retired && devices[device].fence_completed
        <= retired
    &&& forall|c: u64| #[trigger]
        fences.contains_key(c) && fences[c].device == device ==> fences[c].completed <= retired
    &&& {
        ||| retired == 0
        ||| known && (retired == devices[device].retired_floor || retired
            == devices[device].fence_completed)
        ||| exists|c: u64| #[trigger]
            fences.contains_key(c) && fences[c].device == device && fences[c].completed == retired
    }
}

/// The largest value reached by the contexts on a device; zero where there is none.
fn max_context_completed(fences: &HashMap<u64, ContextFence>, device: u64) -> (most: u64)
    ensures
        is_device_retired(Map::empty(), fences@, device, most),
{
    let handles = handles_on_device(fences, device);
    let mut most: u64 = 0;
    let mut i: usize = 0;
    while i < handles.len()
        invariant
            i <= handles.len(),
            handles@.to_set() == on_device_keys(fences@, device),
            forall|j: int|
                0 <= j < i ==> fences@.contains_key(#[trigger] handles@[j])
                    && fences@[handles@[j]].completed <= most,
            most == 0 || exists|c: u64| #[trigger]
                fences@.contains_key(c) && fences@[c].device == device && fences@[c].completed
                    == most,
        decreases handles.len() - i,
    {
        assert(handles@.to_set().contains(handles@[i as int]));
        match fences.get(&handles[i]) {
            Some(fence) => {
                if fence.completed > most {
                    most = fence.completed;
                }
            },
            None => {},
        }
        i += 1;
    }
    assert forall|c: u64| #[trigger]
        fences@.contains_key(c) && fences@[c].device == device implies fences@[c].completed
        <= most by {
        assert(on_device_keys(fences@, device).contains(c));
        let j = choose|j: int| 0 <= j < handles@.len() && handles@[j] == c;
        assert(handles@[j] == c);
    }
    most
}

/// The latest timeline value that a device has retired.
pub fn device_retired(
    devices: &HashMap<u64, DeviceProgress>,
    fences: &HashMap<u64, ContextFence>,
    device: u64,
) -> (retired: u64)
    ensures
        is_device_retired(devices@, fences@, device, retired),
{
    let mut retired: u64 = max_context_completed(fences, device);
    match devices.get(&device) {
        Some(progress) => {
            if progress.retired_floor > retired {
                retired = progress.retired_floor;
            }
            if progress.fence_completed > retired {
                retired = progress.fence_completed;
            }
        },
        None => {},
    }
    retired
}

/// There is one such value.
pub proof fn device_retired_is_unique(
    devices: Map<u64, DeviceProgress>,
    fences: Map<u64, ContextFence>,
    device: u64,
    a: u64,
    b: u64,
)
    requires
        is_device_retired(devices, fences, device, a),
        is_device_retired(devices, fences, device, b),
    ensures
        a == b,
{
}

/// A device never un-retires: what it has retired does not fall as its fences
/// and its floor move on.
pub proof fn device_retired_is_monotonic(
    devices: Map<u64, DeviceProgress>,
    fences: Map<u64, ContextFence>,
    later_devices: Map<u64, DeviceProgress>,
    later_fences: Map<u64, ContextFence>,
    device: u64,
    retired: u64,
    later: u64,
)
    requires
        is_device_retired(devices, fences, device, retired),
        is_device_retired(later_devices, later_fences, device, later),
        devices.contains_key(device) ==> later_devices.contains_key(device)
            && devices[device].retired_floor <= later_devices[device].retired_floor
            && devices[device].fence_completed <= later_devices[device].fence_completed,
        forall|c: u64| #[trigger]
            fences.contains_key(c) && fences[c].device == device ==> {
                ||| later_fences.contains_key(c) && later_fences[c].device == device
                    && fences[c].completed <= later_fences[c].completed
                ||| later_devices.contains_key(device) && fences[c].completed
                    <= later_devices[device].retired_floor
            },
    ensures
        retired <= later,
{
}

/// The contexts on a device.
pub fn contexts_on_device(fences: &HashMap<u64, ContextFence>, device: u64) -> (contexts: Vec<u64>)
    ensures
        contexts@.no_duplicates(),
        contexts@.to_set() == on_device_keys(fences@, device),
{
    handles_on_device(fences, device)
}

/// The context on a device where there is exactly one.
pub fn sole_context_on_device(fences: &HashMap<u64, ContextFence>, device: u64) -> (context: Option<
    u64,
>)
    ensures
        match context {
            Some(c) => on_device_keys(fences@, device) == set![c],
            None => forall|c: u64| on_device_keys(fences@, device) != set![c],
        },
{
    let mut contexts = contexts_on_device(fences, device);
    let ghost on = on_device_keys(fences@, device);
    let ghost listed = contexts@;
    if contexts.len() == 1 {
        let c: u64 = contexts[0];
        assert(on =~= set![c]) by {
            assert forall|x: u64| #[trigger] on.contains(x) == set![c].contains(x) by {
                if on.contains(x) {
                    let j = choose|j: int| 0 <= j < listed.len() && listed[j] == x;
                    assert(j == 0);
                }
                if x == c {
                    assert(listed[0] == c);
                    assert(listed.to_set().contains(c));
                }
            }
        }
        Some(c)
    } else {
        proof {
            assert forall|c: u64| on != set![c] by {
                if on == set![c] {
                    assert(on.contains(c));
                    assert(listed.contains(c));
                    assert(listed.len() >= 2);
                    assert(listed.to_set().contains(listed[0]));
                    assert(listed.to_set().contains(listed[1]));
                    assert(listed[0] == c && listed[1] == c);
                }
            }
        }
        None
    }
}

/// The context to which the release of a resource is attributed, where that is
/// unambiguous.
pub fn destroy_attribution_context(fences: &HashMap<u64, ContextFence>, device: u64) -> (context:
    Option<u64>)
    ensures
        match context {
            Some(c) => on_device_keys(fences@, device) == set![c],
            None => forall|c: u64| on_device_keys(fences@, device) != set![c],
        },
{
    sole_context_on_device(fences, device)
}

/// Resources that a thread releases are attributed to a context on a device.
pub open spec fn reclaims_for(
    fences: Map<u64, ContextFence>,
    threads: Map<u64, u64>,
    device: u64,
    thread: u64,
    context: u64,
) -> bool {
    &&& on_device_keys(fences, device).contains(context)
    &&& threads.contains_key(context)
    &&& threads[context] == thread
}

/// A context on a device to which what a thread releases is attributed. `threads` names
/// the thread of each context that has one.
pub fn context_handle_for_thread(
    fences: &HashMap<u64, ContextFence>,
    threads: &HashMap<u64, u64>,
    device: u64,
    thread: u64,
) -> (context: Option<u64>)
    ensures
        match context {
            Some(c) => reclaims_for(fences@, threads@, device, thread, c),
            None => forall|c: u64| !#[trigger] reclaims_for(fences@, threads@, device, thread, c),
        },
{
    let contexts = contexts_on_device(fences, device);
    let mut i: usize = 0;
    while i < contexts.len()
        invariant
            i <= contexts.len(),
            contexts@.to_set() == on_device_keys(fences@, device),
            forall|j: int|
                0 <= j < i ==> !reclaims_for(
                    fences@,
                    threads@,
                    device,
                    thread,
                    #[trigger] contexts@[j],
                ),
        decreases contexts.len() - i,
    {
        let c: u64 = contexts[i];
        assert(contexts@.to_set().contains(contexts@[i as int]));
        if let Some(of_context) = threads.get(&c) {
            if *of_context == thread {
                return Some(c);
            }
        }
        i += 1;
    }
    assert forall|c: u64| !#[trigger] reclaims_for(fences@, threads@, device, thread, c) by {
        if reclaims_for(fences@, threads@, device, thread, c) {
            assert(contexts@.to_set().contains(c));
            let j = choose|j: int| 0 <= j < contexts@.len() && contexts@[j] == c;
            assert(contexts@[j] == c);
        }
    }
    None
}

/// The value a context has to reach before a resource released under it is free.
pub open spec fn context_barrier(fences: Map<u64, ContextFence>, context: u64) -> u64 {
    if fences.contains_key(context) {
        fences[context].last_submitted_seq
    } else {
        0
    }
}

/// The value a context has to reach before a resource released under it is free;
/// zero for an unknown context.
pub fn reclamation_barrier_for_context(fences: &HashMap<u64, ContextFence>, context: u64) -> (barrier:
    u64)
    ensures
        barrier == context_barrier(fences@, context),
{
    match fences.get(&context) {
        Some(fence) => fence.last_submitted_seq,
        None => 0,
    }
}

/// What every context on a device has to reach before an unattributed resource is
/// free: each context once, with its last submitted value.
pub open spec fn covers_device(
    fences: Map<u64, ContextFence>,
    device: u64,
    requirements: Seq<(u64, u64)>,
) -> bool {
    &&& requirements.map_values(|r: (u64, u64)| r.0).no_duplicates()
    &&& requirements.map_values(|r: (u64, u64)| r.0).to_set() == on_device_keys(fences, device)
    &&& forall|i: int|
        0 <= i < requirements.len() ==> (#[trigger] requirements[i]).1 == context_barrier(
            fences,
            requirements[i].0,
        )
}

/// Requirements of a release that cannot be attributed to one context.
pub fn reclamation_requirements_all_contexts(
    fences: &HashMap<u64, ContextFence>,
    device: u64,
) -> (requirements: Vec<(u64, u64)>)
    ensures
        covers_device(fences@, device, requirements@),
{
    let contexts = contexts_on_device(fences, device);
    let mut requirements: Vec<(u64, u64)> = Vec::new();
    let mut i: usize = 0;
    while i < contexts.len()
        invariant
            i <= contexts.len(),
            requirements@.len() == i,
            forall|j: int|
                0 <= j < i ==> #[trigger] requirements@[j] == (
                    contexts@[j],
                    context_barrier(fences@, contexts@[j]),
                ),
        decreases contexts.len() - i,
    {
        let c: u64 = contexts[i];
        requirements.push((c, reclamation_barrier_for_context(fences, c)));
        i += 1;
    }
    assert(requirements@.map_values(|r: (u64, u64)| r.0) =~= contexts@);
    requirements
}

/// Requirements of a release: of the one context it is attributed to, or of every
/// context on the device.
pub fn reclamation_requirements(
    fences: &HashMap<u64, ContextFence>,
    device: u64,
    context: Option<u64>,
) -> (requirements: Vec<(u64, u64)>)
    ensures
        match context {
            Some(c) => requirements@ == seq![(c, context_barrier(fences@, c))],
            None => covers_device(fences@, device, requirements@),
        },
{
    match context {
        Some(c) => {
            let mut requirements: Vec<(u64, u64)> = Vec::new();
            requirements.push((c, reclamation_barrier_for_context(fences, c)));
            requirements
        },
        None => reclamation_requirements_all_contexts(fences, device),
    }
}

/// The fence waits that drain every context on a device: each context that has
/// submitted anything, with its last submitted value.
pub fn wait_for_all_contexts_on_device(
    fences: &HashMap<u64, ContextFence>,
    device: u64,
) -> (waits: Vec<(u64, u64)>)
    ensures
        forall|i: int|
            0 <= i < waits@.len() ==> on_device_keys(fences@, device).contains(
                (#[trigger] waits@[i]).0,
            ) && waits@[i].1 == fences@[waits@[i].0].last_submitted_seq && waits@[i].1 > 0,
        forall|c: u64| #[trigger]
            fences@.contains_key(c) && fences@[c].device == device
                && fences@[c].last_submitted_seq > 0 ==> waits@.contains(
                (c, fences@[c].last_submitted_seq),
            ),
        forall|i: int, j: int|
            0 <= i < j < waits@.len() ==> (#[trigger] waits@[i]).0 != (#[trigger] waits@[j]).0,
{
    let contexts = contexts_on_device(fences, device);
    let ghost on = on_device_keys(fences@, device);
    let mut waits: Vec<(u64, u64)> = Vec::new();
    let mut i: usize = 0;
    while i < contexts.len()
        invariant
            i <= contexts.len(),
            on == on_device_keys(fences@, device),
            contexts@.to_set() == on,
            contexts@.no_duplicates(),
            forall|j: int|
                0 <= j < waits@.len() ==> exists|k: int|
                    0 <= k < i && contexts@[k] == (#[trigger] waits@[j]).0,
            forall|j: int, k: int|
                0 <= j < k < waits@.len() ==> (#[trigger] waits@[j]).0 != (
                #[trigger] waits@[k]).0,
            forall|j: int|
                0 <= j < waits@.len() ==> on.contains((#[trigger] waits@[j]).0) && waits@[j].1
                    == fences@[waits@[j].0].last_submitted_seq && waits@[j].1 > 0,
            forall|j: int|
                0 <= j < i && fences@[#[trigger] contexts@[j]].last_submitted_seq > 0
                    ==> waits@.contains(
                    (contexts@[j], fences@[contexts@[j]].last_submitted_seq),
                ),
        decreases contexts.len() - i,
    {
        let ghost before = waits@;
        assert(contexts@.to_set().contains(contexts@[i as int]));
        match fences.get(&contexts[i]) {
            Some(fence) => {
                if fence.last_submitted_seq > 0 {
                    waits.push((contexts[i], fence.last_submitted_seq));
                    assert(contexts@[i as int] == waits@.last().0);
                    assert(waits@.last() == (
                        contexts@[i as int],
                        fences@[contexts@[i as int]].last_submitted_seq,
                    ));
                }
            },
            None => {},
        }
        assert forall|j: int|
            0 <= j < i + 1 && fences@[#[trigger] contexts@[j]].last_submitted_seq > 0 implies waits@.contains(
        (contexts@[j], fences@[contexts@[j]].last_submitted_seq)) by {
            let w = (contexts@[j], fences@[contexts@[j]].last_submitted_seq);
            if j < i {
                let k = choose|k: int| 0 <= k < before.len() && before[k] == w;
                assert(waits@[k] == w);
            }
        }
        i += 1;
    }
    assert forall|c: u64| #[trigger]
        fences@.contains_key(c) && fences@[c].device == device && fences@[c].last_submitted_seq
            > 0 implies waits@.contains((c, fences@[c].last_submitted_seq)) by {
        assert(on.contains(c));
        let j = choose|j: int| 0 <= j < contexts@.len() && contexts@[j] == c;
        assert(contexts@[j] == c);
    }
    waits
}

impl DeviceOwned for SubmissionContext {
    open spec fn on_device(&self) -> u64 {
        self.device
    }

    fn device(&self) -> (device: u64) {
        self.device
    }
}

/// `after` is `before` without the lists that pin a row.
pub open spec fn row_evicted(before: SubmissionContext, after: SubmissionContext, row: u32) -> bool {
    &&& after.same_but_retained(before)
    &&& after.retained_graphs@ == before.retained_graphs@.remove_keys(
        keys_pinning(before.retained_graphs@, row),
    )
    &&& after.compute_allocator_pool@ == released_pool(
        before.compute_allocator_pool@,
        before.retained_graphs@,
        keys_pinning(before.retained_graphs@, row),
    )
}

/// A context on the device retains a list that pins the row.
pub open spec fn row_held_on_device(
    contexts: Map<u64, SubmissionContext>,
    device: u64,
    row: u32,
) -> bool {
    exists|c: u64| #[trigger]
        contexts.contains_key(c) && contexts[c].device == device && !keys_pinning(
            contexts[c].retained_graphs@,
            row,
        ).is_empty()
}

/// Drops every retained list that pins a row, on every context of a device.
pub fn evict_retained_pinning_row(
    contexts: &mut HashMap<u64, SubmissionContext>,
    table: &mut ContextFrameTable,
    device: u64,
    row: u32,
)
    requires
        old(table).wf(),
        forall|c: u64| #[trigger]
            old(contexts)@.contains_key(c) ==> rows_in_table(
                old(contexts)@[c].retained_graphs@,
                *old(table),
            ),
    ensures
        final(contexts)@.dom() == old(contexts)@.dom(),
        forall|c: u64| #[trigger]
            old(contexts)@.contains_key(c) ==> if old(contexts)@[c].device == device {
                row_evicted(old(contexts)@[c], final(contexts)@[c], row)
            } else {
                final(contexts)@[c] == old(contexts)@[c]
            },
        final(table).wf(),
        final(table).same_resources(*old(table)),
        final(table).tokens() == old(table).tokens(),
        final(table).submission_counter == old(table).submission_counter,
        forall|r: u32|
            r < old(table).layout.max_rows ==> (#[trigger] final(table).pinned(r)
                <==> old(table).pinned(r) && !(r == row && row_held_on_device(
                old(contexts)@,
                device,
                row,
            ))),
{
    let handles = handles_on_device(contexts, device);
    let ghost all = contexts@;
    let ghost table0 = *table;
    let ghost on = on_device_keys(all, device);
    let mut i: usize = 0;
    while i < handles.len()
        invariant
            i <= handles.len(),
            handles@.no_duplicates(),
            handles@.to_set() == on,
            on == on_device_keys(all, device),
            contexts@.dom() == all.dom(),
            forall|c: u64| #[trigger]
                all.contains_key(c) ==> if handles@.take(i as int).to_set().contains(c) {
                    row_evicted(all[c], contexts@[c], row)
                } else {
                    contexts@[c] == all[c]
                },
            forall|c: u64| #[trigger]
                all.contains_key(c) ==> rows_in_table(all[c].retained_graphs@, table0),
            table.wf(),
            table.same_resources(table0),
            table.tokens() == table0.tokens(),
            table.submission_counter == table0.submission_counter,
            forall|r: u32|
                r < table0.layout.max_rows ==> (#[trigger] table.pinned(r) <==> table0.pinned(r)
                    && !(r == row && exists|j: int|
                    0 <= j < i && !keys_pinning(
                        all[#[trigger] handles@[j]].retained_graphs@,
                        row,
                    ).is_empty())),
        decreases handles.len() - i,
    {
        let c: u64 = handles[i];
        proof {
            lemma_take_to_set(handles@, i as int);
        }
        assert(all.contains_key(c) && contexts@.dom().contains(c));
        let ghost mid = contexts@;
        let ghost table1 = *table;
        match contexts.remove(&c) {
            Some(mut context) => {
                assert(context == all[c]);
                context.evict_retained_pinning_row(table, row);
                contexts.insert(c, context);
                assert(contexts@.dom() =~= all.dom());
                assert forall|r: u32| r < table0.layout.max_rows implies (#[trigger] table.pinned(r)
                    <==> table0.pinned(r) && !(r == row && exists|j: int|
                    0 <= j < i + 1 && !keys_pinning(
                        all[#[trigger] handles@[j]].retained_graphs@,
                        row,
                    ).is_empty())) by {
                    assert(table.pinned(r) <==> table1.pinned(r) && !(r == row && !keys_pinning(
                        all[handles@[i as int]].retained_graphs@,
                        row,
                    ).is_empty()));
                    if exists|j: int|
                        0 <= j < i && !keys_pinning(
                            all[#[trigger] handles@[j]].retained_graphs@,
                            row,
                        ).is_empty() {
                        let j = choose|j: int|
                            0 <= j < i && !keys_pinning(
                                all[#[trigger] handles@[j]].retained_graphs@,
                                row,
                            ).is_empty();
                        assert(0 <= j < i + 1 && !keys_pinning(
                            all[handles@[j]].retained_graphs@,
                            row,
                        ).is_empty());
                    }
                }
            },
            None => {
                assert(false);
            },
        }
        i += 1;
    }
    assert(handles@.take(i as int) =~= handles@);
    assert((exists|j: int|
        0 <= j < i && !keys_pinning(all[#[trigger] handles@[j]].retained_graphs@, row).is_empty())
        <==> row_held_on_device(all, device, row)) by {
        if row_held_on_device(all, device, row) {
            let c = choose|c: u64| #[trigger]
                all.contains_key(c) && all[c].device == device && !keys_pinning(
                    all[c].retained_graphs@,
                    row,
                ).is_empty();
            assert(on.contains(c));
            let j = choose|j: int| 0 <= j < handles@.len() && handles@[j] == c;
            assert(!keys_pinning(all[handles@[j]].retained_graphs@, row).is_empty());
        }
        if exists|j: int|
            0 <= j < i && !keys_pinning(all[#[trigger] handles@[j]].retained_graphs@, row).is_empty() {
            let j = choose|j: int|
                0 <= j < i && !keys_pinning(
                    all[#[trigger] handles@[j]].retained_graphs@,
                    row,
                ).is_empty();
            assert(handles@.to_set().contains(handles@[j]));
        }
    }
    assert forall|c: u64| #[trigger] all.contains_key(c) implies if all[c].device == device {
        row_evicted(all[c], contexts@[c], row)
    } else {
        contexts@[c] == all[c]
    } by {
        assert(on.contains(c) == (all[c].device == device));
    }
}

/// A row that a submission may write: claimed, or with what it still waits for.
#[derive(Clone, Copy, Debug, PartialEq, Eq, Structural)]
pub struct StagingRow {
    pub row: u32,
    pub step: ReserveStep,
}

/// What taking a row of the ring for a submission comes to. A row that stays pinned
/// although no list of the context holds it is refused, then an unknown context.
pub open spec fn staging_result(
    contexts: Map<u64, SubmissionContext>,
    context: u64,
    table: ContextFrameTable,
    row: u32,
    completed: u64,
) -> Result<StagingRow, FrameTableError> {
    let known = contexts.contains_key(context);
    let held = known && !keys_pinning(contexts[context].retained_graphs@, row).is_empty();
    if table.pinned(row) && !held {
        Err(FrameTableError::StillPinned { row })
    } else if !known {
        Err(FrameTableError::InvalidContext { context })
    } else {
        Ok(
            StagingRow {
                row,
                step: super::frame_table::reserve_step(table.tokens()[row as int], completed),
            },
        )
    }
}

/// Takes the next row of the ring for a submission. Lists of the context that pin the
/// row are dropped first; the row is claimed once the work that used it last has
/// retired.
pub fn write_staging_for_submission(
    contexts: &mut HashMap<u64, SubmissionContext>,
    context: u64,
    table: &mut ContextFrameTable,
    completed: u64,
) -> (result: Result<StagingRow, FrameTableError>)
    requires
        old(table).wf(),
        old(contexts)@.contains_key(context) ==> rows_in_table(
            old(contexts)@[context].retained_graphs@,
            *old(table),
        ),
    ensures
        ({
            let row = (old(table).submission_counter % old(table).layout.max_rows) as u32;
            let known = old(contexts)@.contains_key(context);
            let before = old(contexts)@[context];
            &&& result == staging_result(old(contexts)@, context, *old(table), row, completed)
            &&& final(table).tokens() == if result is Ok && result->Ok_0.step is Claimed {
                old(table).tokens().update(row as int, super::frame_table::ROW_IN_USE)
            } else {
                old(table).tokens()
            }
            &&& final(contexts)@.dom() == old(contexts)@.dom()
            &&& forall|c: u64| #[trigger]
                old(contexts)@.contains_key(c) && c != context ==> final(contexts)@[c]
                    == old(contexts)@[c]
            &&& known && old(table).pinned(row) ==> row_evicted(
                before,
                final(contexts)@[context],
                row,
            )
            &&& known && !old(table).pinned(row) ==> final(contexts)@[context] == before
            &&& forall|r: u32|
                r < old(table).layout.max_rows ==> (#[trigger] final(table).pinned(r)
                    <==> old(table).pinned(r) && !(r == row && known && !keys_pinning(
                    before.retained_graphs@,
                    row,
                ).is_empty()))
        }),
        final(table).wf(),
        final(table).same_resources(*old(table)),
        final(table).submission_counter == (if old(table).submission_counter == u32::MAX {
            0
        } else {
            (old(table).submission_counter + 1) as u32
        }),
{
    let ghost table0 = *table;
    let ghost contexts0 = contexts@;
    let row: u32 = table.next_row();
    assert forall|r: u32| #[trigger] table.pinned(r) == table0.pinned(r) by {}
    if table.is_pinned(row) {
        match contexts.remove(&context) {
            Some(mut c) => {
                assert(contexts0.contains_key(context));
                let ghost pinned = *table;
                c.evict_retained_pinning_row(table, row);
                contexts.insert(context, c);
                assert(contexts@.dom() =~= contexts0.dom());
            },
            None => {
                assert(contexts@ =~= contexts0);
            },
        }
    }
    let ghost table2 = *table;
    table.assert_not_pinned(row)?;
    if !contexts.contains_key(&context) {
        return Err(FrameTableError::InvalidContext { context });
    }
    let step = table.reserve_row_with_backpressure(row, completed);
    assert forall|r: u32| #[trigger] table.pinned(r) == table2.pinned(r) by {}
    Ok(StagingRow { row, step })
}

/// Where the pins are those of the context's lists, staging is never refused, and
/// dropping the lists that pin the row keeps the pins those of the lists.
pub proof fn staging_is_not_refused(
    contexts: Map<u64, SubmissionContext>,
    later: Map<u64, SubmissionContext>,
    context: u64,
    before: ContextFrameTable,
    after: ContextFrameTable,
    row: u32,
    completed: u64,
)
    requires
        contexts.contains_key(context),
        pins_match(contexts[context].retained_graphs@, before),
        row < before.layout.max_rows,
        after.layout == before.layout,
        if before.pinned(row) {
            row_evicted(contexts[context], later[context], row)
        } else {
            later[context] == contexts[context]
        },
        forall|r: u32|
            r < before.layout.max_rows ==> (#[trigger] after.pinned(r) <==> before.pinned(r) && !(r
                == row && !keys_pinning(contexts[context].retained_graphs@, row).is_empty())),
    ensures
        staging_result(contexts, context, before, row, completed) is Ok,
        !after.pinned(row),
        pins_match(later[context].retained_graphs@, after),
{
    let retained = contexts[context].retained_graphs@;
    eviction_frees_the_row(retained, before, after, row);
    eviction_keeps_pins_matched(retained, before, after, row);
    let pinning = keys_pinning(retained, row);
    if before.pinned(row) {
        let k = choose|k: u64| #[trigger]
            retained.contains_key(k) && retained[k].frame_table_row == Some(row);
        assert(pinning.contains(k));
    } else {
        assert(pinning =~= Set::empty());
        assert(retained.remove_keys(pinning) =~= retained);
    }
}

/// Contexts of a backend and their fences.
pub struct ContextTable {
    pub contexts: HashMap<u64, SubmissionContext>,
    pub fences: HashMap<u64, ContextFence>,
    pub next_context_id: u64,
}

/// A context as it is when it has been created.
pub open spec fn is_fresh_context(context: SubmissionContext, device: u64, allocator: u64) -> bool {
    &&& context.device == device
    &&& context.compute_allocator_pool@ == seq![
        AllocatorSlot { allocator, command_list: None, fence_value: 0, retained: false },
    ]
    &&& context.retained_graphs@ == Map::<u64, RetainedGraph>::empty()
    &&& context.last_submitted_seq == 0
    &&& context.deletion_queue@ == Seq::<(u64, PendingDeletion)>::empty()
    &&& context.pending_gpu_profiles@ == Seq::<u64>::empty()
}

/// What is left to do once a context is gone.
pub struct DestroyedContext {
    /// The lists it had retained; their descriptors are unpinned.
    pub graphs: Vec<(u64, RetainedGraph)>,
    /// The objects that waited for it; all are released.
    pub released: Vec<PendingDeletion>,
}

impl ContextTable {
    /// A table without contexts.
    pub fn new() -> (table: ContextTable)
        ensures
            table.contexts@ == Map::<u64, SubmissionContext>::empty(),
            table.fences@ == Map::<u64, ContextFence>::empty(),
            table.next_context_id == 1,
    {
        ContextTable { contexts: HashMap::new(), fences: HashMap::new(), next_context_id: 1 }
    }

    /// Takes the id of a new context. The id is used up even where the frame table of
    /// the context cannot be made.
    pub fn next_id<D>(&mut self, devices: &HashMap<u64, D>, device: u64) -> (id: Result<
        u64,
        FrameTableError,
    >)
        ensures
            final(self).contexts == old(self).contexts,
            final(self).fences == old(self).fences,
            if devices@.contains_key(device) {
                let id0 = old(self).next_context_id;
                &&& id == Ok::<u64, FrameTableError>(id0)
                &&& final(self).next_context_id == (if id0 == u64::MAX {
                    id0
                } else {
                    (id0 + 1) as u64
                })
            } else {
                &&& id == Err::<u64, FrameTableError>(FrameTableError::InvalidDevice { device })
                &&& final(self).next_context_id == old(self).next_context_id
            },
    {
        if !devices.contains_key(&device) {
            return Err(FrameTableError::InvalidDevice { device });
        }
        let id: u64 = self.next_context_id;
        self.next_context_id = id.saturating_add(1);
        Ok(id)
    }

    /// Enters a context on a device: its fence is known before the context is.
    pub fn create(&mut self, id: u64, device: u64, allocator: u64)
        ensures
            final(self).next_context_id == old(self).next_context_id,
            final(self).fences@ == old(self).fences@.insert(
                id,
                ContextFence { device, completed: 0, last_submitted_seq: 0 },
            ),
            final(self).contexts@.dom() == old(self).contexts@.dom().insert(id),
            is_fresh_context(final(self).contexts@[id], device, allocator),
            forall|c: u64| #[trigger]
                old(self).contexts@.contains_key(c) && c != id ==> final(self).contexts@[c]
                    == old(self).contexts@[c],
    {
        self.fences.insert(id, ContextFence { device, completed: 0, last_submitted_seq: 0 });
        self.contexts.insert(id, SubmissionContext::new(device, allocator));
        assert(self.contexts@.dom() =~= old(self).contexts@.dom().insert(id));
    }

    /// The device of a context.
    pub fn context_device(&self, context: u64) -> (device: u64)
        requires
            self.contexts@.contains_key(context),
        ensures
            device == self.contexts@[context].device,
    {
        match self.contexts.get(&context) {
            Some(c) => c.device,
            None => 0,
        }
    }

    /// Takes a context out of the live tables. It stays known to its fence until
    /// its work has drained.
    pub fn detach_for_destroy(
        &mut self,
        devices: &HashMap<u64, DeviceProgress>,
        context: u64,
    ) -> (detached: Option<SubmissionContext>)
        ensures
            final(self).contexts@ == old(self).contexts@.remove(context),
            final(self).fences == old(self).fences,
            final(self).next_context_id == old(self).next_context_id,
            match detached {
                Some(c) => old(self).contexts@.contains_key(context) && c
                    == old(self).contexts@[context] && devices@.contains_key(c.device),
                None => !old(self).contexts@.contains_key(context) || !devices@.contains_key(
                    old(self).contexts@[context].device,
                ),
            },
    {
        match self.contexts.remove(&context) {
            Some(c) => {
                if devices.contains_key(&c.device) {
                    Some(c)
                } else {
                    None
                }
            },
            None => {
                assert(self.contexts@ =~= old(self).contexts@.remove(context));
                None
            },
        }
    }

    /// Finishes a context whose work has drained: its fence goes out of the table,
    /// what it had reached becomes part of the device's floor, its lists give back
    /// their slots of the device's pool, and everything that waited for it is
    /// released.
    pub fn finish_destroy(
        &mut self,
        context: u64,
        detached: SubmissionContext,
        completed: u64,
        progress: &mut DeviceProgress,
        device_pool: &mut Vec<AllocatorSlot>,
    ) -> (destroyed: DestroyedContext)
        ensures
            final(self).fences@ == old(self).fences@.remove(context),
            final(self).contexts == old(self).contexts,
            final(self).next_context_id == old(self).next_context_id,
            final(progress).fence_completed == old(progress).fence_completed,
            final(progress).retired_floor == (if completed > old(progress).retired_floor {
                completed
            } else {
                old(progress).retired_floor
            }),
            destroyed.released@ == detached.deletion_queue@.map_values(
                |e: (u64, PendingDeletion)| e.1,
            ),
            destroyed.graphs@.map_values(|g: (u64, RetainedGraph)| g.0).no_duplicates(),
            destroyed.graphs@.map_values(|g: (u64, RetainedGraph)| g.0).to_set()
                == detached.retained_graphs@.dom(),
            forall|i: int|
                0 <= i < destroyed.graphs@.len() ==> (#[trigger] destroyed.graphs@[i]).1
                    == detached.retained_graphs@[destroyed.graphs@[i].0],
            final(device_pool)@ == released_pool(
                old(device_pool)@,
                detached.retained_graphs@,
                detached.retained_graphs@.dom().filter(
                    |k: u64| detached.retained_graphs@[k].on_device_queue,
                ),
            ),
    {
        let ghost fences = self.fences@;
        self.fences.remove(&context);
        assert(self.fences@ =~= fences.remove(context));
        if completed > progress.retired_floor {
            progress.retired_floor = completed;
        }
        let mut context_state = detached;
        let released = context_state.deletion_queue.drain_everything();
        let graphs = drain_retained(context_state.retained_graphs, device_pool);
        DestroyedContext { graphs, released }
    }
}

/// Takes every retained list out, giving back the slots of the device's pool.
fn drain_retained(
    graphs: HashMap<u64, RetainedGraph>,
    device_pool: &mut Vec<AllocatorSlot>,
) -> (drained: Vec<(u64, RetainedGraph)>)
    ensures
        drained@.map_values(|g: (u64, RetainedGraph)| g.0).no_duplicates(),
        drained@.map_values(|g: (u64, RetainedGraph)| g.0).to_set() == graphs@.dom(),
        forall|i: int|
            0 <= i < drained@.len() ==> (#[trigger] drained@[i]).1 == graphs@[drained@[i].0],
        final(device_pool)@ == released_pool(
            old(device_pool)@,
            graphs@,
            graphs@.dom().filter(|k: u64| graphs@[k].on_device_queue),
        ),
{
    let keys = all_handles(&graphs);
    let ghost all = graphs@;
    let ghost pool = device_pool@;
    let mut graphs = graphs;
    let mut drained: Vec<(u64, RetainedGraph)> = Vec::new();
    let mut i: usize = 0;
    assert(all.remove_keys(keys@.take(0).to_set()) =~= all);
    assert(released_pool(pool, all, on_queue(all, keys@.take(0).to_set())) =~= pool);
    while i < keys.len()
        invariant
            i <= keys.len(),
            keys@.no_duplicates(),
            keys@.to_set() == all.dom(),
            graphs@ == all.remove_keys(keys@.take(i as int).to_set()),
            drained@.len() == i,
            forall|j: int| 0 <= j < i ==> #[trigger] drained@[j] == (keys@[j], all[keys@[j]]),
            device_pool@ == released_pool(
                pool,
                all,
                on_queue(all, keys@.take(i as int).to_set()),
            ),
        decreases keys.len() - i,
    {
        let key: u64 = keys[i];
        let ghost done = keys@.take(i as int).to_set();
        let ghost next = keys@.take(i + 1).to_set();
        proof {
            lemma_take_to_set(keys@, i as int);
        }
        assert(all.dom().contains(key));
        match graphs.remove(&key) {
            Some(graph) => {
                if graph.on_device_queue && graph.slot_idx < device_pool.len() {
                    let slot = device_pool[graph.slot_idx];
                    device_pool.set(graph.slot_idx, AllocatorSlot { retained: false, ..slot });
                }
                assert forall|j: int| 0 <= j < pool.len() implies (slot_released(
                    all,
                    on_queue(all, next),
                    j,
                ) <==> slot_released(all, on_queue(all, done), j) || (graph.on_device_queue
                    && graph.slot_idx == j)) by {
                    if slot_released(all, on_queue(all, next), j) {
                        let k = choose|k: u64| #[trigger]
                            on_queue(all, next).contains(k) && all.contains_key(k)
                                && all[k].slot_idx == j;
                        if k != key {
                            assert(on_queue(all, done).contains(k));
                        }
                    }
                    if slot_released(all, on_queue(all, done), j) {
                        let k = choose|k: u64| #[trigger]
                            on_queue(all, done).contains(k) && all.contains_key(k)
                                && all[k].slot_idx == j;
                        assert(on_queue(all, next).contains(k));
                    }
                    if graph.on_device_queue && graph.slot_idx == j {
                        assert(on_queue(all, next).contains(key));
                    }
                }
                assert(device_pool@ =~= released_pool(pool, all, on_queue(all, next)));
                drained.push((key, graph));
            },
            None => {
                assert(false);
            },
        }
        assert(graphs@ =~= all.remove_keys(next));
        i += 1;
    }
    assert(keys@.take(i as int) =~= keys@);
    assert(on_queue(all, keys@.to_set()) =~= all.dom().filter(|k: u64| all[k].on_device_queue));
    assert(drained@.map_values(|g: (u64, RetainedGraph)| g.0) =~= keys@);
    drained
}

/// The keys whose lists were recorded from the device's pool.
spec fn on_queue(graphs: Map<u64, RetainedGraph>, keys: Set<u64>) -> Set<u64> {
    keys.filter(|k: u64| graphs[k].on_device_queue)
}

/// A context counts as drained for as long as the table knows its fence: removing
/// the fence while the floor takes over what it had reached never lowers what the
/// device has retired.
pub proof fn destroying_a_context_keeps_retirement(
    devices: Map<u64, DeviceProgress>,
    fences: Map<u64, ContextFence>,
    context: u64,
    completed: u64,
    device: u64,
    retired: u64,
    later: u64,
)
    requires
        devices.contains_key(device),
        fences.contains_key(context),
        fences[context].device == device,
        fences[context].completed <= completed,
        is_device_retired(devices, fences, device, retired),
        is_device_retired(
            devices.insert(
                device,
                DeviceProgress {
                    retired_floor: if completed > devices[device].retired_floor {
                        completed
                    } else {
                        devices[device].retired_floor
                    },
                    ..devices[device]
                },
            ),
            fences.remove(context),
            device,
            later,
        ),
    ensures
        retired <= later,
{
    let later_devices = devices.insert(
        device,
        DeviceProgress {
            retired_floor: if completed > devices[device].retired_floor {
                completed
            } else {
                devices[device].retired_floor
            },
            ..devices[device]
        },
    );
    assert forall|c: u64| #[trigger]
        fences.contains_key(c) && fences[c].device == device implies fences[c].completed <= later by {
        if c != context {
            assert(fences.remove(context).contains_key(c));
        } else {
            assert(later_devices[device].retired_floor <= later);
        }
    }
}

} // verus!
