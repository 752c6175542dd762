//! What buffers are made as, what submissions leave behind, and how lists begin and end.

use vstd::prelude::*;

use super::barriers::{
    Barrier, ACCESS_COMMON, ACCESS_COPY_DEST, ACCESS_UNORDERED_ACCESS, SYNC_ALL,
    SYNC_COMPUTE_SHADING, SYNC_COPY,
};
use super::buffer::{
    allocation_width, is_created, pair_plan, tiles_for, CreatePlan, DataAccess,
};
use super::buffer_lifecycle::{first_tiles, is_resized, wants_reserved, ReservedSupport};
use super::buffer_resize::ResizePlan;
use super::command_list::Call;
use super::context::{
    released_pool, AllocatorSlot, PendingDeletion, RetainedGraph, SubmissionContext,
};
use super::deletion::reached;
use super::finish::{
    stamped, submitted, with_released, SubmitFinish,
};
use super::frame_table::ContextFrameTable;
use super::staging::{slices, uploads, Staged};
use super::stream::{list_close, list_open, marked_rendered};
use super::tile_laws::holds_exactly;
use super::types::{BufferFlags, BufferState, RenderTargetState, Tile};

verus! {

broadcast use vstd::std_specs::hash::group_hash_axioms;

/// A buffer is allocated with what was asked for at the least, and with exactly that if it
/// is a storage buffer; a uniform buffer has room for its size up to a whole number of 256
/// bytes.
pub proof fn allocation_holds_the_buffer(
    logical_size: u64,
    allocation_size: u64,
    access: DataAccess,
)
    requires
        logical_size <= allocation_size,
    ensures
        ({
            let width = allocation_width(logical_size, allocation_size, access);
            &&& width >= allocation_size
            &&& access is Scattered ==> width == allocation_size
            &&& access is Broadcast ==> width == allocation_size || width % 256 == 0 && logical_size
                <= width < logical_size + 256
            &&& access is Broadcast ==> logical_size - logical_size % 256 + 256 <= width
                || logical_size % 256 == 0
        }),
{
}

/// The resources of a buffer: a storage buffer lies in memory of the device and is read and
/// written anywhere, a uniform buffer lies in memory that the host writes. A buffer that is
/// read back has one more, as wide, that the host reads.
pub proof fn resources_suit_the_buffer(width: u64, is_storage: bool, cpu_readable: bool)
    ensures
        ({
            let plan = pair_plan(width, is_storage, cpu_readable);
            &&& plan.main.width == width
            &&& plan.main.allow_unordered_access == is_storage
            &&& is_storage ==> plan.main.heap is Default && plan.main.initial_state is Common
            &&& !is_storage ==> plan.main.heap is Upload && plan.main.initial_state is GenericRead
            &&& plan.readback is Some <==> cpu_readable
            &&& plan.readback matches Some(r) ==> r.width == width && r.heap is Readback
                && r.initial_state is CopyDest && !r.allow_unordered_access
        }),
{
}

/// A buffer that was created is the one that was planned: of its size and its allocation,
/// over its own resource, in its own slots.
pub proof fn created_buffer_is_as_planned(
    b: BufferState,
    plan: CreatePlan,
    resource: u64,
    readback: Option<u64>,
    slot: u32,
    srv_slot: u32,
)
    requires
        is_created(b, plan, resource, readback, slot, srv_slot),
    ensures
        b.size == plan.size,
        b.allocation_size == plan.allocation_size,
        b.device_handle == plan.device_handle,
        b.resource == resource,
        b.coherent_readback == readback,
        b.coherent_readback_mapped <==> readback is Some,
        b.element_stride == plan.element_stride,
        b.flags == plan.flags,
        b.is_storage <==> plan.access is Scattered,
        b.bindless_offset == Some(slot),
        b.bindless_srv_offset == (if plan.access is Scattered {
            Some(srv_slot)
        } else {
            None
        }),
        !b.is_view && !b.is_reserved && !b.transient_placed,
        b.upload_buffer is None,
{
}

/// A resized buffer keeps everything by which it is known: its device, its slots, its
/// elements and its flags. Its size, its allocation and its resources are the new ones, and
/// it has no upload buffer yet.
pub proof fn resized_buffer_keeps_its_names(
    b: BufferState,
    old: BufferState,
    plan: ResizePlan,
    resource: u64,
    readback: Option<u64>,
)
    requires
        is_resized(b, old, plan, resource, readback),
    ensures
        b.device_handle == old.device_handle,
        b.bindless_offset == old.bindless_offset,
        b.bindless_srv_offset == old.bindless_srv_offset,
        b.is_storage == old.is_storage,
        b.element_stride == old.element_stride,
        b.flags == old.flags,
        b.size == plan.new_size,
        b.allocation_size == plan.allocation_size,
        b.resource == resource,
        b.coherent_readback == readback,
        b.coherent_readback_mapped <==> readback is Some,
        b.upload_buffer is None,
        !b.is_reserved,
{
}

/// A buffer is reserved exactly where it has room to grow, is a storage buffer that the
/// host does not read, and the device maps tiles, has a pool of them and is not told
/// otherwise.
pub proof fn reserved_where_it_can_grow(
    device: Option<ReservedSupport>,
    initial_size: u64,
    capacity: u64,
    access: DataAccess,
    flags: BufferFlags,
)
    ensures
        wants_reserved(device, initial_size, capacity, access, flags) <==> {
            &&& initial_size < capacity
            &&& access is Scattered
            &&& !flags.cpu_readable
            &&& device is Some
            &&& device->0.supports_reserved_buffers
            &&& device->0.has_tile_pool
            &&& !device->0.disabled
        },
{
}

/// A new reserved buffer has exactly the tiles mapped that its size needs, in the order in
/// which they were handed over.
pub proof fn new_reserved_buffer_maps_its_size(size: u64, count: int, tiles: Seq<Tile>, i: int)
    requires
        tiles.len() == tiles_for(size),
        tiles.len() <= count,
    ensures
        first_tiles(count, tiles).len() == count,
        holds_exactly(first_tiles(count, tiles), size as int),
        0 <= i < tiles.len() ==> first_tiles(count, tiles)[i] == Some(tiles[i]),
{
}

/// The slot of a submission waits for its value from then on, and no other slot changes.
pub proof fn stamped_slot_waits_for_its_submission(
    pool: Seq<AllocatorSlot>,
    idx: int,
    fence_value: u64,
    other: int,
)
    requires
        0 <= idx < pool.len(),
        0 <= other < pool.len(),
        other != idx,
    ensures
        stamped(pool, idx, fence_value).len() == pool.len(),
        stamped(pool, idx, fence_value)[idx].fence_value == fence_value,
        stamped(pool, idx, fence_value)[idx].allocator == pool[idx].allocator,
        stamped(pool, idx, fence_value)[idx].command_list == pool[idx].command_list,
        stamped(pool, idx, fence_value)[idx].retained == pool[idx].retained,
        stamped(pool, idx, fence_value)[other] == pool[other],
{
}

/// Each resource that a submission used up waits behind everything that waited before, for
/// the value of the submission.
pub proof fn used_up_resources_wait_for_their_submission(
    queue: Seq<(u64, PendingDeletion)>,
    fence_value: u64,
    resources: Seq<u64>,
    i: int,
)
    requires
        0 <= i < resources.len(),
    ensures
        ({
            let after = with_released(queue, fence_value, resources);
            &&& after.len() == queue.len() + resources.len()
            &&& after.take(queue.len() as int) == queue
            &&& after[queue.len() + i].0 == fence_value
            &&& after[queue.len() + i].1 == PendingDeletion::StandaloneResource(resources[i])
        }),
{
    let after = with_released(queue, fence_value, resources);
    assert(after.take(queue.len() as int) =~= queue);
}

/// Whatever is released waited for a value that has been reached.
pub proof fn nothing_is_released_early<T>(entries: Seq<(u64, T)>, completed: u64, k: int) -> (i:
    int)
    requires
        0 <= k < reached(entries, completed).len(),
    ensures
        0 <= i < entries.len(),
        entries[i].0 <= completed,
        entries[i].1 == reached(entries, completed)[k],
    decreases entries.len(),
{
    let rest = reached(entries.drop_last(), completed);
    if k < rest.len() {
        nothing_is_released_early(entries.drop_last(), completed, k)
    } else {
        entries.len() - 1
    }
}

/// A list that is retained is the one of the slot it was recorded in, with the descriptors
/// it uses and the row it has staged, if it has staged one; it replaces what was retained
/// under its key, and nothing else.
pub proof fn retained_list_is_the_submitted_one(
    before: SubmissionContext,
    after: SubmissionContext,
    table: ContextFrameTable,
    submit: SubmitFinish,
    fence_value: u64,
    key: u64,
    other: u64,
)
    requires
        submitted(before, after, table, submit, fence_value),
        submit.retain_key == Some(key),
        submit.slot_idx < before.compute_allocator_pool@.len(),
        before.compute_allocator_pool@[submit.slot_idx as int].command_list is Some,
        other != key,
    ensures
        ({
            let slot = before.compute_allocator_pool@[submit.slot_idx as int];
            let list = after.retained_graphs@[key];
            let now = after.compute_allocator_pool@[submit.slot_idx as int];
            &&& after.retained_graphs@.contains_key(key)
            &&& list.command_list == slot.command_list->0
            &&& list.slot_idx == submit.slot_idx
            &&& list.used_slots == submit.used_slots
            &&& list.frame_table_row is Some <==> submit.staged && table.submission_counter > 0
            &&& list.frame_table_row matches Some(row) ==> row == (table.submission_counter - 1)
                % (table.layout.max_rows as int)
            &&& now.retained
            &&& now.fence_value == fence_value
            &&& now.command_list == slot.command_list
            &&& after.retained_graphs@.contains_key(other)
                == before.retained_graphs@.contains_key(other)
            &&& after.retained_graphs@[other] == before.retained_graphs@[other]
        }),
{
}

/// A list that is given up leaves its slot free, and no other slot but those of lists that
/// are given up.
pub proof fn given_up_lists_free_their_slots(
    pool: Seq<AllocatorSlot>,
    retained: Map<u64, RetainedGraph>,
    keys: Set<u64>,
    i: int,
)
    requires
        0 <= i < pool.len(),
    ensures
        ({
            let after = released_pool(pool, retained, keys);
            let freed = exists|k: u64| #[trigger]
                keys.contains(k) && retained.contains_key(k) && retained[k].slot_idx == i;
            &&& after.len() == pool.len()
            &&& after[i].retained <==> pool[i].retained && !freed
            &&& after[i].allocator == pool[i].allocator
            &&& after[i].command_list == pool[i].command_list
            &&& after[i].fence_value == pool[i].fence_value
        }),
{
}

/// A list begins with the heaps, and a timed one with its first timestamp then. It ends
/// with a barrier behind which all that compute and copies have written is visible to
/// everything, and a timed one with its last timestamp and the resolution of all of them.
pub proof fn list_begins_and_ends(queries: Option<u32>)
    ensures
        ({
            let open = list_open(queries is Some);
            let close = list_close(queries);
            &&& open[0] is SetDescriptorHeaps
            &&& queries is None ==> open.len() == 1 && close.len() == 2
            &&& queries is Some ==> open.len() == 2 && close.len() == 4
            &&& queries is Some ==> open[1] == (Call::EndQuery { index: 0 })
            &&& queries matches Some(count) ==> close[2] == (Call::EndQuery { index: 1 })
                && close[3] == (Call::ResolveQueries { count })
            &&& close[1] is IssueBarriers
            &&& close[0] matches Call::QueueBarrier(b)
            &&& b matches Barrier::Global(g)
            &&& g.sync_after == SYNC_ALL && g.access_after == ACCESS_COMMON
            &&& g.sync_before & SYNC_COMPUTE_SHADING != 0 && g.sync_before & SYNC_COPY != 0
            &&& g.access_before & ACCESS_UNORDERED_ACCESS != 0 && g.access_before
                & ACCESS_COPY_DEST != 0
        }),
{
    assert((0x80u32 | 0x200u32) & 0x80u32 != 0 && (0x80u32 | 0x200u32) & 0x200u32 != 0 && (0x10u32
        | 0x400u32) & 0x10u32 != 0 && (0x10u32 | 0x400u32) & 0x400u32 != 0) by (bit_vector);
}

/// Exactly the render targets that were rendered to count as rendered, besides those that
/// did before; nothing else of them changes.
pub proof fn rendered_targets_are_marked(
    targets: Map<u64, RenderTargetState>,
    rendered: Seq<u64>,
    target: u64,
)
    ensures
        ({
            let after = marked_rendered(targets, rendered);
            &&& after.contains_key(target) <==> targets.contains_key(target)
            &&& targets.contains_key(target) ==> {
                &&& after[target].has_rendered <==> targets[target].has_rendered
                    || rendered.contains(target)
                &&& after[target] == (RenderTargetState {
                    has_rendered: after[target].has_rendered,
                    ..targets[target]
                })
            }
        }),
{
}

/// Parting what was staged keeps the order: a belt slice comes right behind those staged
/// before it, and so does a texture upload.
pub proof fn parting_keeps_the_order(staged: Seq<Staged>, i: int)
    requires
        0 <= i < staged.len(),
    ensures
        staged[i] matches Staged::Slice(s) ==> {
            let at = slices(staged.take(i)).len() as int;
            at < slices(staged).len() && slices(staged)[at] == s
        },
        staged[i] matches Staged::Upload(u) ==> {
            let at = uploads(staged.take(i)).len() as int;
            at < uploads(staged).len() && uploads(staged)[at] == u
        },
        slices(staged).len() + uploads(staged).len() == staged.len(),
    decreases staged.len(),
{
    let rest = staged.drop_last();
    if i < rest.len() {
        parting_keeps_the_order(rest, i);
        assert(rest.take(i) =~= staged.take(i));
        assert(rest[i] == staged[i]);
    } else {
        assert(rest =~= staged.take(i));
        if rest.len() > 0 {
            parting_keeps_the_order(rest, 0);
        }
    }
}

} // verus!
