//! What is answered about contexts, devices and buffers, and what small changes do.

use std::collections::HashMap;
use vstd::prelude::*;

use super::accel::{
    check_accel_device, AccelError, AccelInstance, AccelTable, PackedInstance,
};
use super::backend::{
    BackendError, DeviceFence, Dx12Backend, EpochWait, FenceWait,
};
use super::buffer::{
    uniform_buffer_allocation_width, BufferError, BufferTable, DataAccess,
};
use super::buffer_lifecycle::{
    create_with_capacity, resize_fence, ReservedSupport, ViewPlan,
};
use super::buffer_resize::ResizePlan;
use super::context::{
    reclaims_for, sole_context_on_device, AllocatorSlot, ContextFence, ContextTable,
    DeviceProgress, SubmissionContext,
};
use super::descriptor_laws::{
    element_bytes, elements_make_up_the_bytes, tellable, view_is_created_where_it_fits,
};
use super::device::{
    check_features, fence_outcome, is_first_adapter, DeviceError, DeviceFeatures, DxgiAdapter,
    FenceOutcome, LogicalDevice,
};
use super::frame_table::{
    ContextFrameTable, ReserveStep, RowReservation, ROW_IN_USE, ROW_LIMIT,
};
use super::pso_cache::{CreateRetry, PsoCache};
use super::submit::{choose_allocator_slot, span_ticks, SlotWork, TimedSpan};
use super::tables::on_device_keys;
use super::types::BufferFlags;

verus! {

broadcast use vstd::std_specs::hash::group_hash_axioms;

/// What a thread releases is attributed to a context exactly where that is one of that very
/// thread on that very device.
pub proof fn releases_are_attributed_to_the_thread(
    fences: Map<u64, ContextFence>,
    threads: Map<u64, u64>,
    device: u64,
    thread: u64,
    context: u64,
)
    ensures
        reclaims_for(fences, threads, device, thread, context) <==> {
            &&& fences.contains_key(context)
            &&& fences[context].device == device
            &&& threads.contains_key(context)
            &&& threads[context] == thread
        },
{
}

/// A context is the sole one of a device exactly where it is on the device and no other is.
pub proof fn sole_context_is_the_only_one(
    fences: &HashMap<u64, ContextFence>,
    device: u64,
    context: Option<u64>,
    other: u64,
)
    requires
        call_ensures(sole_context_on_device, (fences, device), context),
    ensures
        context matches Some(c) ==> fences@.contains_key(c) && fences@[c].device == device,
        context matches Some(c) ==> (fences@.contains_key(other) && fences@[other].device == device
            ==> other == c),
        context is None && fences@.contains_key(other) && fences@[other].device == device
            ==> exists|c: u64|
            c != other && #[trigger] fences@.contains_key(c) && fences@[c].device == device,
{
    let on = on_device_keys(fences@, device);
    if context is Some {
        let c = context->0;
        assert(on.contains(c));
        if fences@.contains_key(other) && fences@[other].device == device {
            assert(on.contains(other));
        }
    } else if fences@.contains_key(other) && fences@[other].device == device {
        assert(on.contains(other));
        if forall|c: u64|
            c != other ==> !(#[trigger] fences@.contains_key(c) && fences@[c].device == device) {
            assert(on =~= set![other]);
        }
    }
}

/// A context that is detached is no longer live but keeps its fence; it is handed out where
/// its device is still there.
pub proof fn detached_context_keeps_its_fence(
    contexts: &mut ContextTable,
    devices: &HashMap<u64, DeviceProgress>,
    context: u64,
    detached: Option<SubmissionContext>,
    other: u64,
)
    requires
        call_ensures(ContextTable::detach_for_destroy, (contexts, devices, context), detached),
    ensures
        !final(contexts).contexts@.contains_key(context),
        final(contexts).fences == old(contexts).fences,
        other != context && old(contexts).contexts@.contains_key(other)
            ==> final(contexts).contexts@.contains_key(other) && final(contexts).contexts@[other]
            == old(contexts).contexts@[other],
        old(contexts).contexts@.contains_key(context) && devices@.contains_key(
            old(contexts).contexts@[context].device,
        ) ==> detached == Some(old(contexts).contexts@[context]),
{
}

/// A context is drained up to its last submission, and not at all before its first.
pub proof fn context_drains_to_its_last_submission(context: &SubmissionContext, value: Option<u64>)
    requires
        call_ensures(SubmissionContext::drain_value, (context,), value),
    ensures
        value is None <==> context.last_submitted_seq == 0,
        value matches Some(v) ==> v == context.last_submitted_seq,
{
}

/// A row is claimed exactly where its last user has retired and nobody has claimed it
/// since; a claimed row is then in use, and no other row changes.
pub proof fn row_is_claimed_once_it_is_free(
    table: &mut ContextFrameTable,
    row: u32,
    completed: u64,
    step: ReserveStep,
    other: int,
)
    requires
        call_ensures(
            ContextFrameTable::reserve_row_with_backpressure,
            (table, row, completed),
            step,
        ),
        row < old(table).tokens().len(),
        0 <= other < old(table).tokens().len(),
        completed < ROW_IN_USE,
    ensures
        step is Claimed <==> old(table).tokens()[row as int] <= completed,
        step is Claimed ==> final(table).tokens()[row as int] == ROW_IN_USE,
        other != row || !(step is Claimed) ==> final(table).tokens()[other]
            == old(table).tokens()[other],
        final(table).pinned_rows == old(table).pinned_rows,
{
}

/// Releasing a pinned row releases that row alone.
pub proof fn row_is_unpinned_alone(table: &mut ContextFrameTable, row: u32, other: u32)
    requires
        call_ensures(ContextFrameTable::unpin_row, (table, row), ()),
        row < ROW_LIMIT,
        other < ROW_LIMIT,
    ensures
        !final(table).pinned(row),
        other != row ==> (final(table).pinned(other) <==> old(table).pinned(other)),
        final(table).tokens() == old(table).tokens(),
{
}

/// A reservation that is committed leaves its value in its own row; one that is given up
/// leaves its row free.
pub proof fn reservation_ends_in_its_row(
    reservation: RowReservation,
    committed: &mut ContextFrameTable,
    aborted: &mut ContextFrameTable,
    token: u64,
    row: u32,
    other: int,
)
    requires
        call_ensures(RowReservation::commit, (reservation, committed, token), ()),
        call_ensures(RowReservation::abort, (reservation, aborted), ()),
        reservation.row == Some(row),
        row < old(committed).tokens().len(),
        row < old(aborted).tokens().len(),
        0 <= other < old(committed).tokens().len(),
        other < old(aborted).tokens().len(),
    ensures
        final(committed).tokens()[row as int] == token,
        final(aborted).tokens()[row as int] == 0,
        other != row ==> final(committed).tokens()[other] == old(committed).tokens()[other],
        other != row ==> final(aborted).tokens()[other] == old(aborted).tokens()[other],
{
}

/// The fence of a device's wait is that of a context on the device which has submitted the
/// value, where there is one; the device's own is waited for only where none has, the
/// value has not retired and the device is there.
pub proof fn device_wait_is_for_who_submitted(
    backend: &Dx12Backend,
    device: u64,
    value: u64,
    retired: u64,
    fence: DeviceFence,
    context: u64,
)
    requires
        call_ensures(Dx12Backend::device_wait_fence, (backend, device, value, retired), fence),
    ensures
        fence matches DeviceFence::OfContext { context: c } ==> {
            &&& backend.contexts.contexts@.contains_key(c)
            &&& backend.contexts.contexts@[c].device == device
            &&& backend.contexts.contexts@[c].last_submitted_seq >= value
        },
        backend.contexts.contexts@.contains_key(context) && backend.contexts.contexts@[context].device
            == device && backend.contexts.contexts@[context].last_submitted_seq >= value
            ==> fence is OfContext,
        fence is OfDevice ==> retired < value && backend.devices@.contains_key(device),
        fence is Nothing ==> retired >= value || !backend.devices@.contains_key(device),
{
}

/// A value of a context is waited for on the context's own fence, and only where that has
/// not reached it.
pub proof fn value_is_waited_for_on_its_context(
    backend: &Dx12Backend,
    context: u64,
    value: u64,
    wait: Result<Option<FenceWait>, BackendError>,
)
    requires
        call_ensures(Dx12Backend::take_timeline_blocking_wait, (backend, context, value), wait),
        backend.contexts.contexts@.contains_key(context),
        backend.contexts.fences@.contains_key(context),
    ensures
        wait is Ok,
        wait->Ok_0 is Some <==> backend.contexts.fences@[context].completed < value,
        wait matches Ok(Some(w)) ==> w.context == context && w.value == value,
{
}

/// The worker is waited for first only for values that were given out on the context's
/// device and that the context has not reached.
pub proof fn worker_is_waited_for_what_was_given_out(
    backend: &Dx12Backend,
    context: u64,
    value: u64,
    horizon: u64,
    wait: Option<EpochWait>,
)
    requires
        call_ensures(
            Dx12Backend::take_timeline_submission_epoch_wait,
            (backend, context, value, horizon),
            wait,
        ),
        backend.contexts.contexts@.contains_key(context),
        backend.contexts.fences@.contains_key(context),
    ensures
        wait is Some <==> {
            &&& backend.contexts.fences@[context].completed < value
            &&& backend.devices@.contains_key(backend.contexts.contexts@[context].device)
            &&& 0 < value <= horizon
        },
        wait matches Some(w) ==> w.device == backend.contexts.contexts@[context].device && w.value
            == value && w.horizon == horizon,
{
}

/// The oldest value in flight is the one after what the context has reached, where it has
/// submitted more.
pub proof fn oldest_in_flight_follows_what_was_reached(
    backend: &Dx12Backend,
    context: u64,
    value: Option<u64>,
)
    requires
        call_ensures(Dx12Backend::peek_oldest_in_flight, (backend, context), value),
        backend.contexts.contexts@.contains_key(context),
        backend.contexts.fences@.contains_key(context),
    ensures
        value is Some <==> backend.contexts.fences@[context].completed
            < backend.contexts.contexts@[context].last_submitted_seq,
        value matches Some(v) ==> v == backend.contexts.fences@[context].completed + 1,
{
}

/// The oldest image that is out is due no later than any other of its surface.
pub proof fn oldest_image_is_due_first(
    backend: &Dx12Backend,
    surface: u64,
    oldest: Option<u64>,
    i: int,
)
    requires
        call_ensures(
            Dx12Backend::peek_oldest_pending_swapchain_return,
            (backend, surface),
            oldest,
        ),
        backend.surfaces@.contains_key(surface),
        0 <= i < backend.surfaces@[surface].pending_swapchain_returns@.len(),
    ensures
        oldest is Some,
        oldest->0 <= backend.surfaces@[surface].pending_swapchain_returns@[i].return_fence,
        exists|k: int|
            0 <= k < backend.surfaces@[surface].pending_swapchain_returns@.len() && (
            #[trigger] backend.surfaces@[surface].pending_swapchain_returns@[k]).return_fence
                == oldest->0,
{
}

/// The slot that is chosen for a submission is one that nothing uses, or a new one; a list
/// that it has is reset, and one that it lacks is made.
pub proof fn chosen_slot_is_free(
    pool: &Vec<AllocatorSlot>,
    completed: u64,
    choice: (usize, SlotWork),
    i: int,
)
    requires
        call_ensures(choose_allocator_slot, (pool, completed), choice),
        0 <= i < pool@.len(),
    ensures
        choice.0 <= pool@.len(),
        choice.0 < pool@.len() ==> !pool@[choice.0 as int].retained && pool@[choice.0 as int].fence_value
            <= completed,
        i < choice.0 ==> pool@[i].retained || pool@[i].fence_value > completed,
        choice.1 is CreateBoth <==> choice.0 == pool@.len(),
        choice.1 matches SlotWork::Reset { command_list } ==> pool@[choice.0 as int].command_list
            == Some(command_list),
        choice.1 is CreateList ==> pool@[choice.0 as int].command_list is None,
{
}

/// A span of a wrapping counter is as long as it takes to count from its start to its end.
pub proof fn span_leads_from_start_to_end(span: &TimedSpan, ticks: u64)
    requires
        call_ensures(span_ticks, (span,), ticks),
    ensures
        span.start + ticks == span.end || span.start + ticks == span.end + 0x1_0000_0000_0000_0000,
{
}

/// A buffer is read by its own view for reading, where it has one, and else by its only
/// view; an unknown buffer has no index, no size and no capacity.
pub proof fn buffer_answers_for_itself(
    table: &BufferTable,
    buffer: u64,
    index: Option<u32>,
    read_index: Option<u32>,
    size: u64,
    capacity: u64,
)
    requires
        call_ensures(BufferTable::bindless_index, (table, buffer), index),
        call_ensures(BufferTable::bindless_srv_index, (table, buffer), read_index),
        call_ensures(BufferTable::size, (table, buffer), size),
        call_ensures(BufferTable::capacity, (table, buffer), capacity),
    ensures
        table.entries@.contains_key(buffer) ==> {
            let b = table.entries@[buffer];
            &&& index == b.bindless_offset
            &&& b.bindless_srv_offset is Some ==> read_index == b.bindless_srv_offset
            &&& b.bindless_srv_offset is None ==> read_index == b.bindless_offset
            &&& size == b.size
            &&& capacity == b.allocation_size
        },
        !table.entries@.contains_key(buffer) ==> index is None && read_index is None && size == 0
            && capacity == 0,
{
}

/// A uniform buffer is as wide as asked for, or as its view needs: the next multiple of 256
/// bytes.
pub proof fn uniform_buffer_holds_its_view(logical_size: u64, requested_width: u64, width: u64)
    requires
        call_ensures(uniform_buffer_allocation_width, (logical_size, requested_width), width),
        logical_size <= requested_width,
        logical_size <= u64::MAX - 255,
    ensures
        width >= requested_width,
        width >= logical_size,
        width == requested_width || (width % 256 == 0 && width < logical_size + 256),
        width as int / 256 * 256 >= logical_size,
{
}

/// A buffer is given at least its initial size, and as much as was asked for.
pub proof fn capacity_is_at_least_the_size(
    device: Option<ReservedSupport>,
    initial_size: u64,
    requested_capacity: u64,
    access: DataAccess,
    flags: BufferFlags,
    choice: (bool, u64),
)
    requires
        call_ensures(
            create_with_capacity,
            (device, initial_size, requested_capacity, access, flags),
            choice,
        ),
    ensures
        choice.1 >= initial_size,
        choice.1 >= requested_capacity,
        choice.1 == initial_size || choice.1 == requested_capacity,
{
}

/// After a copy on the device the old resources wait for the value that the copy signals,
/// which is later than any before it, and the next value is later still.
pub proof fn resized_resources_wait_for_their_copy(
    fence_value: u64,
    completed: u64,
    copied: bool,
    fence: (u64, u64),
)
    requires
        call_ensures(resize_fence, (fence_value, completed, copied), fence),
        fence_value <= u64::MAX - 2,
    ensures
        copied ==> fence_value < fence.0 < fence.1 && fence.1 == fence_value + 2,
        !copied ==> fence.0 == completed && fence.1 == fence_value,
{
}

/// A view is planned exactly where its part of the parent is there, for the bytes that were
/// asked for: its elements begin at the offset and make up the size.
pub proof fn planned_view_is_the_part_asked_for(
    table: &BufferTable,
    parent: u64,
    offset: u64,
    size: u64,
    element_stride: Option<u32>,
    plan: Result<ViewPlan, BufferError>,
)
    requires
        call_ensures(BufferTable::plan_view, (table, parent, offset, size, element_stride), plan),
        size <= u32::MAX,
        element_bytes(element_stride) > 0 ==> offset as int / element_bytes(element_stride)
            <= u32::MAX,
    ensures
        plan is Ok <==> {
            let stride = element_bytes(element_stride);
            &&& table.entries@.contains_key(parent)
            &&& table.entries@[parent].is_storage
            &&& offset + size <= table.entries@[parent].size
            &&& stride > 0
            &&& size as int % stride == 0
            &&& offset as int % stride == 0
        },
        plan matches Ok(p) ==> {
            let stride = element_bytes(element_stride);
            &&& p.parent == parent
            &&& p.offset == offset
            &&& p.size == size
            &&& p.element_stride == element_stride
            &&& p.first_element * stride == offset
            &&& p.num_elements * stride == size
        },
{
    view_is_created_where_it_fits(table.entries@, parent, offset, size, element_stride);
    if plan is Ok {
        assert(tellable(size, offset, element_stride));
        elements_make_up_the_bytes(size, offset, element_stride);
    }
}

/// A resize is planned for the size asked for, and only where that is another one.
pub proof fn resize_is_planned_for_another_size(
    table: &BufferTable,
    device_known: bool,
    device: u64,
    buffer: u64,
    new_size: u64,
    plan: Result<Option<ResizePlan>, BufferError>,
)
    requires
        call_ensures(BufferTable::plan_resize, (table, device_known, device, buffer, new_size), plan),
        plan is Ok,
    ensures
        plan->Ok_0 is None <==> new_size == table.entries@[buffer].size,
        plan matches Ok(Some(p)) ==> p.new_size == new_size,
{
}

/// A cached blob that failed is gone, and is tried once more without; another failure is
/// given up on.
pub proof fn failed_blob_is_not_tried_again(
    cache: &mut PsoCache,
    key: u64,
    used_cache: bool,
    retry: CreateRetry,
    other: u64,
)
    requires
        call_ensures(PsoCache::create_failed, (cache, key, used_cache), retry),
    ensures
        used_cache <==> retry is WithoutCache,
        used_cache ==> !final(cache).compute_blobs@.contains_key(key) && final(cache).dirty,
        !used_cache ==> final(cache).compute_blobs@ == old(cache).compute_blobs@,
        other != key && old(cache).compute_blobs@.contains_key(other)
            ==> final(cache).compute_blobs@.contains_key(other)
            && final(cache).compute_blobs@[other] == old(cache).compute_blobs@[other],
        old(cache).dirty ==> final(cache).dirty,
{
}

/// A pipeline that was created is cached under its key, and the cache is to be saved where
/// that changed it.
pub proof fn created_blob_is_cached(cache: &mut PsoCache, key: u64, blob: Vec<u8>, other: u64)
    requires
        call_ensures(PsoCache::created, (cache, key, blob), ()),
    ensures
        final(cache).compute_blobs@.contains_key(key),
        final(cache).compute_blobs@[key]@ == blob@,
        other != key && old(cache).compute_blobs@.contains_key(other)
            ==> final(cache).compute_blobs@.contains_key(other)
            && final(cache).compute_blobs@[other] == old(cache).compute_blobs@[other],
        !old(cache).compute_blobs@.contains_key(key) ==> final(cache).dirty,
        old(cache).dirty ==> final(cache).dirty,
        !final(cache).dirty ==> final(cache).compute_blobs@ == old(cache).compute_blobs@,
{
}

/// A device that is entered is known under a handle of its own, with its adapter.
pub proof fn entered_device_has_its_adapter(
    backend: &mut Dx12Backend,
    adapter_id: u32,
    supports_reserved_buffers: bool,
    handle: u64,
    other: u64,
)
    requires
        call_ensures(
            Dx12Backend::finish_create_device,
            (backend, adapter_id, supports_reserved_buffers),
            handle,
        ),
        old(backend).next_device_handle < u64::MAX,
    ensures
        handle == old(backend).next_device_handle,
        final(backend).next_device_handle > handle,
        final(backend).devices@.contains_key(handle),
        final(backend).devices@[handle].adapter_id == adapter_id,
        final(backend).devices@[handle].supports_reserved_buffers == supports_reserved_buffers,
        other != handle && old(backend).devices@.contains_key(other)
            ==> final(backend).devices@.contains_key(other) && final(backend).devices@[other]
            == old(backend).devices@[other],
{
}

/// A fence tells how far it has come, unless it says that the device is gone.
pub proof fn fence_tells_how_far_it_came(completed: u64, outcome: FenceOutcome)
    requires
        call_ensures(fence_outcome, (completed,), outcome),
    ensures
        outcome is DeviceRemoved <==> completed == u64::MAX,
        outcome matches FenceOutcome::Reached { completed: value } ==> value == completed,
{
}

/// A device is taken only with enhanced barriers; buffers can be reserved on it from the
/// first tier of tiled resources on.
pub proof fn device_needs_enhanced_barriers(
    features: &DeviceFeatures,
    result: Result<bool, DeviceError>,
)
    requires
        call_ensures(check_features, (features,), result),
    ensures
        result is Ok <==> features.enhanced_barriers,
        result matches Ok(reserved) ==> (reserved <==> features.tiled_resources_tier >= 1),
{
}

/// Structures are made on a device exactly where its adapter traces rays.
pub proof fn structures_need_ray_tracing(
    devices: &HashMap<u64, LogicalDevice>,
    adapters: &Vec<DxgiAdapter>,
    device: u64,
    result: Result<(), AccelError>,
    i: int,
)
    requires
        call_ensures(check_accel_device, (devices, adapters, device), result),
        0 <= i < adapters@.len(),
        devices@.contains_key(device) ==> adapters@[i].adapter_id == devices@[device].adapter_id,
        forall|j: int| 0 <= j < i ==> (#[trigger] adapters@[j]).adapter_id != adapters@[i].adapter_id,
    ensures
        result is Ok <==> devices@.contains_key(device) && (adapters@[i].ray_query
            || adapters@[i].ray_tracing_pipelines),
        result matches Err(e) ==> (e == AccelError::InvalidDevice <==> !devices@.contains_key(
            device,
        )),
{
    if devices@.contains_key(device) {
        assert(is_first_adapter(adapters@, devices@[device].adapter_id, i));
    }
}

/// Each instance of a build is packed in its own place, over the structure that it names.
pub proof fn instances_are_packed_in_their_places(
    table: &AccelTable,
    dest: u64,
    instances: &Vec<AccelInstance>,
    packed: Result<Vec<PackedInstance>, AccelError>,
    i: int,
)
    requires
        call_ensures(AccelTable::pack_instances, (table, dest, instances), packed),
        packed is Ok,
        0 <= i < instances@.len(),
    ensures
        packed->Ok_0@.len() == instances@.len(),
        packed->Ok_0@[i].blas == table.entries@[instances@[i].blas].resource,
{
}

} // verus!
