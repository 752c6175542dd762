//! What the operations of contexts, their frame tables and their device do.

use std::collections::HashMap;
use vstd::prelude::*;

use super::backend::{BackendError, DeviceWait, Dx12Backend, SwapchainWait, TimedWait};
use super::buffer::BufferTable;
use super::command_list::Call;
use super::commands::GpuCommand;
use super::context::{
    write_staging_for_submission, AllocatorSlot, ContextFence, ContextTable, DestroyedContext,
    DeviceProgress, PendingDeletion, RetainedGraph, StagingRow, SubmissionContext,
};
use super::deletion::drain_splits_the_queue;
use super::device::LogicalDevice;
use super::finish::{
    finish_with_reservation, try_resubmit_retained, Finished, Resubmission, SubmitFinish,
};
use super::frame_laws::staged_row_holds_the_words;
use super::frame_table::{
    stages_frame_table, ContextFrameTable, FrameTableError, FrameTableLayout, RowReservation,
    ROW_LIMIT,
};
use super::frame_table_init::{InitStep, MadeResource, TableInit};
use super::record::{RecordError, RecordInputs};
use super::stream::{submit_with_scope, RecordedList};
use super::types::{BufferState, RecordTables, TextureState};

verus! {

broadcast use vstd::std_specs::hash::group_hash_axioms;

/// Submissions take the rows of the ring in turn: the row after that of the last one, and
/// the first after the last row.
pub proof fn rows_are_taken_in_turn(
    table: &mut ContextFrameTable,
    row: u32,
    again: &mut ContextFrameTable,
    next: u32,
)
    requires
        call_ensures(ContextFrameTable::next_row, (table,), row),
        call_ensures(ContextFrameTable::next_row, (again,), next),
        *old(again) == *final(table),
        old(table).layout.max_rows > 0,
        old(table).submission_counter < u32::MAX,
    ensures
        row < old(table).layout.max_rows,
        row + 1 < old(table).layout.max_rows ==> next == row + 1,
        row + 1 == old(table).layout.max_rows ==> next == 0,
        final(table).tokens() == old(table).tokens(),
        final(table).pinned_rows == old(table).pinned_rows,
{
    let n = old(table).layout.max_rows as int;
    let c = old(table).submission_counter as int;
    assert(row == c % n && next == (c + 1) % n);
    vstd::arithmetic::div_mod::lemma_fundamental_div_mod(c, n);
    assert(n * (c / n) == (c / n) * n) by (nonlinear_arith);
    if row + 1 < n {
        vstd::arithmetic::div_mod::lemma_fundamental_div_mod_converse(c + 1, n, c / n, row + 1);
    } else {
        assert((c / n + 1) * n == (c / n) * n + n) by (nonlinear_arith);
        vstd::arithmetic::div_mod::lemma_fundamental_div_mod_converse(c + 1, n, c / n + 1, 0);
    }
}

/// A submission takes the row whose turn it is. It is refused where a list that is not its
/// context's holds the row, or its context is not known. Lists of its context that hold the
/// row are given up, and no others; other contexts are not touched.
pub proof fn submission_takes_its_row(
    contexts: &mut HashMap<u64, SubmissionContext>,
    context: u64,
    table: &mut ContextFrameTable,
    completed: u64,
    result: Result<StagingRow, FrameTableError>,
    key: u64,
    other: u64,
)
    requires
        call_ensures(write_staging_for_submission, (contexts, context, table, completed), result),
    ensures
        ({
            let row = (old(table).submission_counter % old(table).layout.max_rows) as u32;
            let before = old(contexts)@[context].retained_graphs@;
            let after = final(contexts)@[context].retained_graphs@;
            &&& result matches Ok(taken) ==> taken.row == row && old(contexts)@.contains_key(context)
            &&& result is Ok && before.contains_key(key) ==> (after.contains_key(key) <==> !(
            old(table).pinned(row) && before[key].frame_table_row == Some(row)))
            &&& result is Ok && after.contains_key(key) ==> before.contains_key(key) && after[key]
                == before[key]
            &&& result matches Err(FrameTableError::InvalidContext { context: c }) ==> c == context
                && !old(contexts)@.contains_key(context)
            &&& old(contexts)@.contains_key(context) && !old(table).pinned(row) ==> result is Ok
        }),
        other != context && old(contexts)@.contains_key(other)
            ==> final(contexts)@.contains_key(other) && final(contexts)@[other] == old(contexts)@[other],
{
    if other != context && old(contexts)@.contains_key(other) {
        assert(final(contexts)@.dom().contains(other));
    }
}

/// A pass outside any context takes the row whose turn it is, unless a retained list holds
/// it.
pub proof fn standalone_pass_takes_its_row(
    table: &mut ContextFrameTable,
    completed: u64,
    result: Result<StagingRow, FrameTableError>,
)
    requires
        call_ensures(ContextFrameTable::write_staging_standalone, (table, completed), result),
    ensures
        ({
            let row = (old(table).submission_counter % old(table).layout.max_rows) as u32;
            &&& result is Ok <==> !old(table).pinned(row)
            &&& result matches Ok(taken) ==> taken.row == row
            &&& result matches Err(e) ==> e == (FrameTableError::StillPinned { row })
            &&& result is Err ==> final(table).tokens() == old(table).tokens()
        }),
        final(table).pinned_rows == old(table).pinned_rows,
{
}

/// A row is pinned once: it is then, and no other row changes.
pub proof fn row_is_pinned_once(
    table: &mut ContextFrameTable,
    row: u32,
    result: Result<(), FrameTableError>,
    other: u32,
)
    requires
        call_ensures(ContextFrameTable::pin_row, (table, row), result),
        row < ROW_LIMIT,
        other < ROW_LIMIT,
    ensures
        result is Ok <==> !old(table).pinned(row),
        final(table).pinned(row),
        other != row ==> (final(table).pinned(other) <==> old(table).pinned(other)),
        final(table).tokens() == old(table).tokens(),
{
}

/// A new table has every row free and nothing pinned, over the resources it was given.
pub proof fn new_table_has_every_row_free(
    layout: FrameTableLayout,
    selector: u64,
    device_table: u64,
    selector_slot: u32,
    table_slot: u32,
    staging: u64,
    table: ContextFrameTable,
    row: u32,
)
    requires
        call_ensures(
            ContextFrameTable::new,
            (layout, selector, device_table, selector_slot, table_slot, staging),
            table,
        ),
        row < layout.max_rows,
    ensures
        !table.pinned(row),
        table.tokens()[row as int] == 0,
        table.submission_counter == 0,
        table.layout == layout,
        table.selector == selector,
        table.device_table == device_table,
        table.selector_slot == selector_slot,
        table.table_slot == table_slot,
        table.staging == staging,
{
}

/// Opening a submission stages its words in its own row, and the number of the row in the
/// selector of the row; it is refused, with nothing recorded, exactly where the table or
/// the selector is not there.
pub proof fn prologue_stages_the_words(
    table: &ContextFrameTable,
    buffers: &HashMap<u64, BufferState>,
    calls: &mut Vec<Call>,
    staging: &mut Vec<u32>,
    data: &Vec<u32>,
    row: u32,
    result: Result<(), FrameTableError>,
    j: int,
    other: int,
)
    requires
        call_ensures(
            ContextFrameTable::record_prologue,
            (table, buffers, calls, staging, data, row),
            result,
        ),
        table.wf(),
        row < table.layout.max_rows,
        old(staging)@.len() == table.layout.staging_selector_u32s + table.layout.max_rows
            * table.layout.row_stride,
    ensures
        ({
            let first = table.layout.staging_selector_u32s + row * table.layout.row_stride;
            let after = final(staging)@;
            &&& after.len() == old(staging)@.len()
            &&& after[row as int] == row
            &&& 0 <= j < data@.len() && j < table.layout.row_stride ==> after[first + j] == data@[j]
            &&& 0 <= other < after.len() && other != row && !(first <= other < first
                + table.layout.row_stride) ==> after[other] == old(staging)@[other]
        }),
        result is Ok <==> buffers@.contains_key(table.device_table) && buffers@.contains_key(
            table.selector,
        ),
        result is Err ==> final(calls)@ == old(calls)@,
{
    staged_row_holds_the_words(table.layout, old(staging)@, data@, row, j, other);
}

/// A retained list that is executed again is the one retained under the key. It becomes the
/// last submission of its context, and its slot waits for it; what its context has reached
/// is released.
pub proof fn resubmitted_list_is_the_retained_one(
    context: &mut SubmissionContext,
    fence: &mut ContextFence,
    key: u64,
    fence_value: u64,
    resubmission: Option<Resubmission>,
    i: int,
)
    requires
        call_ensures(try_resubmit_retained, (context, fence, key, fence_value), resubmission),
    ensures
        resubmission is Some <==> old(context).retained_graphs@.contains_key(key),
        resubmission is None ==> *final(context) == *old(context) && *final(fence) == *old(fence),
        resubmission matches Some(r) ==> {
            let graph = old(context).retained_graphs@[key];
            let slot = graph.slot_idx as int;
            let queue = old(context).deletion_queue@;
            &&& r.command_list == graph.command_list
            &&& r.used_slots@ == graph.used_slots@
            &&& final(context).last_submitted_seq == fence_value
            &&& final(fence).last_submitted_seq == fence_value
            &&& slot < old(context).compute_allocator_pool@.len() ==> final(context).compute_allocator_pool@[slot].fence_value == fence_value
            &&& 0 <= i < old(context).compute_allocator_pool@.len() && i != slot ==> final(context).compute_allocator_pool@[i] == old(context).compute_allocator_pool@[i]
            &&& 0 <= i < queue.len() ==> if queue[i].0 <= old(fence).completed {
                r.released@.contains(queue[i].1)
            } else {
                final(context).deletion_queue@.contains(queue[i])
            }
        },
        final(context).retained_graphs == old(context).retained_graphs,
{
    drain_splits_the_queue(old(context).deletion_queue@, old(fence).completed);
}

/// The row that a submission reserved holds its timeline value once it is noted, and is
/// free again where it is refused; the tokens of the other rows stay.
pub proof fn reserved_row_takes_the_timeline_value(
    context: &mut SubmissionContext,
    table: &mut ContextFrameTable,
    fence: &mut ContextFence,
    submit: SubmitFinish,
    fence_value: u64,
    reservation: RowReservation,
    result: Result<Finished, FrameTableError>,
    row: u32,
)
    requires
        call_ensures(
            finish_with_reservation,
            (context, table, fence, submit, fence_value, reservation),
            result,
        ),
        row < old(table).tokens().len(),
        reservation.row matches Some(r) ==> r < old(table).tokens().len(),
    ensures
        reservation.row == Some(row) && result is Ok ==> final(table).tokens()[row as int]
            == fence_value,
        reservation.row == Some(row) && result is Err ==> final(table).tokens()[row as int] == 0,
        reservation.row != Some(row) ==> final(table).tokens()[row as int] == old(table).tokens()[row as int],
        result is Ok ==> final(context).last_submitted_seq == fence_value && final(fence).last_submitted_seq == fence_value,
{
}

/// A context that is finished hands out everything that waited for it and every list that
/// it retained, and its fence is gone; the device never falls back behind what the context
/// had reached.
pub proof fn finished_context_hands_out_everything(
    contexts: &mut ContextTable,
    context: u64,
    detached: SubmissionContext,
    completed: u64,
    progress: &mut DeviceProgress,
    device_pool: &mut Vec<AllocatorSlot>,
    destroyed: DestroyedContext,
    i: int,
    key: u64,
    other: u64,
)
    requires
        call_ensures(
            ContextTable::finish_destroy,
            (contexts, context, detached, completed, progress, device_pool),
            destroyed,
        ),
    ensures
        !final(contexts).fences@.contains_key(context),
        other != context && old(contexts).fences@.contains_key(other)
            ==> final(contexts).fences@.contains_key(other) && final(contexts).fences@[other]
            == old(contexts).fences@[other],
        final(progress).retired_floor >= completed,
        final(progress).retired_floor >= old(progress).retired_floor,
        final(progress).retired_floor == completed || final(progress).retired_floor == old(progress).retired_floor,
        destroyed.released@.len() == detached.deletion_queue@.len(),
        0 <= i < detached.deletion_queue@.len() ==> destroyed.released@[i]
            == detached.deletion_queue@[i].1,
        detached.retained_graphs@.contains_key(key) ==> destroyed.graphs@.contains(
            (key, detached.retained_graphs@[key]),
        ),
{
    if detached.retained_graphs@.contains_key(key) {
        let keys = destroyed.graphs@.map_values(
            |g: (u64, RetainedGraph)| g.0,
        );
        assert(keys.to_set().contains(key));
        let k = choose|k: int| 0 <= k < keys.len() && keys[k] == key;
        assert(destroyed.graphs@[k].0 == key);
        assert(destroyed.graphs@[k] == (key, detached.retained_graphs@[key]));
    }
}

/// New contexts get ids of their own, as long as there are any, and only on devices that
/// are there.
pub proof fn new_contexts_get_ids_of_their_own<D>(
    contexts: &mut ContextTable,
    devices: &HashMap<u64, D>,
    device: u64,
    id: Result<u64, FrameTableError>,
)
    requires
        call_ensures(ContextTable::next_id::<D>, (contexts, devices, device), id),
    ensures
        id is Ok <==> devices@.contains_key(device),
        id matches Ok(given) ==> given == old(contexts).next_context_id && (given < u64::MAX
            ==> final(contexts).next_context_id > given),
        final(contexts).next_context_id >= old(contexts).next_context_id,
{
}

/// A list that is given up is gone, and no other is; its slot can be reset again.
pub proof fn evicted_list_is_gone(
    context: &mut SubmissionContext,
    table: &mut ContextFrameTable,
    key: u64,
    other: u64,
    row: u32,
)
    requires
        call_ensures(SubmissionContext::evict_retained, (context, table, key), ()),
        row < old(table).layout.max_rows,
    ensures
        !final(context).retained_graphs@.contains_key(key),
        other != key && old(context).retained_graphs@.contains_key(other) ==> final(context).retained_graphs@.contains_key(other) && final(context).retained_graphs@[other] == old(context).retained_graphs@[other],
        old(context).retained_graphs@.contains_key(key) && old(context).retained_graphs@[key].frame_table_row == Some(row) ==> !final(table).pinned(row),
        final(table).pinned(row) ==> old(table).pinned(row),
        !old(context).retained_graphs@.contains_key(key) ==> (final(table).pinned(row) <==> old(table).pinned(row)),
{
}

/// A device that is taken out takes with it exactly the buffers, textures and surfaces that
/// live on it; its timeline has moved on.
pub proof fn device_takes_its_own_with_it(
    backend: &mut Dx12Backend,
    device: u64,
    destroyed: Option<LogicalDevice>,
    handle: u64,
)
    requires
        call_ensures(Dx12Backend::destroy_device_inner, (backend, device), destroyed),
        old(backend).devices@.contains_key(device),
        old(backend).devices@[device].timeline_next < u64::MAX,
    ensures
        destroyed is Some,
        destroyed->0.timeline_next == old(backend).devices@[device].timeline_next + 1,
        !final(backend).devices@.contains_key(device),
        handle != device && old(backend).devices@.contains_key(handle)
            ==> final(backend).devices@.contains_key(handle),
        final(backend).buffers.entries@.contains_key(handle) <==> old(backend).buffers.entries@.contains_key(handle) && old(backend).buffers.entries@[handle].device_handle != device,
        final(backend).textures@.contains_key(handle) <==> old(backend).textures@.contains_key(
            handle,
        ) && old(backend).textures@[handle].device_handle != device,
        final(backend).surfaces@.contains_key(handle) <==> old(backend).surfaces@.contains_key(
            handle,
        ) && old(backend).surfaces@[handle].device_handle != device,
        final(backend).shaders@.contains_key(handle) <==> old(backend).shaders@.contains_key(
            handle,
        ) && old(backend).shaders@[handle].device_handle != device,
        final(backend).render_targets@.contains_key(handle) <==> old(backend).render_targets@.contains_key(handle) && old(backend).render_targets@[handle].device_handle != device,
{
}

/// A wait with a timeout reports a timeout, with nothing released, where the value was not
/// submitted or not reached in time, and only then.
pub proof fn timed_out_wait_releases_nothing(
    backend: &mut Dx12Backend,
    context: u64,
    value: u64,
    submitted: bool,
    in_time: bool,
    completed: u64,
    retired: u64,
    result: Result<TimedWait, BackendError>,
)
    requires
        call_ensures(
            Dx12Backend::wait_until_timeout,
            (backend, context, value, submitted, in_time, completed, retired),
            result,
        ),
        old(backend).contexts.contexts@.contains_key(context),
        old(backend).contexts.fences@.contains_key(context),
        old(backend).devices@.contains_key(old(backend).contexts.contexts@[context].device),
    ensures
        result == Ok::<TimedWait, BackendError>(TimedWait::TimedOut) <==> !submitted || !in_time,
        !submitted || !in_time ==> *final(backend) == *old(backend),
        submitted && in_time && completed == u64::MAX ==> result == Err::<TimedWait, BackendError>(
            BackendError::DeviceRemoved,
        ),
        submitted && in_time && completed != u64::MAX ==> result is Ok,
{
}

/// A pipeline that is entered has the states that were made for it, and belongs to its
/// device.
pub proof fn entered_pipeline_is_the_one_made(
    backend: &mut Dx12Backend,
    device: u64,
    shader: u64,
    pipeline_state: u64,
    root_signature: u64,
    handle: u64,
    other: u64,
)
    requires
        call_ensures(
            Dx12Backend::finish_compute_pipeline,
            (backend, device, shader, pipeline_state, root_signature),
            handle,
        ),
    ensures
        final(backend).compute_pipelines@.contains_key(handle),
        final(backend).compute_pipelines@[handle].device_handle == device,
        final(backend).compute_pipelines@[handle].pipeline_state == pipeline_state,
        final(backend).compute_pipelines@[handle].root_signature == root_signature,
        old(backend).shaders@.contains_key(shader) && old(backend).shaders@[shader].reflection
            is Some ==> final(backend).compute_pipelines@[handle].reflection.same(
            old(backend).shaders@[shader].reflection->0,
        ),
        other != handle && old(backend).compute_pipelines@.contains_key(other)
            ==> final(backend).compute_pipelines@.contains_key(other)
            && final(backend).compute_pipelines@[other] == old(backend).compute_pipelines@[other],
{
    if other != handle && old(backend).compute_pipelines@.contains_key(other) {
        assert(final(backend).compute_pipelines@.dom().contains(other));
    }
    assert(final(backend).compute_pipelines@.dom().contains(handle));
}

/// The return of an image is waited for on the surface's own device, and only where that
/// has not reached the value.
pub proof fn image_return_is_waited_for_on_its_device(
    backend: &Dx12Backend,
    surface: u64,
    value: u64,
    device_sync: u64,
    wait: Result<Option<SwapchainWait>, BackendError>,
)
    requires
        call_ensures(
            Dx12Backend::take_swapchain_return_blocking_wait,
            (backend, surface, value, device_sync),
            wait,
        ),
    ensures
        wait is Ok <==> backend.surfaces@.contains_key(surface) && backend.devices@.contains_key(
            backend.surfaces@[surface].device_handle,
        ),
        wait matches Ok(w) ==> (w is Some <==> device_sync < value),
        wait matches Ok(Some(w)) ==> w.device == backend.surfaces@[surface].device_handle && w.value
            == value,
{
}

/// Flushing a context releases exactly what waited for values that its fence has reached.
pub proof fn flush_releases_what_was_reached(
    backend: &mut Dx12Backend,
    context: u64,
    released: Vec<PendingDeletion>,
    i: int,
    other: u64,
)
    requires
        call_ensures(Dx12Backend::flush_context, (backend, context), released),
        old(backend).contexts.contexts@.contains_key(context),
        old(backend).contexts.fences@.contains_key(context),
    ensures
        ({
            let queue = old(backend).contexts.contexts@[context].deletion_queue@;
            let left = final(backend).contexts.contexts@[context].deletion_queue@;
            let completed = old(backend).contexts.fences@[context].completed;
            &&& 0 <= i < queue.len() ==> if queue[i].0 <= completed {
                released@.contains(queue[i].1)
            } else {
                left.contains(queue[i])
            }
            &&& released@.len() + left.len() == queue.len()
        }),
        other != context && old(backend).contexts.contexts@.contains_key(other)
            ==> final(backend).contexts.contexts@[other] == old(backend).contexts.contexts@[other],
{
    drain_splits_the_queue(
        old(backend).contexts.contexts@[context].deletion_queue@,
        old(backend).contexts.fences@[context].completed,
    );
}

/// A wait for a device does nothing where the value has retired, and waits for the worker
/// only for values that were given out.
pub proof fn device_wait_waits_for_what_was_given_out(
    backend: &Dx12Backend,
    device: u64,
    value: u64,
    retired: u64,
    horizon: u64,
    wait: Option<DeviceWait>,
)
    requires
        call_ensures(Dx12Backend::plan_device_wait, (backend, device, value, retired, horizon), wait),
    ensures
        wait is None <==> value <= retired,
        wait matches Some(w) ==> {
            &&& w.flush <==> backend.devices@.contains_key(device)
            &&& w.wait_submitted is Some <==> backend.devices@.contains_key(device) && value
                <= horizon
            &&& w.wait_submitted matches Some(v) ==> v == value
        },
{
}

/// The list of a stream renders to nothing, and names the first command of the stream that
/// stages a table, where there is one.
pub proof fn list_names_its_first_staging(
    tables: &RecordTables,
    inputs: &RecordInputs,
    textures: &mut HashMap<u64, TextureState>,
    commands: &Vec<GpuCommand>,
    queries: Option<u32>,
    result: Result<RecordedList, RecordError>,
    i: int,
)
    requires
        call_ensures(submit_with_scope, (tables, inputs, textures, commands, queries), result),
        result is Ok,
    ensures
        result->Ok_0.rendered_targets@.len() == 0,
        result->Ok_0.staging_command matches Some(s) ==> s < commands@.len() && commands@[s as int]
            is FrameTableStaging,
        0 <= i < commands@.len() && commands@[i] is FrameTableStaging ==> (
        result->Ok_0.staging_command matches Some(s) && s <= i),
{
    if 0 <= i < commands@.len() && commands@[i] is FrameTableStaging {
        assert(stages_frame_table(commands@[i]));
    }
}

/// A frame table is made step by step: its selector, its table on the device, its staging
/// memory. What is made is used in its own place; where something cannot be made, what was
/// made before is taken out again.
pub proof fn table_is_made_of_what_was_made(
    init: TableInit,
    buffers: &mut BufferTable,
    device: u64,
    layout: FrameTableLayout,
    made: Option<MadeResource>,
    step: InitStep,
    other: u64,
)
    requires
        call_ensures(TableInit::init_context, (init, buffers, device, layout, made), step),
    ensures
        made is None <==> step is Failed,
        init is Selector && made is Some ==> (step matches InitStep::Next { init: next } && (
        next matches TableInit::DeviceTable { selector, selector_slot } && selector == old(buffers).next_handle && selector_slot == made->0.slot)),
        init is DeviceTable && made is Some ==> (step matches InitStep::Next { init: next } && (
        next matches TableInit::Staging { selector, selector_slot, device_table, table_slot }
            && selector == init->DeviceTable_selector && selector_slot
            == init->DeviceTable_selector_slot && device_table == old(buffers).next_handle
            && table_slot == made->0.slot)),
        init is Staging && made is Some ==> (step matches InitStep::Ready { table } && table.selector
            == init->Staging_selector && table.selector_slot == init->Staging_selector_slot
            && table.device_table == init->device_table && table.table_slot == init->table_slot
            && table.staging == made->0.resource && table.layout == layout),
        made is None && init is Staging ==> !final(buffers).entries@.contains_key(
            init->Staging_selector,
        ) && !final(buffers).entries@.contains_key(init->device_table),
        made is None && init is DeviceTable ==> !final(buffers).entries@.contains_key(
            init->DeviceTable_selector,
        ),
        made is None && !init.made().contains(other) && old(buffers).entries@.contains_key(other)
            ==> final(buffers).entries@.contains_key(other),
{
    let all = init.made();
    if made is None && init is Staging {
        assert(all[0] == init->Staging_selector && all[1] == init->device_table);
        assert(all.to_set().contains(all[0]) && all.to_set().contains(all[1]));
    }
    if made is None && init is DeviceTable {
        assert(all[0] == init->DeviceTable_selector);
        assert(all.to_set().contains(all[0]));
    }
}

/// Refreshing a row stages its words in the active row again, where the table is there.
pub proof fn refreshed_row_is_the_active_one(
    table: &ContextFrameTable,
    buffers: &HashMap<u64, BufferState>,
    calls: &mut Vec<Call>,
    staging: &mut Vec<u32>,
    data: &Vec<u32>,
    result: Result<(), FrameTableError>,
    j: int,
)
    requires
        call_ensures(
            ContextFrameTable::sync_table_row_to_device,
            (table, buffers, calls, staging, data),
            result,
        ),
        table.wf(),
        table.active() < table.layout.max_rows,
        old(staging)@.len() == table.layout.staging_selector_u32s + table.layout.max_rows
            * table.layout.row_stride,
        0 <= j < data@.len(),
        j < table.layout.row_stride,
    ensures
        result is Ok <==> buffers@.contains_key(table.device_table),
        result is Ok ==> final(staging)@[table.layout.staging_selector_u32s + table.active()
            * table.layout.row_stride + j] == data@[j],
        result is Err ==> final(staging)@ == old(staging)@ && final(calls)@ == old(calls)@,
{
    staged_row_holds_the_words(table.layout, old(staging)@, data@, table.active(), j, 0);
}

/// A table buffer that is entered is over the resource that was made for it, on its device,
/// under its slot, and holds its words.
pub proof fn entered_table_buffer_holds_its_words(
    buffers: &mut BufferTable,
    device: u64,
    resource: u64,
    num_u32s: u32,
    slot: u32,
    handle: u64,
    other: u64,
)
    requires
        call_ensures(
            BufferTable::register_table_buffer,
            (buffers, device, resource, num_u32s, slot),
            handle,
        ),
    ensures
        handle == old(buffers).next_handle,
        final(buffers).entries@.contains_key(handle),
        final(buffers).entries@[handle].device_handle == device,
        final(buffers).entries@[handle].resource == resource,
        final(buffers).entries@[handle].bindless_offset == Some(slot),
        final(buffers).entries@[handle].size >= 4 * num_u32s,
        final(buffers).entries@[handle].is_storage,
        old(buffers).entries@.contains_key(other) ==> final(buffers).entries@.contains_key(other)
            && final(buffers).entries@[other] == old(buffers).entries@[other],
{
    assert(final(buffers).entries@.dom().contains(handle));
    if old(buffers).entries@.contains_key(other) {
        assert(final(buffers).entries@.dom().contains(other));
    }
}

} // verus!
